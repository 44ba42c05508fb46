//! The compositing engine: decode a base plate, stack layer images over it
//! in the given order (resizing a mismatched layer to the canvas first),
//! and encode the result as JPEG.

use vstd::prelude::*;

verus! {

#[verifier::external_type_specification]
#[verifier::external_body]
pub struct ExDynamicImage(image::DynamicImage);

/// What a decoded image holds: its width, its height, and its pixel
/// content in the abstract.
pub uninterp spec fn img_model(img: image::DynamicImage) -> (nat, nat, Seq<u32>);

/// What decoding a byte blob yields, if it decodes at all; decoding is a
/// function of the bytes alone.
pub uninterp spec fn decoded(bytes: Seq<u8>) -> Option<(nat, nat, Seq<u32>)>;

/// The pixel content after resampling an image to the given size.
pub uninterp spec fn resized(m: (nat, nat, Seq<u32>), w: nat, h: nat) -> Seq<u32>;

/// The pixel content after alpha-compositing `top` over `base` at the
/// origin, with standard `over` blending.
pub uninterp spec fn overlaid(base: (nat, nat, Seq<u32>), top: (nat, nat, Seq<u32>)) -> Seq<u32>;

/// What encoding an image as JPEG yields, if the encoder accepts the
/// image at all.
pub uninterp spec fn encoded(m: (nat, nat, Seq<u32>)) -> Option<Seq<u8>>;

/// Relies on `image::load_from_memory`: whether the bytes decode, and to
/// which image, depends on the bytes alone.
#[verifier::external_body]
fn decode_image(bytes: &[u8]) -> (r: Option<image::DynamicImage>)
    ensures
        r is Some <==> decoded(bytes@) is Some,
        r matches Some(img) ==> Some(img_model(img)) == decoded(bytes@),
{
    image::load_from_memory(bytes).ok()
}

/// Relies on `DynamicImage::width`.
#[verifier::external_body]
fn image_width(img: &image::DynamicImage) -> (r: u32)
    ensures
        r as nat == img_model(*img).0,
{
    img.width()
}

/// Relies on `DynamicImage::height`.
#[verifier::external_body]
fn image_height(img: &image::DynamicImage) -> (r: u32)
    ensures
        r as nat == img_model(*img).1,
{
    img.height()
}

/// Relies on `DynamicImage::resize_exact` with the Lanczos3 filter: the
/// result has exactly the requested dimensions and its content is a
/// function of the source image and the requested size.
#[verifier::external_body]
fn resize_image(img: &image::DynamicImage, w: u32, h: u32) -> (r: image::DynamicImage)
    requires
        w >= 1,
        h >= 1,
        img_model(*img).0 >= 1,
        img_model(*img).1 >= 1,
    ensures
        img_model(r) == (w as nat, h as nat, resized(img_model(*img), w as nat, h as nat)),
{
    img.resize_exact(w, h, image::imageops::FilterType::Lanczos3)
}

/// Relies on `image::imageops::overlay` at offset (0, 0): the bottom image
/// keeps its dimensions and its content becomes the alpha blend; the top
/// image is clipped to the canvas, never the other way round.
#[verifier::external_body]
fn overlay_image(base: &mut image::DynamicImage, top: &image::DynamicImage)
    ensures
        img_model(*final(base)) == (
            img_model(*old(base)).0,
            img_model(*old(base)).1,
            overlaid(img_model(*old(base)), img_model(*top)),
        ),
{
    image::imageops::overlay(base, top, 0, 0);
}

/// Relies on `DynamicImage::write_to` with `ImageFormat::Jpeg`: whether
/// the image encodes, and to which bytes, depends on the image alone.
#[verifier::external_body]
fn encode_image_jpeg(img: &image::DynamicImage) -> (r: Option<Vec<u8>>)
    ensures
        r is Some <==> encoded(img_model(*img)) is Some,
        r matches Some(v) ==> Some(v@) == encoded(img_model(*img)),
{
    let mut buf: Vec<u8> = Vec::new();
    match img.write_to(&mut std::io::Cursor::new(&mut buf), image::ImageFormat::Jpeg) {
        Ok(()) => Some(buf),
        Err(_) => None,
    }
}

/// Why a composition failed: the base plate did not decode, the layer at
/// the given position did not decode, or the finished canvas did not
/// encode.
#[derive(Debug, Clone, Copy, PartialEq, Eq, Structural)]
pub enum ComposeError {
    DecodeBase,
    DecodeLayer(usize),
    Encode,
}

/// One stacking step: a layer whose dimensions differ from the canvas is
/// first resampled to the canvas size (when both sizes are nonzero), then
/// alpha-composited at the origin; the canvas keeps its dimensions.
pub open spec fn stack_step(base: (nat, nat, Seq<u32>), layer: (nat, nat, Seq<u32>)) -> (
    nat,
    nat,
    Seq<u32>,
) {
    let fitted = if (layer.0 != base.0 || layer.1 != base.1) && base.0 >= 1 && base.1 >= 1
        && layer.0 >= 1 && layer.1 >= 1 {
        (base.0, base.1, resized(layer, base.0, base.1))
    } else {
        layer
    };
    (base.0, base.1, overlaid(base, fitted))
}

/// The canvas after stacking every layer, in order, onto `base`.
pub open spec fn stack_all(base: (nat, nat, Seq<u32>), layers: Seq<(nat, nat, Seq<u32>)>) -> (
    nat,
    nat,
    Seq<u32>,
)
    decreases layers.len(),
{
    if layers.len() == 0 {
        base
    } else {
        stack_all(stack_step(base, layers[0]), layers.drop_first())
    }
}

/// The position of the first layer blob that does not decode.
pub open spec fn first_undecodable(layers: Seq<Seq<u8>>) -> Option<int>
    decreases layers.len(),
{
    if layers.len() == 0 {
        None
    } else if decoded(layers[0]) is None {
        Some(0)
    } else {
        match first_undecodable(layers.drop_first()) {
            Some(i) => Some(i + 1),
            None => None,
        }
    }
}

/// The decoded models of layer blobs that all decode.
pub open spec fn decoded_models(layers: Seq<Seq<u8>>) -> Seq<(nat, nat, Seq<u32>)> {
    layers.map_values(|b: Seq<u8>| decoded(b)->0)
}

/// The views of a vector of byte vectors.
pub open spec fn bytes_views(s: Seq<Vec<u8>>) -> Seq<Seq<u8>> {
    s.map_values(|v: Vec<u8>| v@)
}

/// What composing yields: the base must decode, every layer must decode
/// (the first that does not names the error), the layers are stacked in
/// the given order, and the canvas is encoded as JPEG.
pub open spec fn compose_spec(base: Seq<u8>, layers: Seq<Seq<u8>>) -> Result<Seq<u8>, ComposeError> {
    if decoded(base) is None {
        Err(ComposeError::DecodeBase)
    } else if first_undecodable(layers) is Some {
        Err(ComposeError::DecodeLayer(first_undecodable(layers)->0 as usize))
    } else {
        match encoded(stack_all(decoded(base)->0, decoded_models(layers))) {
            Some(bytes) => Ok(bytes),
            None => Err(ComposeError::Encode),
        }
    }
}

/// A found position of `first_undecodable` is in range, does not decode,
/// and everything before it does; `None` means every layer decodes.
pub proof fn lemma_first_undecodable_props(layers: Seq<Seq<u8>>)
    ensures
        match first_undecodable(layers) {
            Some(i) => 0 <= i < layers.len() && decoded(layers[i]) is None && (forall|j: int|
                0 <= j < i ==> decoded(#[trigger] layers[j]) is Some),
            None => forall|j: int| 0 <= j < layers.len() ==> decoded(#[trigger] layers[j]) is Some,
        },
    decreases layers.len(),
{
    if layers.len() > 0 && decoded(layers[0]) is Some {
        let t = layers.drop_first();
        lemma_first_undecodable_props(t);
        match first_undecodable(t) {
            Some(i) => {
                assert(first_undecodable(layers) == Some(i + 1));
                assert(layers[i + 1] == t[i]);
                assert forall|j: int| 0 <= j < i + 1 implies decoded(
                    #[trigger] layers[j],
                ) is Some by {
                    if j > 0 {
                        assert(layers[j] == t[j - 1]);
                    }
                }
            },
            None => {
                assert(first_undecodable(layers) is None);
                assert forall|j: int| 0 <= j < layers.len() implies decoded(
                    #[trigger] layers[j],
                ) is Some by {
                    if j > 0 {
                        assert(layers[j] == t[j - 1]);
                    }
                }
            },
        }
    }
}

/// Builds a composite canvas layer by layer over a decoded base plate.
pub struct Compositor {
    base_image: image::DynamicImage,
    layers_added: usize,
}

impl Compositor {
    /// The current canvas.
    pub closed spec fn model(&self) -> (nat, nat, Seq<u32>) {
        img_model(self.base_image)
    }

    /// How many layers were stacked so far.
    pub closed spec fn count(&self) -> int {
        self.layers_added as int
    }

    /// Decode the base plate into a fresh canvas; bytes that do not decode
    /// are a fatal error.
    pub fn new(base_image_data: &[u8]) -> (r: Result<Compositor, ComposeError>)
        ensures
            match r {
                Ok(c) => decoded(base_image_data@) == Some(c.model()) && c.count() == 0,
                Err(e) => e == ComposeError::DecodeBase && decoded(base_image_data@) is None,
            },
    {
        match decode_image(base_image_data) {
            Some(img) => Ok(Compositor { base_image: img, layers_added: 0 }),
            None => Err(ComposeError::DecodeBase),
        }
    }

    /// Stack one layer onto the canvas: decode it, resample it to the
    /// canvas size if its dimensions differ, and alpha-composite it at the
    /// origin. A layer that does not decode aborts with its position.
    pub fn add_layer(&mut self, layer_data: &[u8]) -> (r: Result<(), ComposeError>)
        requires
            old(self).count() < usize::MAX,
        ensures
            match r {
                Ok(_) => decoded(layer_data@) matches Some(lm) && final(self).model() == stack_step(
                    old(self).model(),
                    lm,
                ) && final(self).count() == old(self).count() + 1,
                Err(e) => {
                    &&& e == ComposeError::DecodeLayer(old(self).count() as usize)
                    &&& decoded(layer_data@) is None
                    &&& final(self).model() == old(self).model()
                    &&& final(self).count() == old(self).count()
                },
            },
    {
        match decode_image(layer_data) {
            None => Err(ComposeError::DecodeLayer(self.layers_added)),
            Some(layer) => {
                let w = image_width(&self.base_image);
                let h = image_height(&self.base_image);
                let lw = image_width(&layer);
                let lh = image_height(&layer);
                let fitted = if (lw != w || lh != h) && w >= 1 && h >= 1 && lw >= 1 && lh >= 1 {
                    resize_image(&layer, w, h)
                } else {
                    layer
                };
                overlay_image(&mut self.base_image, &fitted);
                self.layers_added = self.layers_added + 1;
                Ok(())
            },
        }
    }

    /// Encode the canvas as JPEG; an image the encoder rejects is a fatal
    /// error.
    pub fn finalize(self) -> (r: Result<Vec<u8>, ComposeError>)
        ensures
            match r {
                Ok(v) => encoded(self.model()) == Some(v@),
                Err(e) => e == ComposeError::Encode && encoded(self.model()) is None,
            },
    {
        match encode_image_jpeg(&self.base_image) {
            Some(v) => Ok(v),
            None => Err(ComposeError::Encode),
        }
    }

    /// The canvas dimensions.
    pub fn dimensions(&self) -> (r: (u32, u32))
        ensures
            r.0 as nat == self.model().0,
            r.1 as nat == self.model().1,
    {
        (image_width(&self.base_image), image_height(&self.base_image))
    }
}

/// Compose every layer over the base plate, in the given order, and
/// encode the result; no layer is skipped, duplicated or reordered.
pub fn compose_layers(base_image_data: &[u8], layers: &Vec<Vec<u8>>) -> (r: Result<
    Vec<u8>,
    ComposeError,
>)
    ensures
        match r {
            Ok(v) => compose_spec(base_image_data@, bytes_views(layers@)) == Ok::<
                Seq<u8>,
                ComposeError,
            >(v@),
            Err(e) => compose_spec(base_image_data@, bytes_views(layers@)) == Err::<
                Seq<u8>,
                ComposeError,
            >(e),
        },
{
    let ghost lv = bytes_views(layers@);
    let ghost models = decoded_models(lv);
    let mut comp = match Compositor::new(base_image_data) {
        Ok(c) => c,
        Err(e) => {
            return Err(e);
        },
    };
    let ghost base_model = comp.model();
    let mut i: usize = 0;
    proof {
        assert(models.skip(0) =~= models);
    }
    while i < layers.len()
        invariant
            i <= layers@.len(),
            lv == bytes_views(layers@),
            models == decoded_models(lv),
            comp.count() == i,
            forall|j: int| 0 <= j < i ==> decoded(#[trigger] lv[j]) is Some,
            stack_all(base_model, models) == stack_all(comp.model(), models.skip(i as int)),
            decoded(base_image_data@) == Some(base_model),
        decreases layers@.len() - i,
    {
        match comp.add_layer(&layers[i]) {
            Ok(_) => {
                proof {
                    assert(models.skip(i as int)[0] == models[i as int]);
                    assert(models[i as int] == decoded(lv[i as int])->0);
                    assert(models.skip(i as int).drop_first() =~= models.skip(i + 1));
                }
            },
            Err(_) => {
                proof {
                    lemma_first_undecodable_props(lv);
                    match first_undecodable(lv) {
                        Some(k) => {
                            assert(!(k < i));
                            assert(!(k > i)) by {
                                if k > i {
                                    assert(decoded(lv[i as int]) is Some);
                                }
                            }
                        },
                        None => {
                            assert(decoded(lv[i as int]) is Some);
                        },
                    }
                }
                return Err(ComposeError::DecodeLayer(i));
            },
        }
        i += 1;
    }
    proof {
        lemma_first_undecodable_props(lv);
        if first_undecodable(lv) is Some {
            let k = first_undecodable(lv)->0;
            assert(decoded(lv[k]) is Some);
        }
        assert(models.skip(lv.len() as int) =~= Seq::<(nat, nat, Seq<u32>)>::empty());
        assert(stack_all(base_model, models) == comp.model());
    }
    comp.finalize()
}

} // verus!
