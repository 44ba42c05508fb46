//! The category/view rule engine: parsing raw parameter strings, filtering
//! and remapping layer parameters for a view, and ordering the survivors for
//! stacking.

use vstd::prelude::*;
use vstd::view::View as VstdView;

use crate::models::{
    normalize_sku, order_of_category, order_rank, LayerParam, LayerParamV, Sku, View,
};
use crate::text::{
    chars_eq, contains_seq, contains_pat, split_chars, split_on, starts_with_pat, starts_with_seq,
    str_chars, string_from_chars, trim_chars, trim_seq,
};

verus! {

/// The views of a vector of layer parameters.
pub open spec fn views_of_params(s: Seq<LayerParam>) -> Seq<LayerParamV> {
    s.map_values(|p: LayerParam| p@)
}

/// Whether the original, unfiltered parameter set holds a softshell jacket:
/// a `jackets` entry whose SKU mentions `softshell`.
pub open spec fn has_softshell(params: Seq<LayerParamV>) -> bool {
    exists|i: int|
        0 <= i < params.len() && (#[trigger] params[i]).category == "jackets"@ && contains_seq(
            params[i].sku,
            "softshell"@,
        )
}

/// The per-element transform for patch categories: it remaps the category
/// and keeps the SKU. The position is the part of the category after
/// `patches-`. Patches never show on the back; on the left or right view
/// only the matching side survives. The base category is
/// `softshell-patches` when the original set held a softshell jacket, else
/// `patches`; the front view appends the position to the base name.
pub open spec fn normalize_patch_spec(view: View, softshell: bool, p: LayerParamV) -> Option<
    LayerParamV,
> {
    let position = p.category.skip("patches-"@.len() as int);
    if view == View::Back {
        None
    } else if (view == View::Left && position != "left"@) || (view == View::Right && position
        != "right"@) {
        None
    } else {
        let base = if softshell {
            "softshell-patches"@
        } else {
            "patches"@
        };
        let category = if view == View::Front {
            base + "-"@ + position
        } else {
            base
        };
        Some(LayerParamV { category, sku: p.sku })
    }
}

/// The per-element transform of the rule engine: view gating, then the
/// patch, glove and jacket rules, each remapping only the category; other
/// categories pass through whole. No rule touches the SKU.
pub open spec fn normalize_one(view: View, softshell: bool, p: LayerParamV) -> Option<
    LayerParamV,
> {
    if (view == View::Left || view == View::Right) && !(p.category == "hoodies"@ || p.category
        == "jackets"@ || p.category == "patches-left"@ || p.category == "patches-right"@) {
        None
    } else if starts_with_seq(p.category, "patches-"@) {
        normalize_patch_spec(view, softshell, p)
    } else if p.category == "gloves"@ {
        let category = if starts_with_seq(p.sku, "ski"@) {
            "gloves-top"@
        } else {
            "gloves-bottom"@
        };
        Some(LayerParamV { category, sku: p.sku })
    } else if p.category == "jackets"@ {
        let category = if contains_seq(p.sku, "greenland"@) {
            "outer-jackets"@
        } else {
            "jackets"@
        };
        Some(LayerParamV { category, sku: p.sku })
    } else {
        Some(p)
    }
}

/// The parameters that survive the per-element transform, in input order.
pub open spec fn survivors(view: View, softshell: bool, ps: Seq<LayerParamV>) -> Seq<LayerParamV>
    decreases ps.len(),
{
    if ps.len() == 0 {
        Seq::empty()
    } else {
        let rest = survivors(view, softshell, ps.drop_last());
        match normalize_one(view, softshell, ps.last()) {
            Some(q) => rest.push(q),
            None => rest,
        }
    }
}

/// The sort key of a parameter: categories outside the fixed ranking come
/// first (`Option`'s derived ordering puts `None` before every `Some`),
/// then the ranked categories in z order.
pub open spec fn rank_code(p: LayerParamV) -> int {
    match order_of_category(p.category) {
        Some(o) => order_rank(o) + 1,
        None => 0,
    }
}

/// The concatenation of the rank buckets of `s` below rank code `r`, each
/// bucket keeping input order.
pub open spec fn buckets_upto(s: Seq<LayerParamV>, r: int) -> Seq<LayerParamV>
    decreases r,
{
    if r <= 0 {
        Seq::empty()
    } else {
        buckets_upto(s, r - 1) + s.filter(|p: LayerParamV| rank_code(p) == r - 1)
    }
}

/// `s` stably sorted by rank code.
pub open spec fn sort_by_rank(s: Seq<LayerParamV>) -> Seq<LayerParamV> {
    buckets_upto(s, 15)
}

/// Normalizes and filters layer parameters for one view, with the softshell
/// context detected from the whole original set.
pub struct LayerNormalizer {
    view: View,
    has_softshell_jacket: bool,
}

impl LayerNormalizer {
    /// The view this normalizer was built for.
    pub closed spec fn spec_view(&self) -> View {
        self.view
    }

    /// Whether the original set held a softshell jacket.
    pub closed spec fn spec_softshell(&self) -> bool {
        self.has_softshell_jacket
    }

    /// Scan the entire original set once for a softshell jacket, before any
    /// element is filtered.
    pub fn new(view: View, params: &Vec<LayerParam>) -> (r: LayerNormalizer)
        ensures
            r.spec_view() == view,
            r.spec_softshell() == has_softshell(views_of_params(params@)),
    {
        let jackets = str_chars("jackets");
        let softshell = str_chars("softshell");
        let mut found = false;
        let mut i: usize = 0;
        proof {
            reveal_strlit("softshell");
        }
        while i < params.len() && !found
            invariant
                i <= params@.len(),
                jackets@ == "jackets"@,
                softshell@ == "softshell"@,
                "softshell"@.len() >= 1,
                found ==> has_softshell(views_of_params(params@)),
                !found ==> !has_softshell(views_of_params(params@.take(i as int))),
            decreases params@.len() - i,
        {
            let cat = str_chars(params[i].category.as_str());
            let sku = str_chars(params[i].sku.as_str());
            if chars_eq(&cat, &jackets) && contains_pat(&sku, &softshell) {
                proof {
                    let vs = views_of_params(params@);
                    assert(vs[i as int].category == "jackets"@ && contains_seq(
                        vs[i as int].sku,
                        "softshell"@,
                    ));
                }
                found = true;
            } else {
                proof {
                    let prev = views_of_params(params@.take(i as int));
                    let cur = views_of_params(params@.take(i + 1));
                    assert(forall|j: int| 0 <= j < i ==> cur[j] == prev[j]);
                    assert(cur[i as int] == params@[i as int]@);
                    if has_softshell(cur) {
                        let k = choose|k: int|
                            0 <= k < cur.len() && (#[trigger] cur[k]).category == "jackets"@
                                && contains_seq(cur[k].sku, "softshell"@);
                        assert(k == i);
                    }
                }
            }
            i += 1;
        }
        proof {
            if !found {
                assert(params@.take(params@.len() as int) =~= params@);
            }
        }
        LayerNormalizer { view, has_softshell_jacket: found }
    }

    /// Apply the per-element transform to one parameter.
    pub fn normalize(&self, param: &LayerParam) -> (r: Option<LayerParam>)
        ensures
            match r {
                Some(q) => normalize_one(self.spec_view(), self.spec_softshell(), param@) == Some(
                    q@,
                ),
                None => normalize_one(self.spec_view(), self.spec_softshell(), param@) is None,
            },
    {
        let cat = str_chars(param.category.as_str());
        if matches!(self.view, View::Left | View::Right) {
            let allowed = chars_eq(&cat, &str_chars("hoodies")) || chars_eq(
                &cat,
                &str_chars("jackets"),
            ) || chars_eq(&cat, &str_chars("patches-left")) || chars_eq(
                &cat,
                &str_chars("patches-right"),
            );
            if !allowed {
                return None;
            }
        }
        let patches_prefix = str_chars("patches-");
        if starts_with_pat(&cat, &patches_prefix) {
            return self.normalize_patch(&cat, param);
        }
        if chars_eq(&cat, &str_chars("gloves")) {
            proof {
                reveal_strlit("gloves");
                reveal_strlit("hoodies");
                reveal_strlit("jackets");
                reveal_strlit("patches-left");
                reveal_strlit("patches-right");
            }
            return Some(self.normalize_gloves(param));
        }
        if chars_eq(&cat, &str_chars("jackets")) {
            return Some(self.normalize_jacket(param));
        }
        Some(param.clone())
    }

    /// The patch rule: position gating by view, then the base-name choice.
    fn normalize_patch(&self, cat: &Vec<char>, param: &LayerParam) -> (r: Option<LayerParam>)
        requires
            cat@ == param@.category,
            starts_with_seq(cat@, "patches-"@),
        ensures
            match r {
                Some(q) => normalize_patch_spec(self.spec_view(), self.spec_softshell(), param@)
                    == Some(q@),
                None => normalize_patch_spec(self.spec_view(), self.spec_softshell(), param@)
                    is None,
            },
    {
        proof {
            reveal_strlit("patches-");
        }
        let position = crate::text::copy_range(cat, 8, cat.len());
        proof {
            assert(position@ =~= cat@.skip("patches-"@.len() as int));
        }
        if matches!(self.view, View::Back) {
            return None;
        }
        if matches!(self.view, View::Left) && !chars_eq(&position, &str_chars("left")) {
            return None;
        }
        if matches!(self.view, View::Right) && !chars_eq(&position, &str_chars("right")) {
            return None;
        }
        let base: &str = if self.has_softshell_jacket {
            "softshell-patches"
        } else {
            "patches"
        };
        let mut category = String::new();
        category.append(base);
        if matches!(self.view, View::Front) {
            category.append("-");
            let pos_str = string_from_chars(&position);
            category.append(pos_str.as_str());
        }
        let sku = param.sku.clone();
        proof {
            let ghost expect = normalize_patch_spec(self.spec_view(), self.spec_softshell(), param@);
            assert(category@ =~= expect->0.category);
        }
        Some(LayerParam { category, sku })
    }

    /// The glove rule: a SKU starting with `ski` is a top glove, anything
    /// else (including `regular`) a bottom glove.
    fn normalize_gloves(&self, param: &LayerParam) -> (r: LayerParam)
        requires
            param@.category == "gloves"@,
            self.spec_view() != View::Left,
            self.spec_view() != View::Right,
        ensures
            normalize_one(self.spec_view(), self.spec_softshell(), param@) == Some(r@),
    {
        let sku_chars = str_chars(param.sku.as_str());
        let is_ski = starts_with_pat(&sku_chars, &str_chars("ski"));
        let sku = param.sku.clone();
        let name: &str = if is_ski {
            "gloves-top"
        } else {
            "gloves-bottom"
        };
        let mut category = String::new();
        category.append(name);
        proof {
            reveal_strlit("gloves");
            reveal_strlit("jackets");
            reveal_strlit("hoodies");
            reveal_strlit("patches-left");
            reveal_strlit("patches-right");
            reveal_strlit("patches-");
            assert(!starts_with_seq(param@.category, "patches-"@));
            assert(category@ =~= normalize_one(
                self.spec_view(),
                self.spec_softshell(),
                param@,
            )->0.category);
        }
        LayerParam { category, sku }
    }

    /// The jacket rule: a SKU mentioning `greenland` is an outer jacket.
    fn normalize_jacket(&self, param: &LayerParam) -> (r: LayerParam)
        requires
            param@.category == "jackets"@,
        ensures
            normalize_one(self.spec_view(), self.spec_softshell(), param@) == Some(r@),
    {
        let sku_chars = str_chars(param.sku.as_str());
        proof {
            reveal_strlit("greenland");
        }
        let is_outer = contains_pat(&sku_chars, &str_chars("greenland"));
        let sku = param.sku.clone();
        let name: &str = if is_outer {
            "outer-jackets"
        } else {
            "jackets"
        };
        let mut category = String::new();
        category.append(name);
        proof {
            reveal_strlit("jackets");
            reveal_strlit("gloves");
            reveal_strlit("patches-");
            assert(!starts_with_seq(param@.category, "patches-"@));
            assert(category@ =~= normalize_one(
                self.spec_view(),
                self.spec_softshell(),
                param@,
            )->0.category);
        }
        LayerParam { category, sku }
    }
}

impl LayerNormalizer {
    /// Apply the per-element transform to every parameter, drop the
    /// rejected ones, and stably sort the survivors by layer order.
    pub fn normalize_all(&self, params: &Vec<LayerParam>) -> (r: Vec<LayerParam>)
        ensures
            views_of_params(r@) == sort_by_rank(
                survivors(self.spec_view(), self.spec_softshell(), views_of_params(params@)),
            ),
    {
        let ghost vw = self.spec_view();
        let ghost sf = self.spec_softshell();
        let mut kept: Vec<LayerParam> = Vec::new();
        let mut i: usize = 0;
        proof {
            assert(views_of_params(params@.take(0)) =~= Seq::<LayerParamV>::empty());
        }
        while i < params.len()
            invariant
                i <= params@.len(),
                vw == self.spec_view(),
                sf == self.spec_softshell(),
                views_of_params(kept@) == survivors(vw, sf, views_of_params(params@.take(i as int))),
            decreases params@.len() - i,
        {
            let ghost prev = views_of_params(params@.take(i as int));
            let ghost cur = views_of_params(params@.take(i + 1));
            proof {
                assert(cur.drop_last() =~= prev);
                assert(cur.last() == params@[i as int]@);
            }
            match self.normalize(&params[i]) {
                Some(q) => {
                    kept.push(q);
                    proof {
                        assert(views_of_params(kept@) =~= survivors(vw, sf, cur));
                    }
                },
                None => {
                    proof {
                        assert(views_of_params(kept@) =~= survivors(vw, sf, cur));
                    }
                },
            }
            i += 1;
        }
        proof {
            assert(params@.take(params@.len() as int) =~= params@);
        }
        let ghost kv = views_of_params(kept@);
        let mut out: Vec<LayerParam> = Vec::new();
        let mut r: usize = 0;
        while r < 15
            invariant
                r <= 15,
                kv == views_of_params(kept@),
                views_of_params(out@) == buckets_upto(kv, r as int),
            decreases 15 - r,
        {
            let ghost pred = |p: LayerParamV| rank_code(p) == r as int;
            let mut j: usize = 0;
            proof {
                reveal(Seq::filter);
                assert(kv.take(0).filter(pred) =~= Seq::<LayerParamV>::empty());
            }
            while j < kept.len()
                invariant
                    j <= kept@.len(),
                    r < 15,
                    kv == views_of_params(kept@),
                    pred == (|p: LayerParamV| rank_code(p) == r as int),
                    views_of_params(out@) == buckets_upto(kv, r as int) + kv.take(
                        j as int,
                    ).filter(pred),
                decreases kept@.len() - j,
            {
                let ghost t = kv.take(j + 1);
                proof {
                    reveal(Seq::filter);
                    assert(t.drop_last() =~= kv.take(j as int));
                    assert(t.last() == kv[j as int]);
                }
                let code = rank_code_exec(&kept[j]);
                let ghost before = views_of_params(out@);
                if code == r {
                    out.push(kept[j].clone());
                    proof {
                        reveal(Seq::filter);
                        assert(t.filter(pred) == kv.take(j as int).filter(pred).push(kv[j as int]));
                        assert(views_of_params(out@) =~= before.push(kv[j as int]));
                        assert(views_of_params(out@) =~= buckets_upto(kv, r as int) + t.filter(
                            pred,
                        ));
                    }
                } else {
                    proof {
                        reveal(Seq::filter);
                        assert(t.filter(pred) == kv.take(j as int).filter(pred));
                        assert(views_of_params(out@) =~= buckets_upto(kv, r as int) + t.filter(
                            pred,
                        ));
                    }
                }
                j += 1;
            }
            proof {
                assert(kv.take(kv.len() as int) =~= kv);
                assert(views_of_params(out@) == buckets_upto(kv, r as int) + kv.filter(pred));
                assert(buckets_upto(kv, r as int) + kv.filter(pred) == buckets_upto(kv, r + 1));
            }
            r += 1;
        }
        out
    }
}

/// The sort key of one parameter as executable code.
fn rank_code_exec(p: &LayerParam) -> (r: usize)
    ensures
        r as int == rank_code(p@),
{
    match p.layer_order() {
        Some(o) => (o.rank() as usize) + 1,
        None => 0,
    }
}

/// The layer parameter denoted by one comma-separated token: the parts
/// around a single `/`, trimmed, the SKU normalized; a token without
/// exactly one `/` is dropped.
pub open spec fn parse_token(t: Seq<char>) -> Option<LayerParamV> {
    let parts = split_on(t, '/');
    if parts.len() == 2 {
        Some(LayerParamV { category: trim_seq(parts[0]), sku: normalize_sku(parts[1]) })
    } else {
        None
    }
}

/// The layer parameters denoted by a list of tokens, malformed ones
/// dropped.
pub open spec fn parse_tokens(ts: Seq<Seq<char>>) -> Seq<LayerParamV>
    decreases ts.len(),
{
    if ts.len() == 0 {
        Seq::empty()
    } else {
        let rest = parse_tokens(ts.drop_last());
        match parse_token(ts.last()) {
            Some(p) => rest.push(p),
            None => rest,
        }
    }
}

/// The layer parameters denoted by a raw comma-separated parameter string.
pub open spec fn parse_params_spec(s: Seq<char>) -> Seq<LayerParamV> {
    parse_tokens(split_on(s, ','))
}

/// Parse a comma-separated `"category/rawSku"` parameter string; malformed
/// tokens are dropped, not fatal.
pub fn parse_params(params_str: &str) -> (r: Vec<LayerParam>)
    ensures
        views_of_params(r@) == parse_params_spec(params_str@),
{
    let cs = str_chars(params_str);
    let tokens = split_chars(&cs, ',');
    let ghost tv = crate::text::views_of(tokens@);
    let mut out: Vec<LayerParam> = Vec::new();
    let mut i: usize = 0;
    proof {
        assert(parse_tokens(tv.take(0)) =~= Seq::<LayerParamV>::empty());
        assert(views_of_params(out@) =~= Seq::<LayerParamV>::empty());
    }
    while i < tokens.len()
        invariant
            i <= tokens@.len(),
            tv == crate::text::views_of(tokens@),
            views_of_params(out@) == parse_tokens(tv.take(i as int)),
        decreases tokens@.len() - i,
    {
        let ghost cur = tv.take(i + 1);
        proof {
            assert(cur.drop_last() =~= tv.take(i as int));
            assert(cur.last() == tokens@[i as int]@);
        }
        let parts = split_chars(&tokens[i], '/');
        if parts.len() == 2 {
            let trimmed = trim_chars(&parts[0]);
            let category = string_from_chars(&trimmed);
            let sku = Sku::from_chars(&parts[1]);
            proof {
                assert(parts@[0]@ == split_on(tokens@[i as int]@, '/')[0]);
                assert(parts@[1]@ == split_on(tokens@[i as int]@, '/')[1]);
            }
            out.push(LayerParam { category, sku });
            proof {
                assert(views_of_params(out@) =~= parse_tokens(cur));
            }
        } else {
            proof {
                assert(views_of_params(out@) =~= parse_tokens(cur));
            }
        }
        i += 1;
    }
    proof {
        assert(tv.take(tv.len() as int) =~= tv);
    }
    out
}

} // verus!
