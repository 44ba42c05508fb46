//! Data model: camera views, the fixed layer ordering, normalized SKUs and
//! layer parameters.

use vstd::prelude::*;
use vstd::view::View as VstdView;

use crate::text::{
    all_digits, all_digits_chars, chars_eq, copy_range, ends_with_pat, ends_with_seq, lower_char,
    lower_chars, lower_seq,
    rfind, rfind_char, split_chars, split_on, str_chars, str_eq, string_from_chars, trim_chars,
    trim_seq, views_of,
};

verus! {

/// Camera view under which a composite is rendered.
#[derive(Debug, Clone, Copy, PartialEq, Eq, Structural, Hash)]
pub enum View {
    Front,
    Back,
    Side,
    Left,
    Right,
}

/// The characters of a view's lowercase name.
pub open spec fn view_name(v: View) -> Seq<char> {
    match v {
        View::Front => "front"@,
        View::Back => "back"@,
        View::Side => "side"@,
        View::Left => "left"@,
        View::Right => "right"@,
    }
}

/// The characters of the base-plate identifier used for a view.
pub open spec fn plate_name(v: View) -> Seq<char> {
    match v {
        View::Left | View::Right => "patch-plate"@,
        View::Side => "side-special-plate"@,
        View::Front | View::Back => "swatthermals-black"@,
    }
}

impl View {
    /// The lowercase name of this view.
    pub fn as_str(&self) -> (r: &'static str)
        ensures
            r@ == view_name(*self),
    {
        match self {
            View::Front => "front",
            View::Back => "back",
            View::Side => "side",
            View::Left => "left",
            View::Right => "right",
        }
    }

    /// The base-plate identifier for this view.
    pub fn plate_value(&self) -> (r: &'static str)
        ensures
            r@ == plate_name(*self),
    {
        match self {
            View::Left | View::Right => "patch-plate",
            View::Side => "side-special-plate",
            View::Front | View::Back => "swatthermals-black",
        }
    }

    /// Patches are visible in every view except the back.
    pub fn allows_patches(&self) -> (r: bool)
        ensures
            r == (*self != View::Back),
    {
        !matches!(self, View::Back)
    }

    /// Only the front view composes every category.
    pub fn allows_full_composition(&self) -> (r: bool)
        ensures
            r == (*self == View::Front),
    {
        matches!(self, View::Front)
    }

    /// The allow-list of categories for this view, or `None` when every
    /// category is allowed.
    pub fn allowed_categories(&self) -> (r: Option<&'static [&'static str]>)
        ensures
            match r {
                Some(cats) => *self == View::Left || *self == View::Right,
                None => *self != View::Left && *self != View::Right,
            },
            (*self == View::Left || *self == View::Right) ==> {
                &&& r is Some
                &&& r->0@.len() == 4
                &&& r->0@[0]@ == "hoodies"@
                &&& r->0@[1]@ == "jackets"@
                &&& r->0@[2]@ == "patches-left"@
                &&& r->0@[3]@ == "patches-right"@
            },
    {
        match self {
            View::Left | View::Right => {
                Some(&["hoodies", "jackets", "patches-left", "patches-right"])
            },
            _ => None,
        }
    }
}

/// The view denoted by a token, compared case-insensitively (ASCII).
pub open spec fn view_of_name(s: Seq<char>) -> Option<View> {
    if lower_seq(s) == "front"@ {
        Some(View::Front)
    } else if lower_seq(s) == "back"@ {
        Some(View::Back)
    } else if lower_seq(s) == "side"@ {
        Some(View::Side)
    } else if lower_seq(s) == "left"@ {
        Some(View::Left)
    } else if lower_seq(s) == "right"@ {
        Some(View::Right)
    } else {
        None
    }
}

/// Parse a view token; anything but the five names (in any ASCII case) is
/// rejected.
pub fn parse_view(view_str: &str) -> (r: Option<View>)
    ensures
        r == view_of_name(view_str@),
{
    let cs = str_chars(view_str);
    let low = lower_chars(&cs);
    if chars_eq(&low, &str_chars("front")) {
        Some(View::Front)
    } else if chars_eq(&low, &str_chars("back")) {
        Some(View::Back)
    } else if chars_eq(&low, &str_chars("side")) {
        Some(View::Side)
    } else if chars_eq(&low, &str_chars("left")) {
        Some(View::Left)
    } else if chars_eq(&low, &str_chars("right")) {
        Some(View::Right)
    } else {
        None
    }
}

/// Stacking order of canonical categories, lowest drawn first.
#[derive(Debug, Clone, Copy, PartialEq, Eq, Structural, PartialOrd, Ord, Hash)]
pub enum LayerOrder {
    Pants,
    Tops,
    Hoodies,
    GlovesBottom,
    Jackets,
    GlovesTop,
    OuterJackets,
    Hats,
    Patches,
    PatchesLeft,
    PatchesRight,
    SoftshellPatches,
    SoftshellPatchesLeft,
    SoftshellPatchesRight,
}

/// The z-index of a layer order, lowest first.
pub open spec fn order_rank(o: LayerOrder) -> int {
    match o {
        LayerOrder::Pants => 0,
        LayerOrder::Tops => 1,
        LayerOrder::Hoodies => 2,
        LayerOrder::GlovesBottom => 3,
        LayerOrder::Jackets => 4,
        LayerOrder::GlovesTop => 5,
        LayerOrder::OuterJackets => 6,
        LayerOrder::Hats => 7,
        LayerOrder::Patches => 8,
        LayerOrder::PatchesLeft => 9,
        LayerOrder::PatchesRight => 10,
        LayerOrder::SoftshellPatches => 11,
        LayerOrder::SoftshellPatchesLeft => 12,
        LayerOrder::SoftshellPatchesRight => 13,
    }
}

/// The canonical name of a layer order's category.
pub open spec fn order_name(o: LayerOrder) -> Seq<char> {
    match o {
        LayerOrder::Pants => "pants"@,
        LayerOrder::Tops => "tops"@,
        LayerOrder::Hoodies => "hoodies"@,
        LayerOrder::GlovesBottom => "gloves-bottom"@,
        LayerOrder::Jackets => "jackets"@,
        LayerOrder::GlovesTop => "gloves-top"@,
        LayerOrder::OuterJackets => "outer-jackets"@,
        LayerOrder::Hats => "hats"@,
        LayerOrder::Patches => "patches"@,
        LayerOrder::PatchesLeft => "patches-left"@,
        LayerOrder::PatchesRight => "patches-right"@,
        LayerOrder::SoftshellPatches => "softshell-patches"@,
        LayerOrder::SoftshellPatchesLeft => "softshell-patches-left"@,
        LayerOrder::SoftshellPatchesRight => "softshell-patches-right"@,
    }
}

/// The layer order of a category name, or `None` for a category outside the
/// fixed ranking.
pub open spec fn order_of_category(c: Seq<char>) -> Option<LayerOrder> {
    if c == "pants"@ {
        Some(LayerOrder::Pants)
    } else if c == "tops"@ {
        Some(LayerOrder::Tops)
    } else if c == "hoodies"@ {
        Some(LayerOrder::Hoodies)
    } else if c == "gloves-bottom"@ {
        Some(LayerOrder::GlovesBottom)
    } else if c == "jackets"@ {
        Some(LayerOrder::Jackets)
    } else if c == "gloves-top"@ {
        Some(LayerOrder::GlovesTop)
    } else if c == "outer-jackets"@ {
        Some(LayerOrder::OuterJackets)
    } else if c == "hats"@ {
        Some(LayerOrder::Hats)
    } else if c == "patches"@ {
        Some(LayerOrder::Patches)
    } else if c == "patches-left"@ {
        Some(LayerOrder::PatchesLeft)
    } else if c == "patches-right"@ {
        Some(LayerOrder::PatchesRight)
    } else if c == "softshell-patches"@ {
        Some(LayerOrder::SoftshellPatches)
    } else if c == "softshell-patches-left"@ {
        Some(LayerOrder::SoftshellPatchesLeft)
    } else if c == "softshell-patches-right"@ {
        Some(LayerOrder::SoftshellPatchesRight)
    } else {
        None
    }
}

impl LayerOrder {
    /// The layer order assigned to a category name, if any.
    pub fn from_category(category: &str) -> (r: Option<LayerOrder>)
        ensures
            r == order_of_category(category@),
    {
        if str_eq(category, "pants") {
            Some(LayerOrder::Pants)
        } else if str_eq(category, "tops") {
            Some(LayerOrder::Tops)
        } else if str_eq(category, "hoodies") {
            Some(LayerOrder::Hoodies)
        } else if str_eq(category, "gloves-bottom") {
            Some(LayerOrder::GlovesBottom)
        } else if str_eq(category, "jackets") {
            Some(LayerOrder::Jackets)
        } else if str_eq(category, "gloves-top") {
            Some(LayerOrder::GlovesTop)
        } else if str_eq(category, "outer-jackets") {
            Some(LayerOrder::OuterJackets)
        } else if str_eq(category, "hats") {
            Some(LayerOrder::Hats)
        } else if str_eq(category, "patches") {
            Some(LayerOrder::Patches)
        } else if str_eq(category, "patches-left") {
            Some(LayerOrder::PatchesLeft)
        } else if str_eq(category, "patches-right") {
            Some(LayerOrder::PatchesRight)
        } else if str_eq(category, "softshell-patches") {
            Some(LayerOrder::SoftshellPatches)
        } else if str_eq(category, "softshell-patches-left") {
            Some(LayerOrder::SoftshellPatchesLeft)
        } else if str_eq(category, "softshell-patches-right") {
            Some(LayerOrder::SoftshellPatchesRight)
        } else {
            None
        }
    }

    /// The canonical name of this layer order's category.
    pub fn as_str(&self) -> (r: &'static str)
        ensures
            r@ == order_name(*self),
    {
        match self {
            LayerOrder::Pants => "pants",
            LayerOrder::Tops => "tops",
            LayerOrder::Hoodies => "hoodies",
            LayerOrder::GlovesBottom => "gloves-bottom",
            LayerOrder::Jackets => "jackets",
            LayerOrder::GlovesTop => "gloves-top",
            LayerOrder::OuterJackets => "outer-jackets",
            LayerOrder::Hats => "hats",
            LayerOrder::Patches => "patches",
            LayerOrder::PatchesLeft => "patches-left",
            LayerOrder::PatchesRight => "patches-right",
            LayerOrder::SoftshellPatches => "softshell-patches",
            LayerOrder::SoftshellPatchesLeft => "softshell-patches-left",
            LayerOrder::SoftshellPatchesRight => "softshell-patches-right",
        }
    }

    /// The z-index of this layer order.
    pub fn rank(&self) -> (r: u8)
        ensures
            r as int == order_rank(*self),
    {
        match self {
            LayerOrder::Pants => 0,
            LayerOrder::Tops => 1,
            LayerOrder::Hoodies => 2,
            LayerOrder::GlovesBottom => 3,
            LayerOrder::Jackets => 4,
            LayerOrder::GlovesTop => 5,
            LayerOrder::OuterJackets => 6,
            LayerOrder::Hats => 7,
            LayerOrder::Patches => 8,
            LayerOrder::PatchesLeft => 9,
            LayerOrder::PatchesRight => 10,
            LayerOrder::SoftshellPatches => 11,
            LayerOrder::SoftshellPatchesLeft => 12,
            LayerOrder::SoftshellPatchesRight => 13,
        }
    }
}

/// The eleven size suffixes stripped from a raw SKU, in the order they are
/// tried; the first that matches wins.
pub open spec fn size_suffixes() -> Seq<Seq<char>> {
    seq![
        seq!['-', 'x', 's'],
        seq!['-', 's'],
        seq!['-', 'm'],
        seq!['-', 'l'],
        seq!['-', 'x', 'l'],
        seq!['-', 'x', 'x', 'l'],
        seq!['-', '2', 'x', 'l'],
        seq!['-', '3', 'x', 'l'],
        seq!['-', '4', 'x', 'l'],
        seq!['-', '5', 'x', 'l'],
        seq!['-', 'l', 'x', 'l'],
    ]
}

/// Drop from `s` the first pattern of `pats`, in order, that `s` ends with.
pub open spec fn strip_first_matching(s: Seq<char>, pats: Seq<Seq<char>>) -> Seq<char>
    decreases pats.len(),
{
    if pats.len() == 0 {
        s
    } else if ends_with_seq(s, pats[0]) {
        s.take(s.len() - pats[0].len())
    } else {
        strip_first_matching(s, pats.drop_first())
    }
}

/// Drop a trailing letter size suffix, if any.
pub open spec fn strip_letter_suffix(s: Seq<char>) -> Seq<char> {
    strip_first_matching(s, size_suffixes())
}

/// Drop a final `-`-delimited segment made of digits alone, if any.
pub open spec fn strip_numeric_suffix(s: Seq<char>) -> Seq<char> {
    match rfind(s, '-') {
        Some(i) => if all_digits(s.skip(i + 1)) {
            s.take(i)
        } else {
            s
        },
        None => s,
    }
}

/// The normalized form of a raw SKU: trimmed of ASCII whitespace,
/// ASCII-lowercased (characters outside ASCII are kept as they are), then
/// one letter size suffix and one trailing numeric segment dropped, in
/// that order.
pub open spec fn normalize_sku(raw: Seq<char>) -> Seq<char> {
    strip_numeric_suffix(strip_letter_suffix(lower_seq(trim_seq(raw))))
}

/// A found position of `rfind` is in range and holds `c`.
pub proof fn lemma_rfind_bounds(s: Seq<char>, c: char)
    ensures
        match rfind(s, c) {
            Some(i) => 0 <= i < s.len() && s[i] == c,
            None => true,
        },
    decreases s.len(),
{
    if s.len() > 0 && s.last() != c {
        lemma_rfind_bounds(s.drop_last(), c);
    }
}

/// The exec counterpart of `size_suffixes`.
fn size_suffix_pats() -> (r: Vec<Vec<char>>)
    ensures
        views_of(r@) == size_suffixes(),
{
    let mut r: Vec<Vec<char>> = Vec::new();
    r.push(vec!['-', 'x', 's']);
    r.push(vec!['-', 's']);
    r.push(vec!['-', 'm']);
    r.push(vec!['-', 'l']);
    r.push(vec!['-', 'x', 'l']);
    r.push(vec!['-', 'x', 'x', 'l']);
    r.push(vec!['-', '2', 'x', 'l']);
    r.push(vec!['-', '3', 'x', 'l']);
    r.push(vec!['-', '4', 'x', 'l']);
    r.push(vec!['-', '5', 'x', 'l']);
    r.push(vec!['-', 'l', 'x', 'l']);
    proof {
        assert(views_of(r@) =~~= size_suffixes());
    }
    r
}

fn strip_letter(v: &Vec<char>) -> (r: Vec<char>)
    ensures
        r@ == strip_letter_suffix(v@),
{
    let pats = size_suffix_pats();
    let n = pats.len();
    let mut i: usize = 0;
    proof {
        assert(size_suffixes().skip(0) =~= size_suffixes());
    }
    while i < n
        invariant
            i <= n,
            n == size_suffixes().len(),
            views_of(pats@) == size_suffixes(),
            strip_letter_suffix(v@) == strip_first_matching(v@, size_suffixes().skip(i as int)),
        decreases n - i,
    {
        proof {
            assert(pats@[i as int]@ == size_suffixes().skip(i as int)[0]);
        }
        if ends_with_pat(v, &pats[i]) {
            let plen = pats[i].len();
            let r = copy_range(v, 0, v.len() - plen);
            proof {
                assert(r@ =~= v@.take(v@.len() - pats@[i as int]@.len()));
            }
            return r;
        }
        proof {
            assert(size_suffixes().skip(i as int).drop_first() =~= size_suffixes().skip(
                i as int + 1,
            ));
        }
        i += 1;
    }
    let r = copy_range(v, 0, v.len());
    proof {
        assert(r@ =~= v@);
    }
    r
}

fn strip_numeric(v: &Vec<char>) -> (r: Vec<char>)
    ensures
        r@ == strip_numeric_suffix(v@),
{
    match rfind_char(v, '-') {
        Some(i) => {
            proof {
                lemma_rfind_bounds(v@, '-');
            }
            let n = v.len();
            let suffix = copy_range(v, i + 1, n);
            proof {
                assert(suffix@ =~= v@.skip(i + 1));
            }
            if all_digits_chars(&suffix) {
                let r = copy_range(v, 0, i);
                proof {
                    assert(r@ =~= v@.take(i as int));
                }
                r
            } else {
                let r = copy_range(v, 0, v.len());
                proof {
                    assert(r@ =~= v@);
                }
                r
            }
        },
        None => {
            let r = copy_range(v, 0, v.len());
            proof {
                assert(r@ =~= v@);
            }
            r
        },
    }
}

/// Normalize a raw SKU given as characters.
fn normalize_chars(raw: &Vec<char>) -> (r: Vec<char>)
    ensures
        r@ == normalize_sku(raw@),
{
    let t = trim_chars(raw);
    let low = lower_chars(&t);
    let l = strip_letter(&low);
    strip_numeric(&l)
}

proof fn lemma_lower_seq_idempotent(s: Seq<char>)
    ensures
        lower_seq(lower_seq(s)) == lower_seq(s),
{
    assert forall|c: char| #[trigger] lower_char(lower_char(c)) == lower_char(c) by {}
    assert(lower_seq(lower_seq(s)) =~= lower_seq(s));
}

proof fn lemma_trim_front_lower(s: Seq<char>)
    ensures
        crate::text::trim_front(lower_seq(s)) == lower_seq(crate::text::trim_front(s)),
    decreases s.len(),
{
    assert forall|c: char| crate::text::is_space(#[trigger] lower_char(c)) == crate::text::is_space(
        c,
    ) by {}
    if s.len() == 0 {
        assert(lower_seq(s) =~= Seq::<char>::empty());
    } else {
        assert(lower_seq(s)[0] == lower_char(s[0]));
        if crate::text::is_space(s[0]) {
            lemma_trim_front_lower(s.drop_first());
            assert(lower_seq(s).drop_first() =~= lower_seq(s.drop_first()));
        }
    }
}

proof fn lemma_trim_back_lower(s: Seq<char>)
    ensures
        crate::text::trim_back(lower_seq(s)) == lower_seq(crate::text::trim_back(s)),
    decreases s.len(),
{
    assert forall|c: char| crate::text::is_space(#[trigger] lower_char(c)) == crate::text::is_space(
        c,
    ) by {}
    if s.len() == 0 {
        assert(lower_seq(s) =~= Seq::<char>::empty());
    } else {
        assert(lower_seq(s).last() == lower_char(s.last()));
        if crate::text::is_space(s.last()) {
            lemma_trim_back_lower(s.drop_last());
            assert(lower_seq(s).drop_last() =~= lower_seq(s.drop_last()));
        }
    }
}

/// Law (case-insensitivity): normalizing a raw SKU and normalizing its
/// case-folded form give the same normalized SKU, for every input.
pub proof fn lemma_normalize_case_insensitive(raw: Seq<char>)
    ensures
        normalize_sku(lower_seq(raw)) == normalize_sku(raw),
{
    lemma_trim_front_lower(raw);
    lemma_trim_back_lower(crate::text::trim_front(raw));
    assert(trim_seq(lower_seq(raw)) == lower_seq(trim_seq(raw)));
    lemma_lower_seq_idempotent(trim_seq(raw));
}

/// What a string looks like when normalization has nothing left to do: no
/// surrounding whitespace, no uppercase ASCII letters, no trailing letter
/// size suffix, and no all-digit final segment.
pub open spec fn fully_normalized(s: Seq<char>) -> bool {
    &&& trim_seq(s) == s
    &&& lower_seq(s) == s
    &&& strip_letter_suffix(s) == s
    &&& strip_numeric_suffix(s) == s
}

/// A string with nothing left to strip is its own normalized form.
pub proof fn lemma_normalize_fixed_point(s: Seq<char>)
    requires
        fully_normalized(s),
    ensures
        normalize_sku(s) == s,
{
}

/// Law (idempotence): wherever one pass leaves a string with nothing left
/// to strip, a second pass changes nothing. (Stripping one suffix can
/// expose another—only one trailing letter suffix and one trailing numeric
/// segment are removed per pass—so the premise rules exactly those inputs
/// out.)
pub proof fn lemma_normalize_idempotent(raw: Seq<char>)
    requires
        fully_normalized(normalize_sku(raw)),
    ensures
        normalize_sku(normalize_sku(raw)) == normalize_sku(raw),
{
    lemma_normalize_fixed_point(normalize_sku(raw));
}

/// A normalized SKU: lowercase, with one trailing size token removed.
/// Equality and hashing see only the normalized string, so raw SKUs that
/// differ only in size collapse to one identity.
#[derive(Debug, Eq, Hash)]
pub struct Sku {
    s: String,
}

impl VstdView for Sku {
    type V = Seq<char>;

    closed spec fn view(&self) -> Seq<char> {
        self.s@
    }
}

impl Sku {
    /// Normalize a raw SKU string.
    pub fn new(raw: &str) -> (sku: Sku)
        ensures
            sku@ == normalize_sku(raw@),
    {
        let cs = str_chars(raw);
        let n = normalize_chars(&cs);
        Sku { s: string_from_chars(&n) }
    }

    /// Build a normalized SKU from raw characters.
    pub(crate) fn from_chars(raw: &Vec<char>) -> (sku: Sku)
        ensures
            sku@ == normalize_sku(raw@),
    {
        let n = normalize_chars(raw);
        Sku { s: string_from_chars(&n) }
    }

    /// The normalized string.
    pub fn as_str(&self) -> (r: &str)
        ensures
            r@ == self@,
    {
        self.s.as_str()
    }
}

impl Clone for Sku {
    fn clone(&self) -> (r: Self)
        ensures
            r == *self,
    {
        Sku { s: self.s.clone() }
    }
}

impl PartialEq for Sku {
    fn eq(&self, other: &Sku) -> (r: bool) {
        self.s == other.s
    }
}

impl vstd::std_specs::cmp::PartialEqSpecImpl for Sku {
    open spec fn obeys_eq_spec() -> bool {
        true
    }

    open spec fn eq_spec(&self, other: &Sku) -> bool {
        self@ == other@
    }
}

/// The mathematical content of a layer parameter: a category name and a
/// normalized SKU, both as character sequences.
pub struct LayerParamV {
    pub category: Seq<char>,
    pub sku: Seq<char>,
}

/// One garment layer to stack: a category and a normalized SKU.
#[derive(Debug)]
pub struct LayerParam {
    pub category: String,
    pub sku: Sku,
}

impl VstdView for LayerParam {
    type V = LayerParamV;

    open spec fn view(&self) -> LayerParamV {
        LayerParamV { category: self.category@, sku: self.sku@ }
    }
}

/// The layer parameter denoted by a `"category/rawSku"` token, if the token
/// holds exactly one `/`.
pub open spec fn parse_pair(t: Seq<char>) -> Option<LayerParamV> {
    let parts = split_on(t, '/');
    if parts.len() == 2 {
        Some(LayerParamV { category: parts[0], sku: normalize_sku(parts[1]) })
    } else {
        None
    }
}

impl LayerParam {
    /// Pair a category with a normalized SKU.
    pub fn new(category: &str, sku: Sku) -> (r: LayerParam)
        ensures
            r@.category == category@,
            r@.sku == sku@,
    {
        let mut c = String::new();
        c.append(category);
        proof {
            assert(c@ =~= category@);
        }
        LayerParam { category: c, sku }
    }

    /// Parse a `"category/rawSku"` token; a token without exactly one `/` is
    /// rejected.
    pub fn parse(param: &str) -> (r: Option<LayerParam>)
        ensures
            match r {
                Some(p) => parse_pair(param@) == Some(p@),
                None => parse_pair(param@) is None,
            },
    {
        let cs = str_chars(param);
        let parts = split_chars(&cs, '/');
        if parts.len() == 2 {
            let category = string_from_chars(&parts[0]);
            let sku = Sku::from_chars(&parts[1]);
            proof {
                assert(parts@[0]@ == split_on(param@, '/')[0]);
                assert(parts@[1]@ == split_on(param@, '/')[1]);
            }
            Some(LayerParam { category, sku })
        } else {
            None
        }
    }

    /// The layer order of this parameter's category, if any.
    pub fn layer_order(&self) -> (r: Option<LayerOrder>)
        ensures
            r == order_of_category(self@.category),
    {
        LayerOrder::from_category(self.category.as_str())
    }

    /// This parameter as a `"category/sku"` token.
    pub fn to_string(&self) -> (r: String)
        ensures
            r@ == self@.category + "/"@ + self@.sku,
    {
        let mut out = String::new();
        out.append(self.category.as_str());
        out.append("/");
        out.append(self.sku.as_str());
        out
    }
}

impl Clone for LayerParam {
    fn clone(&self) -> (r: Self)
        ensures
            r == *self,
    {
        LayerParam { category: self.category.clone(), sku: self.sku.clone() }
    }
}

impl PartialEq for LayerParam {
    fn eq(&self, other: &LayerParam) -> (r: bool) {
        self.category == other.category && self.sku == other.sku
    }
}

impl vstd::std_specs::cmp::PartialEqSpecImpl for LayerParam {
    open spec fn obeys_eq_spec() -> bool {
        true
    }

    open spec fn eq_spec(&self, other: &LayerParam) -> bool {
        self@.category == other@.category && self@.sku == other@.sku
    }
}

} // verus!
