//! Deterministic cache-key derivation: canonical token order, the combined
//! string, and its 64-bit digest rendered as lowercase hex.

use vstd::prelude::*;
use vstd::relations::{sorted_by, total_ordering};
use vstd::seq_lib::lemma_sorted_unique;
use vstd::string::StringSliceAdditionalSpecFns;
use vstd::view::View as VstdView;

use crate::layers::views_of_params;
use crate::models::{plate_name, view_name, LayerParam, LayerParamV, View};
use crate::text::{str_chars, string_from_chars, views_of};

verus! {

/// Code-point order on character sequences, `a` before or equal to `b`.
pub open spec fn lex_leq(a: Seq<char>, b: Seq<char>) -> bool
    decreases a.len(),
{
    if a.len() == 0 {
        true
    } else if b.len() == 0 {
        false
    } else if (a[0] as u32) < (b[0] as u32) {
        true
    } else if (a[0] as u32) > (b[0] as u32) {
        false
    } else {
        lex_leq(a.drop_first(), b.drop_first())
    }
}

/// The order as a function value, for `sort_by`.
pub open spec fn lex_leq_fn() -> spec_fn(Seq<char>, Seq<char>) -> bool {
    |a: Seq<char>, b: Seq<char>| lex_leq(a, b)
}

pub proof fn lemma_lex_refl(a: Seq<char>)
    ensures
        lex_leq(a, a),
    decreases a.len(),
{
    if a.len() > 0 {
        lemma_lex_refl(a.drop_first());
    }
}

pub proof fn lemma_lex_total(a: Seq<char>, b: Seq<char>)
    ensures
        lex_leq(a, b) || lex_leq(b, a),
    decreases a.len(),
{
    if a.len() > 0 && b.len() > 0 && (a[0] as u32) == (b[0] as u32) {
        lemma_lex_total(a.drop_first(), b.drop_first());
    }
}

pub proof fn lemma_lex_antisym(a: Seq<char>, b: Seq<char>)
    requires
        lex_leq(a, b),
        lex_leq(b, a),
    ensures
        a == b,
    decreases a.len(),
{
    if a.len() == 0 {
        assert(b.len() == 0);
        assert(a =~= b);
    } else {
        assert(b.len() > 0);
        lemma_lex_antisym(a.drop_first(), b.drop_first());
        let x: char = a[0];
        let y: char = b[0];
        assert(x as u32 == y as u32);
        let u = x as u32;
        vstd::utf8::char_u32_cast(x, u);
        vstd::utf8::char_u32_cast(y, u);
        assert(x == y);
        assert(a =~= seq![a[0]] + a.drop_first());
        assert(b =~= seq![b[0]] + b.drop_first());
    }
}

pub proof fn lemma_lex_trans(a: Seq<char>, b: Seq<char>, c: Seq<char>)
    requires
        lex_leq(a, b),
        lex_leq(b, c),
    ensures
        lex_leq(a, c),
    decreases a.len(),
{
    if a.len() > 0 && b.len() > 0 && c.len() > 0 && (a[0] as u32) == (b[0] as u32) && (b[0] as u32)
        == (c[0] as u32) {
        lemma_lex_trans(a.drop_first(), b.drop_first(), c.drop_first());
    }
}

/// Code-point order on character sequences is a total order.
pub proof fn lemma_lex_total_ordering()
    ensures
        total_ordering(lex_leq_fn()),
{
    let leq = lex_leq_fn();
    assert forall|a: Seq<char>| #[trigger] leq(a, a) by {
        lemma_lex_refl(a);
    }
    assert forall|a: Seq<char>, b: Seq<char>| #[trigger] leq(a, b) && #[trigger] leq(b, a)
        implies a == b by {
        lemma_lex_antisym(a, b);
    }
    assert forall|a: Seq<char>, b: Seq<char>, c: Seq<char>|
        #[trigger] leq(a, b) && #[trigger] leq(b, c) implies leq(a, c) by {
        lemma_lex_trans(a, b, c);
    }
    assert forall|a: Seq<char>, b: Seq<char>| true implies #[trigger] leq(a, b) || #[trigger] leq(
        b,
        a,
    ) by {
        lemma_lex_total(a, b);
    }
}

/// The order is unchanged by dropping a common prefix.
proof fn lemma_lex_common_prefix(a: Seq<char>, b: Seq<char>, i: int)
    requires
        0 <= i <= a.len(),
        i <= b.len(),
        forall|j: int| 0 <= j < i ==> a[j] == b[j],
    ensures
        lex_leq(a, b) == lex_leq(a.skip(i), b.skip(i)),
    decreases i,
{
    if i > 0 {
        assert(a.len() > 0 && b.len() > 0);
        assert(a[0] == b[0]);
        lemma_lex_common_prefix(a.drop_first(), b.drop_first(), i - 1);
        assert(a.drop_first().skip(i - 1) =~= a.skip(i));
        assert(b.drop_first().skip(i - 1) =~= b.skip(i));
        assert(forall|j: int| 0 <= j < i - 1 ==> a.drop_first()[j] == b.drop_first()[j]);
    } else {
        assert(a.skip(0) =~= a);
        assert(b.skip(0) =~= b);
    }
}

/// Executable code-point comparison of two character vectors.
pub fn lex_le(a: &Vec<char>, b: &Vec<char>) -> (r: bool)
    ensures
        r == lex_leq(a@, b@),
{
    let na = a.len();
    let nb = b.len();
    let mut i: usize = 0;
    while i < na && i < nb
        invariant
            i <= na,
            i <= nb,
            na == a@.len(),
            nb == b@.len(),
            forall|j: int| 0 <= j < i ==> a@[j] == b@[j],
        decreases na - i,
    {
        let xa = a[i];
        let xb = b[i];
        let ca = xa as u32;
        let cb = xb as u32;
        if ca < cb {
            proof {
                lemma_lex_common_prefix(a@, b@, i as int);
                assert(a@.skip(i as int)[0] == a@[i as int]);
                assert(b@.skip(i as int)[0] == b@[i as int]);
            }
            return true;
        }
        if ca > cb {
            proof {
                lemma_lex_common_prefix(a@, b@, i as int);
                assert(a@.skip(i as int)[0] == a@[i as int]);
                assert(b@.skip(i as int)[0] == b@[i as int]);
            }
            return false;
        }
        proof {
            vstd::utf8::char_u32_cast(xa, ca);
            vstd::utf8::char_u32_cast(xb, ca);
            assert(xa == xb);
        }
        i += 1;
    }
    proof {
        lemma_lex_common_prefix(a@, b@, i as int);
    }
    i == na
}

/// A sequence's multiset is unchanged by where an element is inserted.
proof fn lemma_insert_to_multiset(s: Seq<Seq<char>>, i: int, x: Seq<char>)
    requires
        0 <= i <= s.len(),
    ensures
        s.insert(i, x).to_multiset() == s.to_multiset().insert(x),
{
    broadcast use vstd::seq_lib::group_to_multiset_ensures;

    let t = s.insert(i, x);
    assert(t.remove(i) =~= s);
    assert(t[i] == x);
    assert(t.remove(i).to_multiset() =~= t.to_multiset().remove(x));
    assert(t.to_multiset().count(x) > 0) by {
        assert(t.contains(x));
    }
    assert(t.to_multiset() =~= s.to_multiset().insert(x));
}

/// Sort character vectors into code-point order; the result is the
/// canonical `sort_by` of the input views.
fn sort_tokens(tokens: &Vec<Vec<char>>) -> (r: Vec<Vec<char>>)
    ensures
        views_of(r@) == views_of(tokens@).sort_by(lex_leq_fn()),
{
    broadcast use vstd::seq_lib::group_to_multiset_ensures;

    let ghost leq = lex_leq_fn();
    let mut out: Vec<Vec<char>> = Vec::new();
    let mut i: usize = 0;
    proof {
        assert(views_of(out@).to_multiset() =~= views_of(tokens@).take(0).to_multiset());
    }
    while i < tokens.len()
        invariant
            i <= tokens@.len(),
            leq == lex_leq_fn(),
            sorted_by(views_of(out@), leq),
            views_of(out@).to_multiset() == views_of(tokens@).take(i as int).to_multiset(),
        decreases tokens@.len() - i,
    {
        let x = crate::text::copy_range(&tokens[i], 0, tokens[i].len());
        proof {
            assert(x@ =~= tokens@[i as int]@);
        }
        let mut pos: usize = 0;
        while pos < out.len() && lex_le(&out[pos], &x)
            invariant
                pos <= out@.len(),
                leq == lex_leq_fn(),
                x@ == tokens@[i as int]@,
                sorted_by(views_of(out@), leq),
                forall|k: int| 0 <= k < pos ==> leq(views_of(out@)[k], x@),
            decreases out@.len() - pos,
        {
            pos += 1;
        }
        let ghost before = views_of(out@);
        out.insert(pos, x);
        proof {
            assert(views_of(out@) =~= before.insert(pos as int, x@));
            lemma_insert_to_multiset(before, pos as int, x@);
            let cur = views_of(tokens@).take(i + 1);
            assert(cur.drop_last() =~= views_of(tokens@).take(i as int));
            assert(cur.last() == x@);
            assert(cur =~= cur.drop_last().push(x@));
            cur.drop_last().to_multiset_ensures();
            assert(cur.drop_last().push(x@).to_multiset() =~= cur.drop_last().to_multiset().insert(
                x@,
            ));
            assert(cur.to_multiset() == cur.drop_last().to_multiset().insert(x@));
            let after = views_of(out@);
            assert forall|m: int, n: int| 0 <= m < n < after.len() implies #[trigger] leq(
                after[m],
                after[n],
            ) by {
                if n < pos {
                    assert(before[m] == after[m] && before[n] == after[n]);
                } else if m < pos && n == pos {
                    assert(after[m] == before[m]);
                    assert(after[n] == x@);
                } else if m < pos && n > pos {
                    assert(after[m] == before[m] && after[n] == before[n - 1]);
                    assert(leq(before[m], before[n - 1]));
                } else if m == pos {
                    assert(after[m] == x@);
                    assert(after[n] == before[n - 1]);
                    if pos < before.len() {
                        assert(!leq(before[pos as int], x@));
                        lemma_lex_total(before[pos as int], x@);
                        assert(leq(x@, before[pos as int]));
                        if n - 1 > pos {
                            assert(leq(before[pos as int], before[n - 1]));
                            lemma_lex_trans(x@, before[pos as int], before[n - 1]);
                        }
                    }
                } else {
                    assert(after[m] == before[m - 1] && after[n] == before[n - 1]);
                    assert(leq(before[m - 1], before[n - 1]));
                }
            }
        }
        i += 1;
    }
    proof {
        assert(views_of(tokens@).take(tokens@.len() as int) =~= views_of(tokens@));
        let s = views_of(tokens@);
        lemma_lex_total_ordering();
        s.lemma_sort_by_ensures(leq);
        lemma_sorted_unique(views_of(out@), s.sort_by(leq), leq);
    }
    out
}

/// The `"category/sku"` token of one parameter.
pub open spec fn token_of(p: LayerParamV) -> Seq<char> {
    p.category + "/"@ + p.sku
}

/// The tokens of a parameter list, in input order.
pub open spec fn tokens_of(ps: Seq<LayerParamV>) -> Seq<Seq<char>> {
    ps.map_values(|p: LayerParamV| token_of(p))
}

/// The pieces joined with `_` between them.
pub open spec fn join_underscore(ts: Seq<Seq<char>>) -> Seq<char>
    decreases ts.len(),
{
    if ts.len() == 0 {
        Seq::empty()
    } else if ts.len() == 1 {
        ts[0]
    } else {
        join_underscore(ts.drop_last()) + seq!['_'] + ts.last()
    }
}

/// The combined string that is hashed: the tokens in code-point order
/// joined with `_`, then the view name and the plate identifier, each after
/// one more `_`.
pub open spec fn combined_of(ps: Seq<LayerParamV>, view: View, plate: Seq<char>) -> Seq<char> {
    join_underscore(tokens_of(ps).sort_by(lex_leq_fn())) + seq!['_'] + view_name(view) + seq!['_']
        + plate
}

/// The 64-bit digest that `xxhash_rust::xxh64::xxh64` computes for the
/// given bytes and seed.
pub uninterp spec fn xxh64_spec(data: Seq<u8>, seed: u64) -> u64;

/// The lowercase hex digit for a value below sixteen.
pub open spec fn hex_digit(d: int) -> char {
    if d == 0 {
        '0'
    } else if d == 1 {
        '1'
    } else if d == 2 {
        '2'
    } else if d == 3 {
        '3'
    } else if d == 4 {
        '4'
    } else if d == 5 {
        '5'
    } else if d == 6 {
        '6'
    } else if d == 7 {
        '7'
    } else if d == 8 {
        '8'
    } else if d == 9 {
        '9'
    } else if d == 10 {
        'a'
    } else if d == 11 {
        'b'
    } else if d == 12 {
        'c'
    } else if d == 13 {
        'd'
    } else if d == 14 {
        'e'
    } else {
        'f'
    }
}

/// The lowercase hex rendering of a number, most significant digit first,
/// without leading zeros (zero itself is `0`).
pub open spec fn hex_of(n: int) -> Seq<char>
    decreases n,
    when n >= 0
{
    if n < 16 {
        seq![hex_digit(n)]
    } else {
        hex_of(n / 16).push(hex_digit(n % 16))
    }
}

/// The cache key of a parameter list, view and plate: the digest of the
/// combined string's UTF-8 bytes with seed zero, in lowercase hex.
pub open spec fn cache_key_spec(ps: Seq<LayerParamV>, view: View, plate: Seq<char>) -> Seq<char> {
    hex_of(xxh64_spec(vstd::utf8::encode_utf8(combined_of(ps, view, plate)), 0) as int)
}

/// Append all of `src` to `dst`.
fn push_all(dst: &mut Vec<char>, src: &Vec<char>)
    ensures
        final(dst)@ == old(dst)@ + src@,
{
    let ghost start = dst@;
    let mut i: usize = 0;
    while i < src.len()
        invariant
            i <= src@.len(),
            dst@.len() == start.len() + i,
            dst@ == start + src@.take(i as int),
        decreases src@.len() - i,
    {
        dst.push(src[i]);
        proof {
            assert(dst@ =~= start + src@.take(i + 1));
        }
        i += 1;
    }
    proof {
        assert(src@.take(src@.len() as int) =~= src@);
    }
}

fn join_tokens(tokens: &Vec<Vec<char>>) -> (r: Vec<char>)
    ensures
        r@ == join_underscore(views_of(tokens@)),
{
    let ghost tv = views_of(tokens@);
    let mut r: Vec<char> = Vec::new();
    let mut i: usize = 0;
    proof {
        assert(tv.take(0) =~= Seq::<Seq<char>>::empty());
        assert(r@ =~= join_underscore(tv.take(0)));
    }
    while i < tokens.len()
        invariant
            i <= tokens@.len(),
            tv == views_of(tokens@),
            r@ == join_underscore(tv.take(i as int)),
        decreases tokens@.len() - i,
    {
        let ghost before = r@;
        if i > 0 {
            r.push('_');
        }
        push_all(&mut r, &tokens[i]);
        proof {
            let cur = tv.take(i + 1);
            assert(cur.last() == tokens@[i as int]@);
            if i == 0 {
                assert(cur.len() == 1);
                assert(r@ =~= cur[0]);
            } else {
                assert(cur.drop_last() =~= tv.take(i as int));
                assert(r@ =~= join_underscore(cur.drop_last()) + seq!['_'] + cur.last());
            }
        }
        i += 1;
    }
    proof {
        assert(tv.take(tv.len() as int) =~= tv);
    }
    r
}

fn hex_digit_exec(d: u64) -> (r: char)
    requires
        d < 16,
    ensures
        r == hex_digit(d as int),
{
    if d == 0 {
        '0'
    } else if d == 1 {
        '1'
    } else if d == 2 {
        '2'
    } else if d == 3 {
        '3'
    } else if d == 4 {
        '4'
    } else if d == 5 {
        '5'
    } else if d == 6 {
        '6'
    } else if d == 7 {
        '7'
    } else if d == 8 {
        '8'
    } else if d == 9 {
        '9'
    } else if d == 10 {
        'a'
    } else if d == 11 {
        'b'
    } else if d == 12 {
        'c'
    } else if d == 13 {
        'd'
    } else if d == 14 {
        'e'
    } else {
        'f'
    }
}

fn hex_chars(n: u64) -> (r: Vec<char>)
    ensures
        r@ == hex_of(n as int),
    decreases n,
{
    if n < 16 {
        let mut v: Vec<char> = Vec::new();
        v.push(hex_digit_exec(n));
        proof {
            assert(v@ =~= seq![hex_digit(n as int)]);
        }
        v
    } else {
        let mut v = hex_chars(n / 16);
        v.push(hex_digit_exec(n % 16));
        v
    }
}

/// Relies on `xxhash_rust::xxh64::xxh64`: the digest is a pure function of
/// the input bytes and the seed alone, on every machine.
#[verifier::external_body]
fn xxh64_digest(s: &str, seed: u64) -> (r: u64)
    ensures
        r == xxh64_spec(s.spec_bytes(), seed),
{
    xxhash_rust::xxh64::xxh64(s.as_bytes(), seed)
}

/// Derive the cache key for a normalized parameter list, a view and a plate
/// identifier. The key depends on the set of `"category/sku"` tokens, never
/// on their order: the tokens are sorted before hashing.
pub fn generate_cache_key(params: &Vec<LayerParam>, view: View, plate_value: &str) -> (r: String)
    ensures
        r@ == cache_key_spec(views_of_params(params@), view, plate_value@),
{
    let mut tokens: Vec<Vec<char>> = Vec::new();
    let mut i: usize = 0;
    while i < params.len()
        invariant
            i <= params@.len(),
            tokens@.len() == i,
            forall|j: int| 0 <= j < i ==> tokens@[j]@ == token_of(params@[j]@),
        decreases params@.len() - i,
    {
        let t = params[i].to_string();
        tokens.push(str_chars(t.as_str()));
        i += 1;
    }
    proof {
        assert(views_of(tokens@) =~= tokens_of(views_of_params(params@)));
    }
    let sorted = sort_tokens(&tokens);
    let mut combined = join_tokens(&sorted);
    combined.push('_');
    let view_chars = str_chars(view.as_str());
    push_all(&mut combined, &view_chars);
    combined.push('_');
    let plate_chars = str_chars(plate_value);
    push_all(&mut combined, &plate_chars);
    proof {
        assert(combined@ =~= combined_of(views_of_params(params@), view, plate_value@));
    }
    let s = string_from_chars(&combined);
    let h = xxh64_digest(s.as_str(), 0);
    let hx = hex_chars(h);
    string_from_chars(&hx)
}

/// Mapping a function over two sequences with the same multiset gives
/// results with the same multiset.
proof fn lemma_map_multiset<A, B>(s1: Seq<A>, s2: Seq<A>, f: spec_fn(A) -> B)
    requires
        s1.to_multiset() == s2.to_multiset(),
    ensures
        s1.map_values(f).to_multiset() == s2.map_values(f).to_multiset(),
    decreases s1.len(),
{
    broadcast use vstd::seq_lib::group_to_multiset_ensures;

    s1.to_multiset_ensures();
    s2.to_multiset_ensures();
    if s1.len() == 0 {
        assert(s2.len() == 0);
        assert(s1.map_values(f) =~= s2.map_values(f));
    } else {
        let x = s1.last();
        let s1p = s1.drop_last();
        assert(s1 =~= s1p.push(x));
        s1p.to_multiset_ensures();
        assert(s1.to_multiset() =~= s1p.to_multiset().insert(x));
        assert(s2.to_multiset().count(x) > 0);
        assert(s2.contains(x));
        let j = choose|j: int| 0 <= j < s2.len() && s2[j] == x;
        let s2p = s2.remove(j);
        assert(s2p.to_multiset() =~= s2.to_multiset().remove(x));
        assert(s1p.to_multiset() =~= s2p.to_multiset());
        lemma_map_multiset(s1p, s2p, f);
        let m1 = s1.map_values(f);
        let m2 = s2.map_values(f);
        assert(m1 =~= s1p.map_values(f).push(f(x)));
        s1p.map_values(f).to_multiset_ensures();
        assert(m1.to_multiset() =~= s1p.map_values(f).to_multiset().insert(f(x)));
        assert(s2p.map_values(f) =~= m2.remove(j));
        m2.to_multiset_ensures();
        assert(m2.remove(j).to_multiset() =~= m2.to_multiset().remove(m2[j]));
        assert(m2[j] == f(x));
        assert(m2.to_multiset().count(f(x)) > 0) by {
            assert(m2.contains(m2[j]));
        }
        assert(m1.to_multiset() =~= m2.to_multiset());
    }
}

/// Law: the cache key does not depend on the order in which the layer
/// parameters are given; any permutation of the same parameters yields the
/// same key for the same view and plate.
pub proof fn lemma_key_order_independent(
    ps1: Seq<LayerParamV>,
    ps2: Seq<LayerParamV>,
    view: View,
    plate: Seq<char>,
)
    requires
        ps1.to_multiset() == ps2.to_multiset(),
    ensures
        cache_key_spec(ps1, view, plate) == cache_key_spec(ps2, view, plate),
{
    let leq = lex_leq_fn();
    lemma_map_multiset(ps1, ps2, |p: LayerParamV| token_of(p));
    lemma_lex_total_ordering();
    tokens_of(ps1).lemma_sort_by_ensures(leq);
    tokens_of(ps2).lemma_sort_by_ensures(leq);
    lemma_sorted_unique(tokens_of(ps1).sort_by(leq), tokens_of(ps2).sort_by(leq), leq);
}

/// Law: two parameter vectors that are permutations of one another get the
/// same cache key for the same view and plate; with `generate_cache_key`'s
/// contract this is order independence of the executable key derivation.
pub proof fn lemma_generate_key_order_independent(
    p1: Seq<LayerParam>,
    p2: Seq<LayerParam>,
    view: View,
    plate: Seq<char>,
)
    requires
        p1.to_multiset() == p2.to_multiset(),
    ensures
        cache_key_spec(views_of_params(p1), view, plate) == cache_key_spec(
            views_of_params(p2),
            view,
            plate,
        ),
{
    lemma_map_multiset(p1, p2, |p: LayerParam| p@);
    lemma_key_order_independent(views_of_params(p1), views_of_params(p2), view, plate);
}

/// Two strings that differ only in a middle piece of a different content
/// are different.
proof fn lemma_seq_mid_diff(p: Seq<char>, m1: Seq<char>, m2: Seq<char>, s: Seq<char>)
    requires
        m1 != m2,
    ensures
        p + m1 + s != p + m2 + s,
{
    if m1.len() != m2.len() {
        assert((p + m1 + s).len() != (p + m2 + s).len());
    } else {
        if forall|k: int| 0 <= k < m1.len() ==> m1[k] == #[trigger] m2[k] {
            assert(m1 =~= m2);
        }
        let k = choose|k: int| 0 <= k < m1.len() && m1[k] != #[trigger] m2[k];
        assert((p + m1 + s)[p.len() + k] == m1[k]);
        assert((p + m2 + s)[p.len() + k] == m2[k]);
    }
}

/// The five view names are pairwise different.
pub proof fn lemma_view_names_distinct(v1: View, v2: View)
    requires
        v1 != v2,
    ensures
        view_name(v1) != view_name(v2),
{
    reveal_strlit("front");
    reveal_strlit("back");
    reveal_strlit("side");
    reveal_strlit("left");
    reveal_strlit("right");
    assert(view_name(View::Front)[0] == 'f');
    assert(view_name(View::Back)[0] == 'b');
    assert(view_name(View::Side)[0] == 's');
    assert(view_name(View::Left)[0] == 'l');
    assert(view_name(View::Right)[0] == 'r');
}

/// Law: for the same parameters and plate, two different views give two
/// different combined strings; their keys then differ unless the digest
/// itself collides.
pub proof fn lemma_combined_view_sensitive(
    ps: Seq<LayerParamV>,
    v1: View,
    v2: View,
    plate: Seq<char>,
)
    requires
        v1 != v2,
    ensures
        combined_of(ps, v1, plate) != combined_of(ps, v2, plate),
{
    let j = join_underscore(tokens_of(ps).sort_by(lex_leq_fn()));
    let pre = j + seq!['_'];
    let suf = seq!['_'] + plate;
    assert(combined_of(ps, v1, plate) =~= pre + view_name(v1) + suf);
    assert(combined_of(ps, v2, plate) =~= pre + view_name(v2) + suf);
    lemma_view_names_distinct(v1, v2);
    lemma_seq_mid_diff(pre, view_name(v1), view_name(v2), suf);
}

/// Law: for the same parameters and view, two different plate identifiers
/// give two different combined strings; their keys then differ unless the
/// digest itself collides.
pub proof fn lemma_combined_plate_sensitive(
    ps: Seq<LayerParamV>,
    view: View,
    plate1: Seq<char>,
    plate2: Seq<char>,
)
    requires
        plate1 != plate2,
    ensures
        combined_of(ps, view, plate1) != combined_of(ps, view, plate2),
{
    let j = join_underscore(tokens_of(ps).sort_by(lex_leq_fn()));
    let pre = j + seq!['_'] + view_name(view) + seq!['_'];
    let suf = Seq::<char>::empty();
    assert(combined_of(ps, view, plate1) =~= pre + plate1 + suf);
    assert(combined_of(ps, view, plate2) =~= pre + plate2 + suf);
    lemma_seq_mid_diff(pre, plate1, plate2, suf);
}

} // verus!
