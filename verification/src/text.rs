//! Verified helpers for working with strings as sequences of characters:
//! conversion, equality, case folding, trimming, affix tests and splitting.

use vstd::prelude::*;

verus! {

/// ASCII whitespace, the characters trimmed from raw tokens.
pub open spec fn is_space(c: char) -> bool {
    c == ' ' || c == '\t' || c == '\n' || c == '\r'
}

/// Whether `c` is an ASCII decimal digit.
pub open spec fn is_digit(c: char) -> bool {
    48 <= c as u32 && c as u32 <= 57
}

/// ASCII case folding of one character; anything but `A`..`Z`, including
/// any character outside ASCII, is unchanged.
pub open spec fn lower_char(c: char) -> char {
    match c {
        'A' => 'a',
        'B' => 'b',
        'C' => 'c',
        'D' => 'd',
        'E' => 'e',
        'F' => 'f',
        'G' => 'g',
        'H' => 'h',
        'I' => 'i',
        'J' => 'j',
        'K' => 'k',
        'L' => 'l',
        'M' => 'm',
        'N' => 'n',
        'O' => 'o',
        'P' => 'p',
        'Q' => 'q',
        'R' => 'r',
        'S' => 's',
        'T' => 't',
        'U' => 'u',
        'V' => 'v',
        'W' => 'w',
        'X' => 'x',
        'Y' => 'y',
        'Z' => 'z',
        _ => c,
    }
}

/// ASCII case folding of a whole sequence.
pub open spec fn lower_seq(s: Seq<char>) -> Seq<char> {
    s.map_values(|c: char| lower_char(c))
}

pub fn is_space_char(c: char) -> (r: bool)
    ensures
        r == is_space(c),
{
    c == ' ' || c == '\t' || c == '\n' || c == '\r'
}

pub fn is_digit_char(c: char) -> (r: bool)
    ensures
        r == is_digit(c),
{
    let u = c as u32;
    48 <= u && u <= 57
}

pub fn lower_char_exec(c: char) -> (r: char)
    ensures
        r == lower_char(c),
{
    match c {
        'A' => 'a',
        'B' => 'b',
        'C' => 'c',
        'D' => 'd',
        'E' => 'e',
        'F' => 'f',
        'G' => 'g',
        'H' => 'h',
        'I' => 'i',
        'J' => 'j',
        'K' => 'k',
        'L' => 'l',
        'M' => 'm',
        'N' => 'n',
        'O' => 'o',
        'P' => 'p',
        'Q' => 'q',
        'R' => 'r',
        'S' => 's',
        'T' => 't',
        'U' => 'u',
        'V' => 'v',
        'W' => 'w',
        'X' => 'x',
        'Y' => 'y',
        'Z' => 'z',
        _ => c,
    }
}

/// The characters of a string slice, in order.
pub fn str_chars(s: &str) -> (v: Vec<char>)
    ensures
        v@ == s@,
{
    let n = s.unicode_len();
    let mut v: Vec<char> = Vec::new();
    let mut i: usize = 0;
    while i < n
        invariant
            i <= n,
            n == s@.len(),
            v@.len() == i,
            forall|j: int| 0 <= j < i ==> v@[j] == s@[j],
        decreases n - i,
    {
        v.push(s.get_char(i));
        i += 1;
    }
    proof {
        assert(v@ =~= s@);
    }
    v
}

/// Relies on `String`'s `FromIterator` implementation for `char`: collecting
/// an iterator of characters yields a string of exactly those characters.
#[verifier::external_body]
pub fn string_from_chars(v: &Vec<char>) -> (s: String)
    ensures
        s@ == v@,
{
    v.iter().collect()
}

/// Character-wise string equality.
pub fn str_eq(a: &str, b: &str) -> (r: bool)
    ensures
        r == (a@ == b@),
{
    let na = a.unicode_len();
    let nb = b.unicode_len();
    if na != nb {
        return false;
    }
    let mut i: usize = 0;
    while i < na
        invariant
            i <= na,
            na == a@.len(),
            na == b@.len(),
            forall|j: int| 0 <= j < i ==> a@[j] == b@[j],
        decreases na - i,
    {
        if a.get_char(i) != b.get_char(i) {
            return false;
        }
        i += 1;
    }
    proof {
        assert(a@ =~= b@);
    }
    true
}

/// Case folding of a character vector.
pub fn lower_chars(v: &Vec<char>) -> (r: Vec<char>)
    ensures
        r@ == lower_seq(v@),
{
    let mut r: Vec<char> = Vec::new();
    let mut i: usize = 0;
    while i < v.len()
        invariant
            i <= v@.len(),
            r@.len() == i,
            forall|j: int| 0 <= j < i ==> r@[j] == lower_char(v@[j]),
        decreases v@.len() - i,
    {
        r.push(lower_char_exec(v[i]));
        i += 1;
    }
    proof {
        assert(r@ =~= lower_seq(v@));
    }
    r
}

/// What remains of `s` after dropping leading whitespace.
pub open spec fn trim_front(s: Seq<char>) -> Seq<char>
    decreases s.len(),
{
    if s.len() > 0 && is_space(s[0]) {
        trim_front(s.drop_first())
    } else {
        s
    }
}

/// What remains of `s` after dropping trailing whitespace.
pub open spec fn trim_back(s: Seq<char>) -> Seq<char>
    decreases s.len(),
{
    if s.len() > 0 && is_space(s.last()) {
        trim_back(s.drop_last())
    } else {
        s
    }
}

/// `s` without leading or trailing whitespace.
pub open spec fn trim_seq(s: Seq<char>) -> Seq<char> {
    trim_back(trim_front(s))
}

/// A copy of `v[from..to]`.
pub fn copy_range(v: &Vec<char>, from: usize, to: usize) -> (r: Vec<char>)
    requires
        from <= to <= v@.len(),
    ensures
        r@ == v@.subrange(from as int, to as int),
{
    let mut r: Vec<char> = Vec::new();
    let mut i: usize = from;
    while i < to
        invariant
            from <= i <= to <= v@.len(),
            r@.len() == i - from,
            forall|j: int| 0 <= j < i - from ==> r@[j] == v@[from + j],
        decreases to - i,
    {
        r.push(v[i]);
        i += 1;
    }
    proof {
        assert(r@ =~= v@.subrange(from as int, to as int));
    }
    r
}

/// `v` without leading or trailing whitespace.
pub fn trim_chars(v: &Vec<char>) -> (r: Vec<char>)
    ensures
        r@ == trim_seq(v@),
{
    let mut lo: usize = 0;
    proof {
        assert(v@.skip(0) =~= v@);
    }
    while lo < v.len() && is_space_char(v[lo])
        invariant
            lo <= v@.len(),
            trim_front(v@) == trim_front(v@.skip(lo as int)),
        decreases v@.len() - lo,
    {
        proof {
            assert(v@.skip(lo as int).drop_first() =~= v@.skip(lo as int + 1));
        }
        lo += 1;
    }
    proof {
        assert(trim_front(v@.skip(lo as int)) == v@.skip(lo as int));
    }
    let ghost base = v@.skip(lo as int);
    let mut hi: usize = v.len();
    proof {
        assert(base.take(hi - lo as int) =~= base);
    }
    while hi > lo && is_space_char(v[hi - 1])
        invariant
            lo <= hi <= v@.len(),
            base == v@.skip(lo as int),
            trim_back(base) == trim_back(base.take(hi - lo as int)),
        decreases hi,
    {
        proof {
            assert(base.take(hi - lo as int).last() == v@[hi - 1]);
            assert(base.take(hi - lo as int).drop_last() =~= base.take(hi - 1 - lo as int));
        }
        hi -= 1;
    }
    proof {
        assert(trim_back(base.take(hi - lo as int)) == base.take(hi - lo as int));
    }
    let r = copy_range(v, lo, hi);
    proof {
        assert(r@ =~= base.take(hi - lo as int));
    }
    r
}

/// Whether `s` ends with the suffix `p`.
pub open spec fn ends_with_seq(s: Seq<char>, p: Seq<char>) -> bool {
    s.len() >= p.len() && s.skip(s.len() - p.len()) == p
}

/// Whether `s` starts with the prefix `p`.
pub open spec fn starts_with_seq(s: Seq<char>, p: Seq<char>) -> bool {
    s.len() >= p.len() && s.take(p.len() as int) == p
}

/// Whether `p` occurs in `s` as a contiguous subsequence.
pub open spec fn contains_seq(s: Seq<char>, p: Seq<char>) -> bool {
    exists|i: int| 0 <= i <= s.len() - p.len() && #[trigger] s.subrange(i, i + p.len()) == p
}

/// Whether `p` occurs at position `at` of `v`.
pub fn match_at(v: &Vec<char>, p: &Vec<char>, at: usize) -> (r: bool)
    requires
        at + p@.len() <= v@.len(),
    ensures
        r == (v@.subrange(at as int, at + p@.len()) == p@),
{
    let n = v.len();
    let mut i: usize = 0;
    while i < p.len()
        invariant
            i <= p@.len(),
            n == v@.len(),
            at + p@.len() <= v@.len(),
            forall|j: int| 0 <= j < i ==> v@[at + j] == p@[j],
        decreases p@.len() - i,
    {
        if v[at + i] != p[i] {
            proof {
                assert(v@.subrange(at as int, at + p@.len())[i as int] != p@[i as int]);
            }
            return false;
        }
        i += 1;
    }
    proof {
        assert(v@.subrange(at as int, at + p@.len()) =~= p@);
    }
    true
}

pub fn ends_with_pat(v: &Vec<char>, p: &Vec<char>) -> (r: bool)
    ensures
        r == ends_with_seq(v@, p@),
{
    if v.len() < p.len() {
        return false;
    }
    let r = match_at(v, p, v.len() - p.len());
    proof {
        assert(v@.subrange(v@.len() - p@.len(), v@.len() - p@.len() + p@.len()) =~= v@.skip(
            v@.len() - p@.len(),
        ));
    }
    r
}

pub fn starts_with_pat(v: &Vec<char>, p: &Vec<char>) -> (r: bool)
    ensures
        r == starts_with_seq(v@, p@),
{
    if v.len() < p.len() {
        return false;
    }
    let r = match_at(v, p, 0);
    proof {
        assert(v@.subrange(0, p@.len() as int) =~= v@.take(p@.len() as int));
    }
    r
}

pub fn contains_pat(v: &Vec<char>, p: &Vec<char>) -> (r: bool)
    requires
        p@.len() >= 1,
    ensures
        r == contains_seq(v@, p@),
{
    if p.len() > v.len() {
        return false;
    }
    let last = v.len() - p.len();
    let mut i: usize = 0;
    while i <= last
        invariant
            i <= last + 1,
            last == v@.len() - p@.len(),
            1 <= p@.len() <= v@.len(),
            v@.len() <= usize::MAX,
            forall|k: int| 0 <= k < i ==> #[trigger] v@.subrange(k, k + p@.len()) != p@,
        decreases last + 1 - i,
    {
        if match_at(v, p, i) {
            return true;
        }
        i += 1;
    }
    false
}

/// The position of the last occurrence of `c` in `s`.
pub open spec fn rfind(s: Seq<char>, c: char) -> Option<int>
    decreases s.len(),
{
    if s.len() == 0 {
        None
    } else if s.last() == c {
        Some(s.len() - 1)
    } else {
        rfind(s.drop_last(), c)
    }
}

pub fn rfind_char(v: &Vec<char>, c: char) -> (r: Option<usize>)
    ensures
        match r {
            Some(i) => rfind(v@, c) == Some(i as int),
            None => rfind(v@, c) is None,
        },
{
    let mut j: usize = v.len();
    proof {
        assert(v@.take(v@.len() as int) =~= v@);
    }
    while j > 0
        invariant
            j <= v@.len(),
            rfind(v@, c) == rfind(v@.take(j as int), c),
        decreases j,
    {
        if v[j - 1] == c {
            proof {
                assert(v@.take(j as int).last() == v@[j - 1]);
            }
            return Some(j - 1);
        }
        proof {
            assert(v@.take(j as int).last() == v@[j - 1]);
            assert(v@.take(j as int).drop_last() =~= v@.take(j - 1));
        }
        j -= 1;
    }
    None
}

/// The position of the first occurrence of `c` in `s`.
pub open spec fn find(s: Seq<char>, c: char) -> Option<int>
    decreases s.len(),
{
    if s.len() == 0 {
        None
    } else if s[0] == c {
        Some(0)
    } else {
        match find(s.drop_first(), c) {
            Some(i) => Some(i + 1),
            None => None,
        }
    }
}

/// A found position is in range, holds `c`, and nothing before it does.
pub proof fn lemma_find_bounds(s: Seq<char>, c: char)
    ensures
        match find(s, c) {
            Some(i) => 0 <= i < s.len() && s[i] == c && (forall|j: int| 0 <= j < i ==> s[j] != c),
            None => forall|j: int| 0 <= j < s.len() ==> s[j] != c,
        },
    decreases s.len(),
{
    if s.len() > 0 && s[0] != c {
        let t = s.drop_first();
        lemma_find_bounds(t, c);
        match find(t, c) {
            Some(i) => {
                assert(find(s, c) == Some(i + 1));
                assert(s[i + 1] == t[i]);
                assert forall|j: int| 0 <= j < i + 1 implies s[j] != c by {
                    if j > 0 {
                        assert(s[j] == t[j - 1]);
                    }
                }
            },
            None => {
                assert(find(s, c) is None);
                assert forall|j: int| 0 <= j < s.len() implies s[j] != c by {
                    if j > 0 {
                        assert(s[j] == t[j - 1]);
                    }
                }
            },
        }
    }
}

/// The pieces of `s` between occurrences of the separator `sep`, in order;
/// a string without `sep` is one piece, and each occurrence of `sep` ends a
/// piece, so `n` occurrences give `n + 1` pieces.
pub open spec fn split_on(s: Seq<char>, sep: char) -> Seq<Seq<char>>
    decreases s.len(),
    via split_on_decreases
{
    match find(s, sep) {
        None => seq![s],
        Some(i) => seq![s.take(i)] + split_on(s.skip(i + 1), sep),
    }
}

#[via_fn]
proof fn split_on_decreases(s: Seq<char>, sep: char) {
    lemma_find_bounds(s, sep);
}

/// The views of a vector of character vectors.
pub open spec fn views_of(parts: Seq<Vec<char>>) -> Seq<Seq<char>> {
    parts.map_values(|p: Vec<char>| p@)
}

/// Split `v` on the separator `sep`.
pub fn split_chars(v: &Vec<char>, sep: char) -> (parts: Vec<Vec<char>>)
    ensures
        views_of(parts@) == split_on(v@, sep),
{
    let parts = split_from(v, sep, 0);
    proof {
        assert(v@.skip(0) =~= v@);
    }
    parts
}

fn split_from(v: &Vec<char>, sep: char, from: usize) -> (parts: Vec<Vec<char>>)
    requires
        from <= v@.len(),
    ensures
        views_of(parts@) == split_on(v@.skip(from as int), sep),
    decreases v@.len() - from,
{
    let ghost s = v@.skip(from as int);
    let n = v.len();
    let mut i: usize = from;
    while i < n && v[i] != sep
        invariant
            from <= i <= n,
            n == v@.len(),
            s == v@.skip(from as int),
            forall|j: int| from <= j < i ==> v@[j] != sep,
        decreases n - i,
    {
        i += 1;
    }
    proof {
        assert(forall|j: int| 0 <= j < i - from ==> s[j] != sep);
        if i < n {
            assert(s[i - from] == sep);
            lemma_find_bounds(s, sep);
            assert(find(s, sep) == Some(i - from as int)) by {
                match find(s, sep) {
                    Some(k) => {
                        assert(!(k < i - from));
                        assert(!(k > i - from)) by {
                            if k > i - from {
                                assert(s[i - from] != sep);
                            }
                        }
                    },
                    None => {
                        assert(s[i - from] != sep);
                    },
                }
            }
        } else {
            lemma_find_bounds(s, sep);
            if find(s, sep) is Some {
                let k = find(s, sep)->0;
                assert(s[k] != sep);
            }
        }
    }
    if i < n {
        let seg = copy_range(v, from, i);
        let mut rest = split_from(v, sep, i + 1);
        rest.insert(0, seg);
        proof {
            let si = i - from as int;
            assert(v@.skip(i + 1 as int) =~= s.skip(si + 1));
            assert(seg@ =~= s.take(si));
            assert(views_of(rest@) =~= seq![s.take(si)] + split_on(s.skip(si + 1), sep));
        }
        rest
    } else {
        let seg = copy_range(v, from, n);
        let mut parts: Vec<Vec<char>> = Vec::new();
        parts.push(seg);
        proof {
            assert(seg@ =~= s);
            assert(views_of(parts@) =~= seq![s]);
        }
        parts
    }
}

/// Character-wise equality of two character vectors.
pub fn chars_eq(a: &Vec<char>, b: &Vec<char>) -> (r: bool)
    ensures
        r == (a@ == b@),
{
    if a.len() != b.len() {
        return false;
    }
    let mut i: usize = 0;
    while i < a.len()
        invariant
            i <= a@.len(),
            a@.len() == b@.len(),
            forall|j: int| 0 <= j < i ==> a@[j] == b@[j],
        decreases a@.len() - i,
    {
        if a[i] != b[i] {
            return false;
        }
        i += 1;
    }
    proof {
        assert(a@ =~= b@);
    }
    true
}

/// Whether every character of `s` is an ASCII digit.
pub open spec fn all_digits(s: Seq<char>) -> bool {
    forall|i: int| 0 <= i < s.len() ==> is_digit(#[trigger] s[i])
}

pub fn all_digits_chars(v: &Vec<char>) -> (r: bool)
    ensures
        r == all_digits(v@),
{
    let mut i: usize = 0;
    while i < v.len()
        invariant
            i <= v@.len(),
            forall|j: int| 0 <= j < i ==> is_digit(#[trigger] v@[j]),
        decreases v@.len() - i,
    {
        if !is_digit_char(v[i]) {
            return false;
        }
        i += 1;
    }
    true
}

} // verus!
