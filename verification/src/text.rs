//! Character-level text operations used by the configuration logic.
//!
//! Text is modelled as a sequence of `char`s (`Seq<char>`, the view of `str`
//! and `String`). Searching, trimming and removal are stated as spec
//! functions over that model, and the executable versions work on
//! `Vec<char>`.
use vstd::prelude::*;

verus! {

/// Appends one character to a `String` (std's `String::push`): the string
/// afterwards is the one before followed by `ch`.
pub assume_specification[ String::push ](s: &mut String, ch: char)
    ensures
        final(s)@ == old(s)@.push(ch),
;

// ---------------------------------------------------------------------------
// Specifications
// ---------------------------------------------------------------------------

/// `p` occurs in `s` starting at index `i`.
pub open spec fn occurs_at(s: Seq<char>, p: Seq<char>, i: int) -> bool {
    0 <= i && i + p.len() <= s.len() && s.subrange(i, i + p.len()) == p
}

/// The first index `k >= i` at which `p` occurs in `s`, if any.
pub open spec fn find_from(s: Seq<char>, p: Seq<char>, i: int) -> Option<int>
    decreases s.len() + 1 - i,
{
    if i < 0 || i + p.len() > s.len() {
        None
    } else if occurs_at(s, p, i) {
        Some(i)
    } else {
        find_from(s, p, i + 1)
    }
}

/// `p` occurs somewhere in `s`.
pub open spec fn contains(s: Seq<char>, p: Seq<char>) -> bool {
    find_from(s, p, 0) is Some
}

/// The Unicode `White_Space` property (what `char::is_whitespace` tests).
pub open spec fn is_ws(c: char) -> bool {
    ||| ('\u{9}' <= c && c <= '\u{d}')
    ||| c == ' '
    ||| c == '\u{85}'
    ||| c == '\u{a0}'
    ||| c == '\u{1680}'
    ||| ('\u{2000}' <= c && c <= '\u{200a}')
    ||| c == '\u{2028}'
    ||| c == '\u{2029}'
    ||| c == '\u{202f}'
    ||| c == '\u{205f}'
    ||| c == '\u{3000}'
}

/// `s` without its leading whitespace.
pub open spec fn trim_start(s: Seq<char>) -> Seq<char>
    decreases s.len(),
{
    if s.len() > 0 && is_ws(s[0]) {
        trim_start(s.drop_first())
    } else {
        s
    }
}

/// `s` without its trailing whitespace.
pub open spec fn trim_end(s: Seq<char>) -> Seq<char>
    decreases s.len(),
{
    if s.len() > 0 && is_ws(s.last()) {
        trim_end(s.drop_last())
    } else {
        s
    }
}

/// `s` without leading and trailing whitespace (what `str::trim` returns).
pub open spec fn trim(s: Seq<char>) -> Seq<char> {
    trim_end(trim_start(s))
}

/// `s` with every non-overlapping occurrence of `p`, taken from the left,
/// removed (what `str::replace(p, "")` returns).
pub open spec fn remove_all(s: Seq<char>, p: Seq<char>) -> Seq<char>
    decreases s.len(),
{
    if p.len() == 0 || s.len() == 0 {
        s
    } else if p.len() <= s.len() && s.take(p.len() as int) == p {
        remove_all(s.skip(p.len() as int), p)
    } else {
        seq![s[0]] + remove_all(s.drop_first(), p)
    }
}

// ---------------------------------------------------------------------------
// Lemmas
// ---------------------------------------------------------------------------

/// What `find_from` returns: the first occurrence at or after `i`.
pub proof fn lemma_find_from(s: Seq<char>, p: Seq<char>, i: int)
    requires
        0 <= i,
    ensures
        find_from(s, p, i) matches Some(k) ==> i <= k && occurs_at(s, p, k) && (forall|j: int|
            i <= j < k ==> !occurs_at(s, p, j)),
        find_from(s, p, i) is None ==> forall|j: int| i <= j ==> !occurs_at(s, p, j),
    decreases s.len() + 1 - i,
{
    if i + p.len() > s.len() {
    } else if occurs_at(s, p, i) {
    } else {
        lemma_find_from(s, p, i + 1);
    }
}

/// An occurrence at `j >= i` means `find_from` finds one no later than `j`.
pub proof fn lemma_find_from_some(s: Seq<char>, p: Seq<char>, i: int, j: int)
    requires
        0 <= i <= j,
        occurs_at(s, p, j),
    ensures
        find_from(s, p, i) matches Some(k) && k <= j,
{
    lemma_find_from(s, p, i);
}

/// `find_from` only depends on the text up to the end of the occurrence it
/// finds.
pub proof fn lemma_find_from_prefix(s: Seq<char>, t: Seq<char>, p: Seq<char>, i: int, k: int)
    requires
        0 <= i,
        find_from(s, p, i) == Some(k),
        k + p.len() <= t.len(),
        s.take(k + p.len()) == t.take(k + p.len()),
    ensures
        find_from(t, p, i) == Some(k),
{
    lemma_find_from(s, p, i);
    assert(occurs_at(t, p, k)) by {
        assert(t.subrange(k, k + p.len()) =~= t.take(k + p.len()).subrange(k, k + p.len()));
        assert(s.subrange(k, k + p.len()) =~= s.take(k + p.len()).subrange(k, k + p.len()));
    }
    assert forall|j: int| i <= j < k implies !occurs_at(t, p, j) by {
        if occurs_at(t, p, j) {
            assert(t.subrange(j, j + p.len()) =~= t.take(k + p.len()).subrange(j, j + p.len()));
            assert(s.subrange(j, j + p.len()) =~= s.take(k + p.len()).subrange(j, j + p.len()));
            assert(occurs_at(s, p, j));
        }
    }
    lemma_find_from(t, p, i);
    if find_from(t, p, i) is None {
    } else {
        let k2 = find_from(t, p, i)->0;
        if k2 > k {
        } else if k2 < k {
        }
    }
}

/// An occurrence inside the second part of a concatenation is an occurrence
/// in the whole.
pub proof fn lemma_contains_concat(a: Seq<char>, b: Seq<char>, p: Seq<char>)
    ensures
        contains(a, p) ==> contains(a + b, p),
        contains(b, p) ==> contains(a + b, p),
{
    lemma_find_from(a, p, 0);
    lemma_find_from(b, p, 0);
    if contains(a, p) {
        let k = find_from(a, p, 0)->0;
        assert((a + b).subrange(k, k + p.len()) =~= a.subrange(k, k + p.len()));
        lemma_find_from_some(a + b, p, 0, k);
    }
    if contains(b, p) {
        let k = find_from(b, p, 0)->0;
        assert((a + b).subrange(a.len() + k, a.len() + k + p.len()) =~= b.subrange(k, k + p.len()));
        lemma_find_from_some(a + b, p, 0, a.len() + k);
    }
}

/// Everything contains itself.
pub proof fn lemma_contains_self(p: Seq<char>)
    ensures
        contains(p, p),
{
    assert(p.subrange(0, p.len() as int) =~= p);
    lemma_find_from_some(p, p, 0, 0);
}

/// Containment is transitive.
pub proof fn lemma_contains_trans(s: Seq<char>, p: Seq<char>, q: Seq<char>)
    requires
        contains(s, p),
        contains(p, q),
    ensures
        contains(s, q),
{
    lemma_find_from(s, p, 0);
    lemma_find_from(p, q, 0);
    let i = find_from(s, p, 0)->0;
    let j = find_from(p, q, 0)->0;
    assert(s.subrange(i + j, i + j + q.len()) =~= p.subrange(j, j + q.len())) by {
        assert forall|m: int| 0 <= m < q.len() implies #[trigger] s.subrange(
            i + j,
            i + j + q.len(),
        )[m] == p.subrange(j, j + q.len())[m] by {
            assert(s.subrange(i, i + p.len())[j + m] == p[j + m]);
        }
    }
    lemma_find_from_some(s, q, 0, i + j);
}

/// A text contains each of its prefixes.
pub proof fn lemma_contains_prefix(s: Seq<char>, q: Seq<char>)
    requires
        q.len() <= s.len(),
        s.take(q.len() as int) == q,
    ensures
        contains(s, q),
{
    assert(s.subrange(0, q.len() as int) =~= s.take(q.len() as int));
    lemma_find_from_some(s, q, 0, 0);
}

/// `s` holds no curly brace.
pub open spec fn braceless(s: Seq<char>) -> bool {
    forall|k: int| 0 <= k < s.len() ==> #[trigger] s[k] != '{' && s[k] != '}'
}

/// Every character of `s` is whitespace.
pub open spec fn all_ws(s: Seq<char>) -> bool {
    forall|k: int| 0 <= k < s.len() ==> is_ws(#[trigger] s[k])
}

/// No character of `s` is whitespace.
pub open spec fn no_ws(s: Seq<char>) -> bool {
    forall|k: int| 0 <= k < s.len() ==> !is_ws(#[trigger] s[k])
}

/// Trimming keeps a contiguous part of the text; what it drops is whitespace.
pub proof fn lemma_trim_subrange(s: Seq<char>) -> (ij: (int, int))
    ensures
        0 <= ij.0 <= ij.1 <= s.len(),
        trim(s) == s.subrange(ij.0, ij.1),
        all_ws(s.take(ij.0)),
        all_ws(s.skip(ij.1)),
        ij.0 < ij.1 ==> !is_ws(s[ij.0]) && !is_ws(s[ij.1 - 1]),
{
    let i = lemma_trim_start_skip(s);
    let t = s.skip(i);
    let j = lemma_trim_end_take(t);
    assert(t.take(j) =~= s.subrange(i, i + j));
    assert(s.skip(i + j) =~= t.skip(j));
    if j > 0 {
        assert(t[0] == s[i]);
        assert(t[j - 1] == s[i + j - 1]);
    }
    (i, i + j)
}

/// A text that neither starts nor ends with whitespace is its own trim.
pub proof fn lemma_trim_fixed(u: Seq<char>)
    requires
        u.len() == 0 || (!is_ws(u[0]) && !is_ws(u.last())),
    ensures
        trim(u) == u,
{
}

proof fn lemma_trim_start_skip(s: Seq<char>) -> (i: int)
    ensures
        0 <= i <= s.len(),
        trim_start(s) == s.skip(i),
        all_ws(s.take(i)),
        i < s.len() ==> !is_ws(s[i]),
    decreases s.len(),
{
    if s.len() > 0 && is_ws(s[0]) {
        let k = lemma_trim_start_skip(s.drop_first());
        assert(s.drop_first().skip(k) =~= s.skip(k + 1));
        assert forall|m: int| 0 <= m < k + 1 implies is_ws(#[trigger] s.take(k + 1)[m]) by {
            if m > 0 {
                assert(s.take(k + 1)[m] == s.drop_first().take(k)[m - 1]);
            }
        }
        k + 1
    } else {
        assert(s.skip(0) =~= s);
        0
    }
}

proof fn lemma_trim_end_take(s: Seq<char>) -> (j: int)
    ensures
        0 <= j <= s.len(),
        trim_end(s) == s.take(j),
        all_ws(s.skip(j)),
        j > 0 ==> !is_ws(s[j - 1]),
    decreases s.len(),
{
    if s.len() > 0 && is_ws(s.last()) {
        let k = lemma_trim_end_take(s.drop_last());
        assert(s.drop_last().take(k) =~= s.take(k));
        assert forall|m: int| 0 <= m < s.len() - k implies is_ws(#[trigger] s.skip(k)[m]) by {
            if k + m < s.len() - 1 {
                assert(s.skip(k)[m] == s.drop_last().skip(k)[m]);
            }
        }
        k
    } else {
        assert(s.take(s.len() as int) =~= s);
        s.len() as int
    }
}

/// Whitespace around a text does not change what trimming leaves.
pub proof fn lemma_trim_ws_around(x: Seq<char>, u: Seq<char>, z: Seq<char>)
    requires
        all_ws(x),
        all_ws(z),
    ensures
        trim(x + u + z) == trim(u),
{
    lemma_trim_start_ws_head(x, u + z);
    assert(x + u + z =~= x + (u + z));
    lemma_trim_start_ws_tail(u, z);
    if trim_start(u).len() > 0 {
        lemma_trim_end_ws_tail(trim_start(u), z);
    }
}

proof fn lemma_trim_start_ws_head(x: Seq<char>, v: Seq<char>)
    requires
        all_ws(x),
    ensures
        trim_start(x + v) == trim_start(v),
    decreases x.len(),
{
    if x.len() > 0 {
        assert((x + v)[0] == x[0]);
        assert((x + v).drop_first() =~= x.drop_first() + v);
        lemma_trim_start_ws_head(x.drop_first(), v);
    } else {
        assert(x + v =~= v);
    }
}

proof fn lemma_trim_start_ws_tail(u: Seq<char>, z: Seq<char>)
    requires
        all_ws(z),
    ensures
        trim_start(u + z) == (if trim_start(u).len() > 0 {
            trim_start(u) + z
        } else {
            Seq::<char>::empty()
        }),
    decreases u.len(),
{
    if u.len() == 0 {
        assert(u + z =~= z);
        lemma_trim_start_ws_head(z, Seq::<char>::empty());
        assert(z + Seq::<char>::empty() =~= z);
    } else {
        assert((u + z)[0] == u[0]);
        if is_ws(u[0]) {
            assert((u + z).drop_first() =~= u.drop_first() + z);
            lemma_trim_start_ws_tail(u.drop_first(), z);
        }
    }
}

proof fn lemma_trim_end_ws_tail(v: Seq<char>, z: Seq<char>)
    requires
        all_ws(z),
    ensures
        trim_end(v + z) == trim_end(v),
    decreases z.len(),
{
    if z.len() == 0 {
        assert(v + z =~= v);
    } else {
        assert((v + z).last() == z.last());
        assert((v + z).drop_last() =~= v + z.drop_last());
        lemma_trim_end_ws_tail(v, z.drop_last());
    }
}

/// A text is at least as long as what it contains.
pub proof fn lemma_contains_len(s: Seq<char>, w: Seq<char>)
    requires
        contains(s, w),
    ensures
        w.len() <= s.len(),
{
    lemma_find_from(s, w, 0);
}

/// What a part of a text contains, the text contains.
pub proof fn lemma_contains_subrange(s: Seq<char>, i: int, j: int, w: Seq<char>)
    requires
        0 <= i <= j <= s.len(),
        contains(s.subrange(i, j), w),
    ensures
        contains(s, w),
{
    let u = s.subrange(i, j);
    lemma_find_from(u, w, 0);
    let k = find_from(u, w, 0)->0;
    assert(s.subrange(i + k, i + k + w.len()) =~= u.subrange(k, k + w.len()));
    lemma_find_from_some(s, w, 0, i + k);
}

/// Joining two texts by a character that `w` lacks creates no occurrence of `w`.
pub proof fn lemma_no_straddle(x: Seq<char>, c: char, y: Seq<char>, w: Seq<char>)
    requires
        !contains(x, w),
        !contains(y, w),
        !w.contains(c),
    ensures
        !contains(x + seq![c] + y, w),
{
    let t = x + seq![c] + y;
    if contains(t, w) {
        lemma_find_from(t, w, 0);
        let k = find_from(t, w, 0)->0;
        if k + w.len() <= x.len() {
            assert(x.subrange(k, k + w.len()) =~= t.subrange(k, k + w.len()));
            lemma_find_from_some(x, w, 0, k);
        } else if k > x.len() {
            let k2 = k - x.len() - 1;
            assert(y.subrange(k2, k2 + w.len()) =~= t.subrange(k, k + w.len()));
            lemma_find_from_some(y, w, 0, k2);
        } else {
            assert(t.subrange(k, k + w.len())[x.len() - k] == t[x.len() as int]);
            assert(w[x.len() - k] == c);
        }
    }
}

/// Removing a text that starts `w + y` removes that first `w`.
pub proof fn lemma_remove_all_prefix(w: Seq<char>, y: Seq<char>)
    requires
        w.len() > 0,
    ensures
        remove_all(w + y, w) == remove_all(y, w),
{
    assert((w + y).take(w.len() as int) =~= w);
    assert((w + y).skip(w.len() as int) =~= y);
}

/// Removing what does not occur changes nothing.
pub proof fn lemma_remove_all_absent(y: Seq<char>, w: Seq<char>)
    requires
        w.len() > 0,
        !contains(y, w),
    ensures
        remove_all(y, w) == y,
    decreases y.len(),
{
    if y.len() > 0 {
        if w.len() <= y.len() && y.take(w.len() as int) == w {
            lemma_contains_prefix(y, w);
        }
        assert(y.drop_first() =~= y.subrange(1, y.len() as int));
        if contains(y.drop_first(), w) {
            lemma_contains_subrange(y, 1, y.len() as int, w);
        }
        lemma_remove_all_absent(y.drop_first(), w);
        assert(seq![y[0]] + y.drop_first() =~= y);
    }
}

/// The length in bytes of the UTF-8 encoding of `s` (what `str::len` gives
/// for a text with these characters).
pub open spec fn utf8_len(s: Seq<char>) -> nat {
    vstd::utf8::encode_utf8(s).len()
}

/// The encoding of two texts side by side is their encodings side by side.
pub proof fn lemma_encode_concat(a: Seq<char>, b: Seq<char>)
    ensures
        vstd::utf8::encode_utf8(a + b) == vstd::utf8::encode_utf8(a) + vstd::utf8::encode_utf8(b),
    decreases a.len(),
{
    if a.len() == 0 {
        assert(a + b =~= b);
        assert(vstd::utf8::encode_utf8(a) + vstd::utf8::encode_utf8(b) =~= vstd::utf8::encode_utf8(
            b,
        ));
    } else {
        assert((a + b)[0] == a[0]);
        assert((a + b).drop_first() =~= a.drop_first() + b);
        lemma_encode_concat(a.drop_first(), b);
        assert(vstd::utf8::encode_utf8(a + b) =~= vstd::utf8::encode_utf8(a) + vstd::utf8::encode_utf8(
            b,
        ));
    }
}

// ---------------------------------------------------------------------------
// Executable operations
// ---------------------------------------------------------------------------

/// The characters of `s`, in order.
pub fn chars_of(s: &str) -> (r: Vec<char>)
    ensures
        r@ == s@,
{
    let mut v: Vec<char> = Vec::new();
    for c in it: s.chars()
        invariant
            v@ == it.seq().take(it.index() as int),
    {
        v.push(c);
    }
    v
}

/// The string made of the characters of `v`, in order.
pub fn string_of(v: &Vec<char>) -> (r: String)
    ensures
        r@ == v@,
{
    let mut s = String::new();
    let mut i: usize = 0;
    while i < v.len()
        invariant
            i <= v.len(),
            s@ == v@.take(i as int),
        decreases v.len() - i,
    {
        s.push(v[i]);
        i += 1;
        assert(s@ == v@.take(i as int));
    }
    assert(v@.take(v.len() as int) == v@);
    s
}

/// Appends the characters of `w` to `v`.
pub fn extend(v: &mut Vec<char>, w: &Vec<char>)
    ensures
        final(v)@ == old(v)@ + w@,
{
    let mut i: usize = 0;
    while i < w.len()
        invariant
            i <= w.len(),
            v@ == old(v)@ + w@.take(i as int),
        decreases w.len() - i,
    {
        v.push(w[i]);
        i += 1;
        assert(v@ =~= old(v)@ + w@.take(i as int));
    }
    assert(w@.take(w.len() as int) =~= w@);
}

/// The characters of `s` from index `a` up to (not including) `b`.
pub fn slice_of(s: &Vec<char>, a: usize, b: usize) -> (r: Vec<char>)
    requires
        a <= b <= s.len(),
    ensures
        r@ == s@.subrange(a as int, b as int),
{
    let mut r: Vec<char> = Vec::new();
    let mut i: usize = a;
    while i < b
        invariant
            a <= i <= b <= s.len(),
            r@ == s@.subrange(a as int, i as int),
        decreases b - i,
    {
        r.push(s[i]);
        i += 1;
        assert(r@ =~= s@.subrange(a as int, i as int));
    }
    r
}

/// Whether `p` occurs in `s` at index `i`.
pub fn matches_at(s: &Vec<char>, p: &Vec<char>, i: usize) -> (r: bool)
    ensures
        r == occurs_at(s@, p@, i as int),
{
    if i > s.len() || p.len() > s.len() - i {
        return false;
    }
    let mut j: usize = 0;
    while j < p.len()
        invariant
            i + p.len() <= s.len(),
            j <= p.len(),
            forall|m: int| 0 <= m < j ==> s@[i + m] == p@[m],
        decreases p.len() - j,
    {
        if s[i + j] != p[j] {
            assert(s@.subrange(i as int, i + p.len())[j as int] != p@[j as int]);
            return false;
        }
        j += 1;
    }
    assert(s@.subrange(i as int, i + p.len()) =~= p@);
    true
}

/// The first index at or after `start` at which `p` occurs in `s`.
pub fn find_from_exec(s: &Vec<char>, p: &Vec<char>, start: usize) -> (r: Option<usize>)
    ensures
        r matches Some(k) ==> find_from(s@, p@, start as int) == Some(k as int),
        r is None ==> find_from(s@, p@, start as int) is None,
{
    let mut i: usize = start;
    if i > s.len() || p.len() > s.len() - i {
        return None;
    }
    while p.len() <= s.len() - i
        invariant
            start <= i,
            i <= s.len(),
            find_from(s@, p@, start as int) == find_from(s@, p@, i as int),
        decreases s.len() - i,
    {
        if matches_at(s, p, i) {
            return Some(i);
        }
        assert(p.len() > 0) by {
            if p.len() == 0 {
                assert(s@.subrange(i as int, i as int) =~= p@);
            }
        }
        i += 1;
    }
    None
}

/// Whether `p` occurs anywhere in `s`.
pub fn contains_exec(s: &Vec<char>, p: &Vec<char>) -> (r: bool)
    ensures
        r == contains(s@, p@),
{
    find_from_exec(s, p, 0).is_some()
}

/// Whether `c` is whitespace in the sense of Unicode's `White_Space`.
pub fn is_ws_exec(c: char) -> (r: bool)
    ensures
        r == is_ws(c),
{
    ('\u{9}' <= c && c <= '\u{d}') || c == ' ' || c == '\u{85}' || c == '\u{a0}' || c
        == '\u{1680}' || ('\u{2000}' <= c && c <= '\u{200a}') || c == '\u{2028}' || c
        == '\u{2029}' || c == '\u{202f}' || c == '\u{205f}' || c == '\u{3000}'
}

/// `s` without leading and trailing whitespace.
pub fn trim_exec(s: &Vec<char>) -> (r: Vec<char>)
    ensures
        r@ == trim(s@),
{
    let mut a: usize = 0;
    assert(s@.skip(0) =~= s@);
    while a < s.len() && is_ws_exec(s[a])
        invariant
            a <= s.len(),
            trim_start(s@) == trim_start(s@.skip(a as int)),
        decreases s.len() - a,
    {
        assert(s@.skip(a as int).drop_first() =~= s@.skip(a + 1));
        a += 1;
    }
    let mut b: usize = s.len();
    assert(s@.skip(a as int) =~= s@.subrange(a as int, b as int));
    while b > a && is_ws_exec(s[b - 1])
        invariant
            a <= b <= s.len(),
            trim(s@) == trim_end(s@.subrange(a as int, b as int)),
        decreases b - a,
    {
        assert(s@.subrange(a as int, b as int).drop_last() =~= s@.subrange(a as int, b - 1));
        b -= 1;
    }
    slice_of(s, a, b)
}

/// `s` with every non-overlapping occurrence of `p`, from the left, removed.
pub fn remove_all_exec(s: &Vec<char>, p: &Vec<char>) -> (r: Vec<char>)
    ensures
        r@ == remove_all(s@, p@),
{
    if p.len() == 0 {
        return slice_of(s, 0, s.len());
    }
    let mut r: Vec<char> = Vec::new();
    let mut i: usize = 0;
    assert(s@.skip(0) =~= s@);
    assert(r@ + remove_all(s@, p@) =~= remove_all(s@, p@));
    while i < s.len()
        invariant
            p.len() > 0,
            i <= s.len(),
            r@ + remove_all(s@.skip(i as int), p@) == remove_all(s@, p@),
        decreases s.len() - i,
    {
        let ghost rest = s@.skip(i as int);
        if matches_at(s, p, i) {
            assert(rest.take(p.len() as int) =~= s@.subrange(i as int, i + p.len()));
            assert(rest.skip(p.len() as int) =~= s@.skip(i + p.len()));
            i += p.len();
        } else {
            assert(!(p.len() <= rest.len() && rest.take(p.len() as int) == p@)) by {
                if p.len() <= rest.len() && rest.take(p.len() as int) == p@ {
                    assert(rest.take(p.len() as int) =~= s@.subrange(i as int, i + p.len()));
                }
            }
            assert(rest.drop_first() =~= s@.skip(i + 1));
            let ghost r0 = r@;
            r.push(s[i]);
            assert(r@ + remove_all(s@.skip(i + 1), p@) =~= r0 + (seq![s@[i as int]] + remove_all(
                s@.skip(i + 1),
                p@,
            )));
            i += 1;
        }
    }
    assert(s@.skip(s.len() as int) =~= Seq::<char>::empty());
    assert(r@ + Seq::<char>::empty() =~= r@);
    r
}

/// Whether `a` and `b` are the same text.
pub fn text_eq(a: &str, b: &str) -> (r: bool)
    ensures
        r == (a@ == b@),
{
    let x = chars_of(a);
    let y = chars_of(b);
    if x.len() != y.len() {
        return false;
    }
    let mut i: usize = 0;
    while i < x.len()
        invariant
            x@ == a@,
            y@ == b@,
            x.len() == y.len(),
            i <= x.len(),
            forall|k: int| 0 <= k < i ==> x@[k] == y@[k],
        decreases x.len() - i,
    {
        if x[i] != y[i] {
            assert(x@[i as int] != y@[i as int]);
            return false;
        }
        i += 1;
    }
    assert(x@ =~= y@);
    true
}

/// `s` ends with `t`.
pub open spec fn ends_with(s: Seq<char>, t: Seq<char>) -> bool {
    t.len() <= s.len() && s.skip(s.len() - t.len()) == t
}

/// `s` starts with `t`.
pub open spec fn starts_with(s: Seq<char>, t: Seq<char>) -> bool {
    t.len() <= s.len() && s.take(t.len() as int) == t
}

/// Whether `s` ends with `t`.
pub fn ends_with_exec(s: &str, t: &str) -> (r: bool)
    ensures
        r == ends_with(s@, t@),
{
    let x = chars_of(s);
    let y = chars_of(t);
    if y.len() > x.len() {
        return false;
    }
    let r = matches_at(&x, &y, x.len() - y.len());
    assert(x@.subrange(x.len() - y.len(), x.len() as int) =~= x@.skip(x.len() - y.len()));
    r
}

/// Whether `s` starts with `t`.
pub fn starts_with_exec(s: &str, t: &str) -> (r: bool)
    ensures
        r == starts_with(s@, t@),
{
    let x = chars_of(s);
    let y = chars_of(t);
    let r = matches_at(&x, &y, 0);
    if y.len() <= x.len() {
        assert(x@.subrange(0, y.len() as int) =~= x@.take(y.len() as int));
    }
    r
}

/// Whether `p` occurs in `s`.
pub fn str_contains(s: &str, p: &str) -> (r: bool)
    ensures
        r == contains(s@, p@),
{
    contains_exec(&chars_of(s), &chars_of(p))
}

/// The decimal digit for `d < 10`.
pub open spec fn digit_char(d: int) -> char {
    if d == 0 {
        '0'
    } else if d == 1 {
        '1'
    } else if d == 2 {
        '2'
    } else if d == 3 {
        '3'
    } else if d == 4 {
        '4'
    } else if d == 5 {
        '5'
    } else if d == 6 {
        '6'
    } else if d == 7 {
        '7'
    } else if d == 8 {
        '8'
    } else {
        '9'
    }
}

/// The decimal form of `n`, without leading zeros (what `to_string` gives
/// for an unsigned integer).
pub open spec fn decimal(n: nat) -> Seq<char>
    decreases n,
{
    if n < 10 {
        seq![digit_char(n as int)]
    } else {
        decimal(n / 10).push(digit_char((n % 10) as int))
    }
}

fn digit_exec(d: u32) -> (c: char)
    requires
        d < 10,
    ensures
        c == digit_char(d as int),
{
    if d == 0 {
        '0'
    } else if d == 1 {
        '1'
    } else if d == 2 {
        '2'
    } else if d == 3 {
        '3'
    } else if d == 4 {
        '4'
    } else if d == 5 {
        '5'
    } else if d == 6 {
        '6'
    } else if d == 7 {
        '7'
    } else if d == 8 {
        '8'
    } else {
        '9'
    }
}

/// Appends the decimal form of `n` to `v`.
pub fn push_decimal(v: &mut Vec<char>, n: u32)
    ensures
        final(v)@ == old(v)@ + decimal(n as nat),
    decreases n,
{
    if n >= 10 {
        push_decimal(v, n / 10);
        v.push(digit_exec(n % 10));
        assert(old(v)@ + decimal(n as nat / 10) + seq![digit_char((n % 10) as int)] =~= old(v)@
            + decimal(n as nat));
    } else {
        v.push(digit_exec(n));
        assert(v@ =~= old(v)@ + decimal(n as nat));
    }
}

/// The number of bytes of the UTF-8 encoding of `c`.
fn utf8_width(c: char) -> (r: usize)
    ensures
        r == vstd::utf8::encode_scalar(c as u32).len(),
{
    proof {
        vstd::utf8::char_is_scalar(c);
    }
    let v = c as u32;
    if v <= 0x7F {
        1
    } else if v <= 0x7FF {
        2
    } else if v <= 0xFFFF {
        3
    } else {
        4
    }
}

/// The byte offset in `s` of its character index `i`: the length of the
/// UTF-8 encoding of the characters before it.
pub fn byte_offset(s: &str, i: usize) -> (r: usize)
    requires
        i <= s@.len(),
    ensures
        r == utf8_len(s@.take(i as int)),
{
    let total = s.as_bytes().len();
    let cs = chars_of(s);
    let mut k: usize = 0;
    let mut acc: usize = 0;
    assert(s@.take(0) =~= Seq::<char>::empty());
    while k < i
        invariant
            k <= i <= cs@.len(),
            cs@ == s@,
            acc == utf8_len(s@.take(k as int)),
            total == utf8_len(s@),
        decreases i - k,
    {
        let ghost c = s@[k as int];
        proof {
            assert(s@.take(k + 1) =~= s@.take(k as int) + seq![c]);
            lemma_encode_concat(s@.take(k as int), seq![c]);
            assert(seq![c].drop_first() =~= Seq::<char>::empty());
            assert(vstd::utf8::encode_utf8(Seq::<char>::empty()) =~= Seq::<u8>::empty());
            assert(seq![c][0] == c);
            assert(vstd::utf8::encode_utf8(seq![c]) =~= vstd::utf8::encode_scalar(c as u32)
                + vstd::utf8::encode_utf8(Seq::<char>::empty()));
            assert(s@ =~= s@.take(k + 1) + s@.skip(k + 1));
            lemma_encode_concat(s@.take(k + 1), s@.skip(k + 1));
        }
        acc = acc + utf8_width(cs[k]);
        k += 1;
    }
    acc
}

} // verus!
