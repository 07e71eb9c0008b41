//! The `"LaunchOptions"` entry of a VDF block: the text that
//! [`LAUNCH_OPTIONS_PATTERN`] matches, written out.
//!
//! An entry is the quoted key `"LaunchOptions"`, at least one whitespace
//! character, and a quoted value in which a backslash escapes the character
//! after it (any but a line break). The first entry of a text is the one that
//! starts leftmost; its start fixes the rest, since the whitespace run and the
//! value can each end in one place only.
use vstd::prelude::*;
use crate::text::{braceless, contains, is_ws, lemma_find_from_some, occurs_at};

verus! {

/// A `"LaunchOptions"` entry: the key, whitespace, and a quoted value whose
/// quotes may be escaped; capture group 1 is the value.
pub const LAUNCH_OPTIONS_PATTERN: &'static str = r#""LaunchOptions"\s+"((?:[^"\\]|\\.)*)""#;

/// The quoted key of a launch options entry.
pub const LAUNCH_OPTIONS_KEY: &'static str = "\"LaunchOptions\"";

/// The start of a `"LaunchOptions"` entry up to the opening quote of its value.
pub const LAUNCH_OPTIONS_HEAD: &'static str = "\"LaunchOptions\"\t\t\"";

/// The `"LaunchOptions"` entry with value `opts`.
pub open spec fn options_entry(opts: Seq<char>) -> Seq<char> {
    LAUNCH_OPTIONS_HEAD@ + opts + seq!['"']
}

/// Scanning a quoted value from index `i`: the index of the quote that ends
/// it. A backslash takes the character after it along unless that is a line
/// break; a lone backslash or the end of the text ends the scan with no value.
pub open spec fn value_end(t: Seq<char>, i: int) -> Option<int>
    decreases t.len() - i,
{
    if i < 0 || i >= t.len() {
        None
    } else if t[i] == '"' {
        Some(i)
    } else if t[i] == '\\' {
        if i + 1 < t.len() && t[i + 1] != '\n' {
            value_end(t, i + 2)
        } else {
            None
        }
    } else {
        value_end(t, i + 1)
    }
}

/// The index just past the run of whitespace that starts at `i`.
pub open spec fn ws_end(t: Seq<char>, i: int) -> int
    decreases t.len() - i,
{
    if 0 <= i < t.len() && is_ws(t[i]) {
        ws_end(t, i + 1)
    } else {
        i
    }
}

/// The entry that starts at `p`, if one does: where its value starts (after
/// the opening quote) and where it ends (at the closing quote).
pub open spec fn entry_at(t: Seq<char>, p: int) -> Option<(int, int)> {
    let k = LAUNCH_OPTIONS_KEY@.len() as int;
    let w = ws_end(t, p + k);
    if occurs_at(t, LAUNCH_OPTIONS_KEY@, p) && w > p + k && w < t.len() && t[w] == '"' {
        match value_end(t, w + 1) {
            Some(e) => Some((w + 1, e)),
            None => None,
        }
    } else {
        None
    }
}

/// The leftmost entry starting at or after `i`: its start and the bounds of
/// its value.
pub open spec fn first_entry_from(t: Seq<char>, i: int) -> Option<(int, int, int)>
    decreases t.len() + 1 - i,
{
    if i < 0 || i > t.len() {
        None
    } else {
        match entry_at(t, i) {
            Some((vs, ve)) => Some((i, vs, ve)),
            None => first_entry_from(t, i + 1),
        }
    }
}

/// The first entry of `t` as `(text before it, the entry, its value, text
/// after it)`: what `Regex::captures` gives for [`LAUNCH_OPTIONS_PATTERN`].
pub open spec fn launch_entry_captures(t: Seq<char>) -> Option<
    (Seq<char>, Seq<char>, Seq<char>, Seq<char>),
> {
    match first_entry_from(t, 0) {
        Some((p, vs, ve)) => Some(
            (t.take(p), t.subrange(p, ve + 1), t.subrange(vs, ve), t.skip(ve + 1)),
        ),
        None => None,
    }
}

/// `v`, written between quotes, reads back as a value that ends at the
/// closing quote.
pub open spec fn escaped_value(v: Seq<char>) -> bool {
    value_end(v + seq!['"'], 0) == Some(v.len() as int)
}

// ---------------------------------------------------------------------------
// Lemmas
// ---------------------------------------------------------------------------

/// The characters of the key and of the entry head.
pub proof fn lemma_key()
    ensures
        LAUNCH_OPTIONS_KEY@.len() == 15,
        LAUNCH_OPTIONS_KEY@[0] == '"',
        LAUNCH_OPTIONS_KEY@[1] == 'L',
        LAUNCH_OPTIONS_KEY@[13] == 's',
        LAUNCH_OPTIONS_KEY@[14] == '"',
        forall|k: int| 1 <= k < 14 ==> #[trigger] LAUNCH_OPTIONS_KEY@[k] != '"',
        forall|k: int| 0 <= k < 15 ==> !is_ws(#[trigger] LAUNCH_OPTIONS_KEY@[k]),
        braceless(LAUNCH_OPTIONS_KEY@),
        LAUNCH_OPTIONS_HEAD@ == LAUNCH_OPTIONS_KEY@ + seq!['\t', '\t', '"'],
{
    reveal_strlit("\"LaunchOptions\"");
    reveal_strlit("\"LaunchOptions\"\t\t\"");
    assert(LAUNCH_OPTIONS_HEAD@ =~= LAUNCH_OPTIONS_KEY@ + seq!['\t', '\t', '"']);
}

/// Where a value scan lands.
pub proof fn lemma_value_end_bounds(t: Seq<char>, i: int)
    ensures
        value_end(t, i) matches Some(k) ==> i <= k < t.len() && t[k] == '"',
    decreases t.len() - i,
{
    if 0 <= i < t.len() && t[i] != '"' {
        if t[i] == '\\' {
            if i + 1 < t.len() && t[i + 1] != '\n' {
                lemma_value_end_bounds(t, i + 2);
            }
        } else {
            lemma_value_end_bounds(t, i + 1);
        }
    }
}

/// Where an entry's value lies.
pub proof fn lemma_entry_bounds(t: Seq<char>, p: int)
    ensures
        entry_at(t, p) matches Some((vs, ve)) ==> 0 <= p && p + 15 < vs <= ve < t.len() && t[ve]
            == '"' && occurs_at(t, LAUNCH_OPTIONS_KEY@, p),
{
    lemma_key();
    let w = ws_end(t, p + 15);
    lemma_value_end_bounds(t, w + 1);
}

/// The first entry from `i` is an entry, and no entry starts before it.
pub proof fn lemma_first_entry(t: Seq<char>, i: int)
    requires
        0 <= i,
    ensures
        first_entry_from(t, i) matches Some((p, vs, ve)) ==> i <= p && entry_at(t, p) == Some(
            (vs, ve),
        ) && forall|q: int| i <= q < p ==> #[trigger] entry_at(t, q) is None,
        first_entry_from(t, i) is None ==> forall|q: int| i <= q ==> #[trigger] entry_at(t, q) is None,
    decreases t.len() + 1 - i,
{
    if i <= t.len() {
        lemma_first_entry(t, i + 1);
    } else {
        assert forall|q: int| i <= q implies #[trigger] entry_at(t, q) is None by {
            lemma_entry_bounds(t, q);
        }
    }
}

/// An entry at `p` with none between `i` and `p` is the first from `i`.
pub proof fn lemma_first_entry_at(t: Seq<char>, i: int, p: int)
    requires
        0 <= i <= p,
        forall|q: int| i <= q < p ==> #[trigger] entry_at(t, q) is None,
        entry_at(t, p) is Some,
    ensures
        entry_at(t, p) matches Some((vs, ve)) && first_entry_from(t, i) == Some((p, vs, ve)),
    decreases p - i,
{
    lemma_entry_bounds(t, p);
    if i < p {
        lemma_first_entry_at(t, i + 1, p);
    }
}

/// The first entry splits the text into what is before it, it, and what is
/// after it; its value lies inside it.
pub proof fn lemma_captures_split(t: Seq<char>)
    ensures
        launch_entry_captures(t) matches Some((a, m, g, z)) ==> t == a + m + z && (exists|
            i: int,
            j: int,
        | 0 <= i <= j <= m.len() && g == m.subrange(i, j)),
{
    lemma_first_entry(t, 0);
    if let Some((p, vs, ve)) = first_entry_from(t, 0) {
        lemma_entry_bounds(t, p);
        assert(t =~= t.take(p) + t.subrange(p, ve + 1) + t.skip(ve + 1));
        let m = t.subrange(p, ve + 1);
        assert(t.subrange(vs, ve) =~= m.subrange(vs - p, ve - p));
    }
}

/// A value scan over a copy of `u` placed at `off` lands where it lands in `u`.
pub proof fn lemma_value_end_shift(u: Seq<char>, t: Seq<char>, off: int, j: int)
    requires
        0 <= off,
        off + u.len() <= t.len(),
        t.subrange(off, off + u.len()) == u,
        0 <= j,
        value_end(u, j) is Some,
    ensures
        value_end(t, off + j) == Some(off + value_end(u, j)->0),
    decreases u.len() - j,
{
    assert(t[off + j] == t.subrange(off, off + u.len())[j]);
    if u[j] == '"' {
    } else if u[j] == '\\' {
        assert(t[off + j + 1] == t.subrange(off, off + u.len())[j + 1]);
        lemma_value_end_shift(u, t, off, j + 2);
    } else {
        lemma_value_end_shift(u, t, off, j + 1);
    }
}

/// A scan that crosses an escaped value `x` at the start of `t` reaches its
/// end as if it had started there.
proof fn lemma_value_end_skip(x: Seq<char>, t: Seq<char>, j: int)
    requires
        x.len() <= t.len(),
        t.take(x.len() as int) == x,
        0 <= j <= x.len(),
        value_end(x + seq!['"'], j) == Some(x.len() as int),
    ensures
        value_end(t, j) == value_end(t, x.len() as int),
    decreases x.len() - j,
{
    let u = x + seq!['"'];
    if j < x.len() {
        assert(u[j] == x[j]);
        assert(t[j] == t.take(x.len() as int)[j]);
        if x[j] == '\\' {
            if j + 1 == x.len() {
                assert(u[j + 1] == '"');
                assert(value_end(u, j + 2) is None);
                assert(false);
            } else {
                assert(u[j + 1] == x[j + 1]);
                assert(t[j + 1] == t.take(x.len() as int)[j + 1]);
            }
            lemma_value_end_skip(x, t, j + 2);
        } else {
            lemma_value_end_skip(x, t, j + 1);
        }
    }
}

/// Text without quotes and backslashes is an escaped value.
pub proof fn lemma_plain_escaped(v: Seq<char>)
    requires
        forall|k: int| 0 <= k < v.len() ==> #[trigger] v[k] != '"' && v[k] != '\\',
    ensures
        escaped_value(v),
{
    lemma_plain_scan(v, 0);
}

proof fn lemma_plain_scan(v: Seq<char>, i: int)
    requires
        0 <= i <= v.len(),
        forall|k: int| 0 <= k < v.len() ==> #[trigger] v[k] != '"' && v[k] != '\\',
    ensures
        value_end(v + seq!['"'], i) == Some(v.len() as int),
    decreases v.len() - i,
{
    let u = v + seq!['"'];
    if i < v.len() {
        assert(u[i] == v[i]);
        lemma_plain_scan(v, i + 1);
    } else {
        assert(u[v.len() as int] == '"');
    }
}

/// A backslash and a character other than a line break make an escaped value.
pub proof fn lemma_pair_escaped(c: char)
    requires
        c != '\n',
    ensures
        escaped_value(seq!['\\', c]),
{
    let u = seq!['\\', c] + seq!['"'];
    assert(u[0] == '\\' && u[1] == c && u[2] == '"');
    assert(value_end(u, 2) == Some(2int));
}

/// Escaped values stay escaped side by side.
pub proof fn lemma_escaped_concat(x: Seq<char>, y: Seq<char>)
    requires
        escaped_value(x),
        escaped_value(y),
    ensures
        escaped_value(x + y),
{
    let t = x + y + seq!['"'];
    assert(t.take(x.len() as int) =~= x);
    lemma_value_end_skip(x, t, 0);
    assert(t.subrange(x.len() as int, t.len() as int) =~= y + seq!['"']);
    lemma_value_end_shift(y + seq!['"'], t, x.len() as int, 0);
}

/// An entry written at `p` is found there, with its value.
pub proof fn lemma_entry_at_written(t: Seq<char>, p: int, v: Seq<char>)
    requires
        0 <= p,
        p + options_entry(v).len() <= t.len(),
        t.subrange(p, p + options_entry(v).len()) == options_entry(v),
        escaped_value(v),
    ensures
        entry_at(t, p) == Some((p + 18, p + 18 + v.len())),
{
    lemma_key();
    let e = options_entry(v);
    let key = LAUNCH_OPTIONS_KEY@;
    assert forall|k: int| 0 <= k < e.len() implies #[trigger] t[p + k] == e[k] by {
        assert(t.subrange(p, p + e.len())[k] == e[k]);
    }
    assert(e[15] == '\t' && e[16] == '\t' && e[17] == '"');
    assert(t.subrange(p, p + 15) =~= key) by {
        assert forall|k: int| 0 <= k < 15 implies #[trigger] t.subrange(p, p + 15)[k] == key[k] by {
            assert(t[p + k] == e[k]);
            assert(e[k] == key[k]);
        }
    }
    assert(t[p + 15] == '\t' && t[p + 16] == '\t' && t[p + 17] == '"');
    assert(ws_end(t, p + 17) == p + 17);
    assert(ws_end(t, p + 16) == p + 17);
    assert(ws_end(t, p + 15) == p + 17);
    let u = v + seq!['"'];
    assert(t.subrange(p + 18, p + 18 + u.len()) =~= u) by {
        assert forall|k: int| 0 <= k < u.len() implies #[trigger] t.subrange(
            p + 18,
            p + 18 + u.len(),
        )[k] == u[k] by {
            assert(t[p + 18 + k] == e[18 + k]);
        }
    }
    lemma_value_end_shift(u, t, p + 18, 0);
}

/// A whitespace run that meets a non-space at `n` is read the same in texts
/// that agree up to `n`.
proof fn lemma_ws_end_prefix(t1: Seq<char>, t2: Seq<char>, i: int, n: int)
    requires
        0 <= i <= n,
        n < t1.len(),
        n < t2.len(),
        t1.take(n + 1) == t2.take(n + 1),
        !is_ws(t1[n]),
    ensures
        ws_end(t1, i) == ws_end(t2, i),
        ws_end(t1, i) <= n,
    decreases n - i,
{
    assert(t1[i] == t1.take(n + 1)[i]);
    assert(t2[i] == t2.take(n + 1)[i]);
    if i < n && is_ws(t1[i]) {
        lemma_ws_end_prefix(t1, t2, i + 1, n);
    }
}

/// A value scan that meets an unescaped quote at `n` is read the same in texts
/// that agree up to `n`.
proof fn lemma_value_end_prefix(t1: Seq<char>, t2: Seq<char>, i: int, n: int)
    requires
        0 <= i <= n,
        1 <= n,
        n < t1.len(),
        n < t2.len(),
        t1.take(n + 1) == t2.take(n + 1),
        t1[n] == '"',
        t1[n - 1] != '\\',
    ensures
        value_end(t1, i) == value_end(t2, i),
    decreases n - i,
{
    assert(t1[i] == t1.take(n + 1)[i]);
    assert(t2[i] == t2.take(n + 1)[i]);
    if i < n && t1[i] != '"' {
        if t1[i] == '\\' {
            assert(i + 1 < n);
            assert(t1[i + 1] == t1.take(n + 1)[i + 1]);
            assert(t2[i + 1] == t2.take(n + 1)[i + 1]);
            lemma_value_end_prefix(t1, t2, i + 2, n);
        } else {
            lemma_value_end_prefix(t1, t2, i + 1, n);
        }
    }
}

/// Before a key at `p`, whether an entry starts depends only on the text up
/// to the end of that key.
pub proof fn lemma_entry_at_before_key(t1: Seq<char>, t2: Seq<char>, p: int, q: int)
    requires
        0 <= q < p,
        p + 15 <= t1.len(),
        p + 15 <= t2.len(),
        t1.take(p + 15) == t2.take(p + 15),
        occurs_at(t1, LAUNCH_OPTIONS_KEY@, p),
    ensures
        entry_at(t1, q) == entry_at(t2, q),
{
    lemma_key();
    let key = LAUNCH_OPTIONS_KEY@;
    assert forall|k: int| 0 <= k < p + 15 implies #[trigger] t1[k] == t2[k] by {
        assert(t1.take(p + 15)[k] == t1[k]);
        assert(t2.take(p + 15)[k] == t2[k]);
    }
    assert forall|k: int| 0 <= k < 15 implies #[trigger] t1[p + k] == key[k] by {
        assert(t1.subrange(p, p + 15)[k] == key[k]);
    }
    assert(t1.subrange(q, q + 15) =~= t2.subrange(q, q + 15));
    if occurs_at(t1, key, q) {
        assert forall|k: int| 0 <= k < 15 implies #[trigger] t1[q + k] == key[k] by {
            assert(t1.subrange(q, q + 15)[k] == key[k]);
        }
        if q + 15 > p {
            // The two keys overlap; only at their quotes can they.
            assert(t1[p] == key[p - q]);
            assert(p - q == 14);
            assert(t1[p + 1] == key[1]);
            assert(ws_end(t1, p + 1) == p + 1);
            assert(ws_end(t2, p + 1) == p + 1);
        } else {
            assert(t1[p] == '"');
            assert(t1.take(p + 1) =~= t2.take(p + 1));
            lemma_ws_end_prefix(t1, t2, q + 15, p);
            let w = ws_end(t1, q + 15);
            if w > q + 15 && t1[w] == '"' {
                assert(t1[p + 14] == key[14]);
                assert(t1[p + 13] == key[13]);
                assert(t1.take(p + 15) =~= t2.take(p + 15));
                lemma_value_end_prefix(t1, t2, w + 1, p + 14);
            }
        }
    }
}

/// Writing an entry in place of the first one makes it the first one.
pub proof fn lemma_captures_after_replace(t: Seq<char>, v: Seq<char>)
    requires
        launch_entry_captures(t) is Some,
        escaped_value(v),
    ensures
        ({
            let (a, m, g, z) = launch_entry_captures(t)->0;
            launch_entry_captures(a + options_entry(v) + z) == Some((a, options_entry(v), v, z))
        }),
{
    lemma_key();
    lemma_first_entry(t, 0);
    let (p, vs, ve) = first_entry_from(t, 0)->0;
    lemma_entry_bounds(t, p);
    let (a, m, g, z) = launch_entry_captures(t)->0;
    let e = options_entry(v);
    let t2 = a + e + z;
    assert(e.len() == 19 + v.len());
    assert(t2.take(p + 15) =~= t.take(p + 15)) by {
        assert forall|k: int| 0 <= k < p + 15 implies #[trigger] t2.take(p + 15)[k] == t.take(
            p + 15,
        )[k] by {
            if k >= p {
                assert(t2[k] == e[k - p]);
                assert(e[k - p] == LAUNCH_OPTIONS_KEY@[k - p]);
                assert(t.subrange(p, p + 15)[k - p] == t[k]);
            }
        }
    }
    assert forall|q: int| 0 <= q < p implies #[trigger] entry_at(t2, q) is None by {
        lemma_entry_at_before_key(t, t2, p, q);
    }
    assert(t2.subrange(p, p + e.len()) =~= e);
    lemma_entry_at_written(t2, p, v);
    lemma_first_entry_at(t2, 0, p);
    assert(t2.take(p) =~= a);
    assert(t2.subrange(p, p + 18 + v.len() + 1) =~= e);
    assert(t2.subrange(p + 18, p + 18 + v.len()) =~= v) by {
        assert forall|k: int| 0 <= k < v.len() implies #[trigger] t2.subrange(
            p + 18,
            p + 18 + v.len(),
        )[k] == v[k] by {
            assert(t2[p + 18 + k] == e[18 + k]);
        }
    }
    assert(t2.skip(p + 18 + v.len() + 1) =~= z);
}

/// After a text without the key and some whitespace, an entry written there
/// is the first one.
pub proof fn lemma_captures_after_ws(b: Seq<char>, x: Seq<char>, v: Seq<char>, y: Seq<char>)
    requires
        !contains(b, LAUNCH_OPTIONS_KEY@),
        x.len() > 0,
        forall|k: int| 0 <= k < x.len() ==> is_ws(#[trigger] x[k]),
        escaped_value(v),
    ensures
        launch_entry_captures(b + x + options_entry(v) + y) == Some(
            (b + x, options_entry(v), v, y),
        ),
{
    lemma_key();
    let key = LAUNCH_OPTIONS_KEY@;
    let e = options_entry(v);
    let t = b + x + e + y;
    let p = (b.len() + x.len()) as int;
    assert forall|q: int| 0 <= q < p implies #[trigger] entry_at(t, q) is None by {
        if occurs_at(t, key, q) {
            if q + 15 <= b.len() {
                assert(b.subrange(q, q + 15) =~= t.subrange(q, q + 15));
                lemma_find_from_some(b, key, 0, q);
            } else {
                let k = if q >= b.len() {
                    q
                } else {
                    b.len() as int
                };
                assert(t[k] == x[k - b.len()]);
                assert(t.subrange(q, q + 15)[k - q] == t[k]);
                assert(key[k - q] == t[k]);
            }
        }
    }
    assert(t.subrange(p, p + e.len()) =~= e);
    lemma_entry_at_written(t, p, v);
    lemma_first_entry_at(t, 0, p);
    assert(t.take(p) =~= b + x);
    assert(t.subrange(p, p + 18 + v.len() + 1) =~= e);
    assert(t.subrange(p + 18, p + 18 + v.len()) =~= v) by {
        assert forall|k: int| 0 <= k < v.len() implies #[trigger] t.subrange(
            p + 18,
            p + 18 + v.len(),
        )[k] == v[k] by {
            assert(t[p + 18 + k] == e[18 + k]);
        }
    }
    assert(t.skip(p + 18 + v.len() + 1) =~= y);
}

/// The characters of a whitespace run are whitespace.
proof fn lemma_ws_end_run(t: Seq<char>, i: int)
    requires
        0 <= i,
    ensures
        i <= ws_end(t, i),
        forall|k: int| i <= k < ws_end(t, i) ==> is_ws(#[trigger] t[k]),
    decreases t.len() - i,
{
    if 0 <= i < t.len() && is_ws(t[i]) {
        lemma_ws_end_run(t, i + 1);
    }
}

/// The first entry is a brace-free head (the key, whitespace and the opening
/// quote), the value, and the closing quote.
pub proof fn lemma_entry_head(t: Seq<char>) -> (h: Seq<char>)
    requires
        launch_entry_captures(t) is Some,
    ensures
        launch_entry_captures(t) matches Some((_, m, g, _)) && m == h + g + seq!['"'],
        braceless(h),
{
    lemma_key();
    lemma_first_entry(t, 0);
    let (p, vs, ve) = first_entry_from(t, 0)->0;
    lemma_entry_bounds(t, p);
    let w = ws_end(t, p + 15);
    lemma_ws_end_run(t, p + 15);
    let h = t.subrange(p, vs);
    assert forall|k: int| 0 <= k < h.len() implies #[trigger] h[k] != '{' && h[k] != '}' by {
        assert(h[k] == t[p + k]);
        if k < 15 {
            assert(t.subrange(p, p + 15)[k] == t[p + k]);
            assert(LAUNCH_OPTIONS_KEY@[k] != '{' && LAUNCH_OPTIONS_KEY@[k] != '}');
        } else if p + k < w {
            assert(is_ws(t[p + k]));
        }
    }
    assert(t.subrange(p, ve + 1) =~= h + t.subrange(vs, ve) + seq!['"']);
    h
}

} // verus!
