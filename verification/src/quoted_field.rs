//! A `"key"  "value"` field of Valve's text formats (app manifests, the
//! library list), as the patterns `"<key>"\s+"([^"]+)"` find it: the quoted
//! key, at least one whitespace character, and a quoted value of at least one
//! character that holds no quote.
use vstd::prelude::*;
use crate::text::occurs_at;
use crate::launch_options::ws_end;
use crate::vdf::quoted;

verus! {

/// The index of the first quote at or after `i`.
pub open spec fn quote_from(t: Seq<char>, i: int) -> Option<int>
    decreases t.len() - i,
{
    if i < 0 || i >= t.len() {
        None
    } else if t[i] == '"' {
        Some(i)
    } else {
        quote_from(t, i + 1)
    }
}

/// The field `key` that starts at `p`, if one does: where its value starts
/// (after the opening quote) and the quote that ends it.
pub open spec fn field_at(t: Seq<char>, key: Seq<char>, p: int) -> Option<(int, int)> {
    let k = quoted(key).len() as int;
    let w = ws_end(t, p + k);
    if occurs_at(t, quoted(key), p) && w > p + k && w < t.len() && t[w] == '"' {
        match quote_from(t, w + 1) {
            Some(e) => if e > w + 1 {
                Some((w + 1, e))
            } else {
                None
            },
            None => None,
        }
    } else {
        None
    }
}

/// The leftmost field `key` starting at or after `i`: its start and the
/// bounds of its value.
pub open spec fn first_field_from(t: Seq<char>, key: Seq<char>, i: int) -> Option<(int, int, int)>
    decreases t.len() + 1 - i,
{
    if i < 0 || i > t.len() {
        None
    } else {
        match field_at(t, key, i) {
            Some((vs, ve)) => Some((i, vs, ve)),
            None => first_field_from(t, key, i + 1),
        }
    }
}

/// The first field `key` of `t` as `(text before it, the field, its value,
/// text after it)`: what `Regex::captures` gives for its pattern.
pub open spec fn field_captures(t: Seq<char>, key: Seq<char>) -> Option<
    (Seq<char>, Seq<char>, Seq<char>, Seq<char>),
> {
    match first_field_from(t, key, 0) {
        Some((p, vs, ve)) => Some(
            (t.take(p), t.subrange(p, ve + 1), t.subrange(vs, ve), t.skip(ve + 1)),
        ),
        None => None,
    }
}

/// The values of the fields `key` from `i` on, each search resuming after
/// the field before: what `Regex::captures_iter` gives for its pattern. (A
/// field found from `i` always ends after `i` and inside the text; the test of
/// that only lets the recursion be seen to end.)
pub open spec fn field_values_from(t: Seq<char>, key: Seq<char>, i: int) -> Seq<Seq<char>>
    decreases t.len() + 1 - i,
{
    match first_field_from(t, key, i) {
        Some((p, vs, ve)) => if i < ve + 1 <= t.len() {
            seq![t.subrange(vs, ve)] + field_values_from(t, key, ve + 1)
        } else {
            Seq::empty()
        },
        None => Seq::empty(),
    }
}

/// The values of all fields `key` of `t`, in order.
pub open spec fn field_values(t: Seq<char>, key: Seq<char>) -> Seq<Seq<char>> {
    field_values_from(t, key, 0)
}

} // verus!
