//! Facts about where an app's block lies after the text around it changes,
//! and about what cleaning does to injected launch options. They back the
//! postconditions of `inject_launch_option_into_vdf` and the proof that
//! removing the override undoes injecting it.
use vstd::prelude::*;
use crate::text::{
    braceless, contains, find_from, lemma_contains_concat, lemma_contains_len,
    lemma_contains_prefix, lemma_contains_self, lemma_contains_subrange, lemma_contains_trans, lemma_find_from,
    lemma_find_from_prefix, lemma_find_from_some, lemma_no_straddle, lemma_remove_all_absent,
    lemma_remove_all_prefix, lemma_trim_fixed, lemma_trim_subrange, lemma_trim_ws_around, no_ws,
    occurs_at, trim,
};
use crate::vdf::{
    cleaned_entry, emptied_app_block, entry_replaced, injected, override_removed, restored_entry,
    app_block_range, cleaned_options, close_brace_from, combined_options, new_app_block,
    new_option_line, quoted, splice, COMMAND_PLACEHOLDER, COMMAND_SUFFIX, EMPTIED_OPTION_LINE,
    NEW_OPTION_HEAD, NEW_OPTION_TAIL, OVERRIDE_ESCAPED, OVERRIDE_MARKER, OVERRIDE_PLAIN,
    PROTON_OVERRIDE_STR,
};
use crate::launch_options::{
    escaped_value, launch_entry_captures, lemma_captures_after_replace, lemma_captures_after_ws,
    lemma_captures_split, lemma_escaped_concat, lemma_key, lemma_pair_escaped,
    lemma_plain_escaped, options_entry, LAUNCH_OPTIONS_HEAD, LAUNCH_OPTIONS_KEY,
};

verus! {

/// Scanning two texts that agree from `i` and `j` onwards gives the same
/// closing brace, shifted.
proof fn lemma_close_shift(s: Seq<char>, t: Seq<char>, i: int, j: int, d: int)
    requires
        0 <= i <= s.len(),
        0 <= j <= t.len(),
        s.skip(i) == t.skip(j),
    ensures
        close_brace_from(s, i, d) matches Some(c) ==> close_brace_from(t, j, d) == Some(c - i + j),
        close_brace_from(s, i, d) is None ==> close_brace_from(t, j, d) is None,
    decreases s.len() - i,
{
    assert(s.skip(i).len() == t.skip(j).len());
    assert(s.skip(i).len() == s.len() - i);
    assert(t.skip(j).len() == t.len() - j);
    if i < s.len() {
        assert(s[i] == s.skip(i)[0]);
        assert(t[j] == t.skip(j)[0]);
        assert(s.skip(i + 1) =~= s.skip(i).drop_first());
        assert(t.skip(j + 1) =~= t.skip(j).drop_first());
        if s[i] == '{' {
            lemma_close_shift(s, t, i + 1, j + 1, d + 1);
        } else if s[i] == '}' {
            if d - 1 != 0 {
                lemma_close_shift(s, t, i + 1, j + 1, d - 1);
            }
        } else {
            lemma_close_shift(s, t, i + 1, j + 1, d);
        }
    }
}

/// Characters that are not braces do not change the scan.
proof fn lemma_close_braceless(s: Seq<char>, i: int, j: int, d: int)
    requires
        0 <= i <= j <= s.len(),
        braceless(s.subrange(i, j)),
    ensures
        close_brace_from(s, i, d) == close_brace_from(s, j, d),
    decreases j - i,
{
    if i < j {
        assert(s.subrange(i, j)[0] == s[i]);
        assert(braceless(s.subrange(i + 1, j))) by {
            assert forall|k: int| 0 <= k < j - (i + 1) implies #[trigger] s.subrange(i + 1, j)[k]
                != '{' && s.subrange(i + 1, j)[k] != '}' by {
                assert(s.subrange(i + 1, j)[k] == s.subrange(i, j)[k + 1]);
            }
        }
        lemma_close_braceless(s, i + 1, j, d);
    }
}

/// Two texts that agree up to `a`, scanned from `i <= a`, reach `a` with the
/// same depth, provided the scan of the first does not close before `a`.
proof fn lemma_close_prefix(s: Seq<char>, t: Seq<char>, i: int, d: int, a: int) -> (da: int)
    requires
        0 <= i <= a <= s.len(),
        a <= t.len(),
        s.take(a) == t.take(a),
        close_brace_from(s, i, d) matches Some(c) && c >= a,
    ensures
        close_brace_from(s, i, d) == close_brace_from(s, a, da),
        close_brace_from(t, i, d) == close_brace_from(t, a, da),
    decreases a - i,
{
    if i == a {
        d
    } else {
        assert(s[i] == s.take(a)[i]);
        assert(t[i] == t.take(a)[i]);
        if s[i] == '{' {
            lemma_close_prefix(s, t, i + 1, d + 1, a)
        } else if s[i] == '}' {
            lemma_close_prefix(s, t, i + 1, d - 1, a)
        } else {
            lemma_close_prefix(s, t, i + 1, d, a)
        }
    }
}

/// Replacing a brace-free part of an app's block by brace-free text leaves
/// the block where it was, with its end moved by the change in length.
pub(crate) proof fn lemma_block_after_splice(
    s: Seq<char>,
    appid: Seq<char>,
    a: int,
    b: int,
    x: int,
    y: int,
    t: Seq<char>,
)
    requires
        app_block_range(s, appid) == Some((a, b)),
        a <= x <= y <= b,
        braceless(s.subrange(x, y)),
        braceless(t),
    ensures
        app_block_range(splice(s, x, y, t), appid) == Some((a, b - (y - x) + t.len())),
        splice(s, x, y, t).subrange(a, b - (y - x) + t.len()) == s.subrange(a, x) + t
            + s.subrange(y, b),
{
    let key = quoted(appid);
    let s2 = splice(s, x, y, t);
    lemma_find_from(s, key, 0);
    let kp = find_from(s, key, 0)->0;
    lemma_find_from(s, seq!['{'], kp + key.len());
    let ob = find_from(s, seq!['{'], kp + key.len())->0;
    crate::vdf::lemma_close_brace_bounds(s, ob, 0);
    assert(ob == a - 1);
    assert(s2.take(x) =~= s.take(x));
    assert(s2.take(kp + key.len()) =~= s.take(kp + key.len())) by {
        assert(s2.take(kp + key.len()) =~= s2.take(x).take(kp + key.len()));
        assert(s.take(kp + key.len()) =~= s.take(x).take(kp + key.len()));
    }
    lemma_find_from_prefix(s, s2, key, 0, kp);
    assert(s2.take(ob + 1) =~= s.take(ob + 1)) by {
        assert(s2.take(ob + 1) =~= s2.take(x).take(ob + 1));
        assert(s.take(ob + 1) =~= s.take(x).take(ob + 1));
    }
    lemma_find_from_prefix(s, s2, seq!['{'], kp + key.len(), ob);
    let dx = lemma_close_prefix(s, s2, ob, 0, x);
    lemma_close_braceless(s, x, y, dx);
    assert(s2.subrange(x, x + t.len()) =~= t);
    lemma_close_braceless(s2, x, x + t.len(), dx);
    assert(s2.skip(x + t.len()) =~= s.skip(y));
    lemma_close_shift(s, s2, y, x + t.len(), dx);
    assert(s2.subrange(a, b - (y - x) + t.len()) =~= s.subrange(a, x) + t + s.subrange(y, b));
}

/// The line appended for launch options has no braces when the override
/// has none.
pub(crate) proof fn lemma_new_option_line_braceless(ov: Seq<char>)
    requires
        braceless(ov),
    ensures
        braceless(new_option_line(ov)),
{
    reveal_strlit("\n\t\t\t\t\t\"LaunchOptions\"\t\t\"");
    reveal_strlit(" %command%\"\n\t\t\t\t");
    assert(NEW_OPTION_HEAD@ == "\n\t\t\t\t\t\"LaunchOptions\"\t\t\""@);
    assert(NEW_OPTION_TAIL@ == " %command%\"\n\t\t\t\t"@);
    let l = new_option_line(ov);
    let h = NEW_OPTION_HEAD@;
    assert forall|k: int| 0 <= k < l.len() implies #[trigger] l[k] != '{' && l[k] != '}' by {
        if k < h.len() {
            assert(l[k] == h[k]);
        } else if k < h.len() + ov.len() {
            assert(l[k] == ov[k - h.len()]);
        } else {
            assert(l[k] == NEW_OPTION_TAIL@[k - h.len() - ov.len()]);
        }
    }
}

/// Inserting the block of an app that has none, right after the `{` that
/// opens `"apps"`, gives a text in which the app's block is exactly the new
/// launch options line.
#[verifier::spinoff_prover]
#[verifier::rlimit(40)]
pub(crate) proof fn lemma_new_app_block(s: Seq<char>, appid: Seq<char>, ov: Seq<char>, ob: int)
    requires
        0 <= ob < s.len(),
        s[ob] == '{',
        !contains(s, quoted(appid)),
        !appid.contains('{'),
        braceless(ov),
    ensures
        ({
            let s2 = splice(s, ob + 1, ob + 1, new_app_block(appid, ov));
            let a = ob + 12 + quoted(appid).len();
            let b = a + new_option_line(ov).len();
            &&& app_block_range(s2, appid) == Some((a, b))
            &&& s2.subrange(a, b) == new_option_line(ov)
        }),
{
    let key = quoted(appid);
    let kl = key.len() as int;
    let nb = new_app_block(appid, ov);
    let nol = new_option_line(ov);
    let s2 = splice(s, ob + 1, ob + 1, nb);
    let p = ob + 1;
    assert(s2.take(p) =~= s.take(p));
    assert(s2.subrange(p, p + nb.len()) =~= nb);
    assert forall|k: int| 0 <= k < nb.len() implies s2[p + k] == #[trigger] nb[k] by {
        assert(s2.subrange(p, p + nb.len())[k] == nb[k]);
    }
    // The key's first occurrence in the new text is the inserted one.
    assert(nb.subrange(5, 5 + kl) =~= key);
    assert(occurs_at(s2, key, p + 5)) by {
        assert(s2.subrange(p + 5, p + 5 + kl) =~= nb.subrange(5, 5 + kl)) by {
            assert forall|m: int| 0 <= m < kl implies #[trigger] s2.subrange(p + 5, p + 5 + kl)[m]
                == nb.subrange(5, 5 + kl)[m] by {
                assert(s2[p + 5 + m] == nb[5 + m]);
            }
        }
    }
    lemma_find_from(s, key, 0);
    assert forall|j: int| 0 <= j < p + 5 implies !occurs_at(s2, key, j) by {
        if occurs_at(s2, key, j) {
            if j + kl <= p {
                assert(s2.subrange(j, j + kl) =~= s.subrange(j, j + kl)) by {
                    assert forall|m: int| 0 <= m < kl implies #[trigger] s2.subrange(j, j + kl)[m]
                        == s.subrange(j, j + kl)[m] by {
                        assert(s2.take(p)[j + m] == s.take(p)[j + m]);
                    }
                }
                assert(occurs_at(s, key, j));
            } else if j < p {
                // The window covers the `{` at `ob`.
                assert(s2[ob] == s.take(p)[ob]);
                assert(s2.subrange(j, j + kl)[ob - j] == '{');
                assert(key[ob - j] == '{');
                if ob - j == 0 || ob - j == kl - 1 {
                } else {
                    assert(appid[ob - j - 1] == key[ob - j]);
                }
            } else {
                assert(s2.subrange(j, j + kl)[0] == s2[j]);
                assert(s2[j] == nb[j - p]);
            }
        }
    }
    lemma_find_from_some(s2, key, 0, p + 5);
    lemma_find_from(s2, key, 0);
    let kp = p + 5;
    assert(find_from(s2, key, 0) == Some(kp));
    // The opening brace of the new block.
    let q = kp + kl + 5;
    assert(s2[q] == nb[10 + kl]);
    assert(occurs_at(s2, seq!['{'], q)) by {
        assert(s2.subrange(q, q + 1) =~= seq!['{']);
    }
    assert forall|j: int| kp + kl <= j < q implies !occurs_at(s2, seq!['{'], j) by {
        assert(s2.subrange(j, j + 1)[0] == s2[j]);
        assert(s2[j] == nb[j - p]);
    }
    lemma_find_from_some(s2, seq!['{'], kp + kl, q);
    lemma_find_from(s2, seq!['{'], kp + kl);
    assert(find_from(s2, seq!['{'], kp + kl) == Some(q));
    // Its closing brace.
    lemma_new_option_line_braceless(ov);
    assert(s2.subrange(q + 1, q + 1 + nol.len()) =~= nol) by {
        assert forall|m: int| 0 <= m < nol.len() implies #[trigger] s2.subrange(
            q + 1,
            q + 1 + nol.len(),
        )[m] == nol[m] by {
            assert(s2[q + 1 + m] == nb[11 + kl + m]);
        }
    }
    lemma_close_braceless(s2, q + 1, q + 1 + nol.len(), 1);
    assert(s2[q + 1 + nol.len()] == nb[11 + kl + nol.len() as int]);
    assert(close_brace_from(s2, q, 0) == close_brace_from(s2, q + 1, 1));
    assert(close_brace_from(s2, q + 1 + nol.len(), 1) == Some(q + 1 + nol.len()));
}

/// A text is free of braces when its parts are.
proof fn lemma_plain_concat(x: Seq<char>, y: Seq<char>)
    requires
        braceless(x),
        braceless(y),
    ensures
        braceless(x + y),
{
    assert forall|k: int| 0 <= k < (x + y).len() implies #[trigger] (x + y)[k] != '{' && (x
        + y)[k] != '}' by {
        if k < x.len() {
            assert((x + y)[k] == x[k]);
        } else {
            assert((x + y)[k] == y[k - x.len()]);
        }
    }
}

proof fn lemma_literal_plain(l: Seq<char>)
    requires
        forall|k: int| 0 <= k < l.len() ==> l[k] != '{' && l[k] != '}',
    ensures
        braceless(l),
{
}

/// The line appended for launch options holds the override.
pub(crate) proof fn lemma_new_option_line_contains(ov: Seq<char>)
    ensures
        contains(new_option_line(ov), ov),
{
    let h = NEW_OPTION_HEAD@;
    assert((ov + NEW_OPTION_TAIL@).take(ov.len() as int) =~= ov);
    lemma_contains_prefix(ov + NEW_OPTION_TAIL@, ov);
    lemma_contains_concat(h, ov + NEW_OPTION_TAIL@, ov);
    assert(h + (ov + NEW_OPTION_TAIL@) =~= new_option_line(ov));
}

/// Appending the launch options line to an app's block leaves the block in
/// place, now holding `ov`.
pub(crate) proof fn lemma_inject_appended(s: Seq<char>, appid: Seq<char>, ov: Seq<char>, a: int, b: int)
    requires
        app_block_range(s, appid) == Some((a, b)),
        braceless(ov),
    ensures
        ({
            let r = splice(s, a, b, s.subrange(a, b) + new_option_line(ov));
            let e = b + new_option_line(ov).len();
            &&& app_block_range(r, appid) == Some((a, e))
            &&& r.subrange(a, e) == s.subrange(a, b) + new_option_line(ov)
            &&& contains(r.subrange(a, e), ov)
        }),
{
    crate::vdf::lemma_block_range_bounds(s, appid);
    lemma_new_option_line_braceless(ov);
    let l = new_option_line(ov);
    assert(splice(s, a, b, s.subrange(a, b) + l) =~= splice(s, b, b, l));
    assert(s.subrange(b, b) =~= Seq::<char>::empty());
    lemma_block_after_splice(s, appid, a, b, b, b, l);
    let r = splice(s, b, b, l);
    assert(r.subrange(a, b + l.len()) =~= s.subrange(a, b) + l);
    lemma_new_option_line_contains(ov);
    lemma_contains_concat(s.subrange(a, b), l, ov);
}

/// When the app's block holds `ov`, it holds whatever `ov` holds.
pub(crate) proof fn lemma_marker_in_block(r: Seq<char>, appid: Seq<char>, ov: Seq<char>)
    requires
        app_block_range(r, appid) matches Some((a2, b2)) && contains(r.subrange(a2, b2), ov),
    ensures
        contains(ov, crate::vdf::OVERRIDE_MARKER@) ==> (app_block_range(r, appid) matches Some(
            (a2, b2),
        ) && contains(r.subrange(a2, b2), crate::vdf::OVERRIDE_MARKER@)),
{
    if contains(ov, crate::vdf::OVERRIDE_MARKER@) {
        let (a2, b2) = app_block_range(r, appid)->0;
        lemma_contains_trans(r.subrange(a2, b2), ov, crate::vdf::OVERRIDE_MARKER@);
    }
}

/// The characters of the override texts.
pub(crate) proof fn lemma_override_literals()
    ensures
        OVERRIDE_MARKER@.len() == 17,
        !OVERRIDE_MARKER@.contains(' '),
        PROTON_OVERRIDE_STR@.len() == 50,
        PROTON_OVERRIDE_STR@.take(17) == OVERRIDE_MARKER@,
        OVERRIDE_PLAIN@.len() == 48,
        OVERRIDE_PLAIN@.take(17) == OVERRIDE_MARKER@,
        OVERRIDE_ESCAPED@ == PROTON_OVERRIDE_STR@,
        braceless(PROTON_OVERRIDE_STR@),
        escaped_value(PROTON_OVERRIDE_STR@),
{
    reveal_strlit("WINEDLLOVERRIDES=");
    reveal_strlit("WINEDLLOVERRIDES=\\\"steam_api64=n,b;steam_api=n,b\\\"");
    reveal_strlit("WINEDLLOVERRIDES=\"steam_api64=n,b;steam_api=n,b\"");
    reveal_strlit("steam_api64=n,b;steam_api=n,b");
    let p = PROTON_OVERRIDE_STR@;
    let mk = OVERRIDE_MARKER@;
    let mid = "steam_api64=n,b;steam_api=n,b"@;
    assert(p =~= "WINEDLLOVERRIDES=\\\"steam_api64=n,b;steam_api=n,b\\\""@);
    assert(OVERRIDE_ESCAPED@ =~= p);
    assert(p.take(17) =~= mk);
    assert(OVERRIDE_PLAIN@.take(17) =~= mk);
    assert(p =~= mk + seq!['\\', '"'] + mid + seq!['\\', '"']);
    lemma_plain_escaped(mk);
    lemma_plain_escaped(mid);
    lemma_pair_escaped('"');
    lemma_escaped_concat(mk, seq!['\\', '"']);
    lemma_escaped_concat(mk + seq!['\\', '"'], mid);
    lemma_escaped_concat(mk + seq!['\\', '"'] + mid, seq!['\\', '"']);
    lemma_literal_plain(p);
}

/// The characters of the launch options pieces.
pub(crate) proof fn lemma_option_literals()
    ensures
        COMMAND_PLACEHOLDER@.len() == 9,
        no_ws(COMMAND_PLACEHOLDER@),
        !COMMAND_PLACEHOLDER@.contains(' '),
        COMMAND_SUFFIX@ == seq![' '] + COMMAND_PLACEHOLDER@,
        escaped_value(COMMAND_SUFFIX@),
        escaped_value(seq![' ']),
        braceless(COMMAND_SUFFIX@),
        braceless(LAUNCH_OPTIONS_HEAD@),
        NEW_OPTION_HEAD@ == seq!['\n', '\t', '\t', '\t', '\t', '\t'] + LAUNCH_OPTIONS_HEAD@,
        NEW_OPTION_TAIL@ == COMMAND_SUFFIX@ + seq!['"'] + seq!['\n', '\t', '\t', '\t', '\t'],
        EMPTIED_OPTION_LINE@ == seq!['\n', '\t', '\t', '\t', '\t', '\t'] + seq![
            '\n',
            '\t',
            '\t',
            '\t',
            '\t',
        ],
{
    reveal_strlit("%command%");
    reveal_strlit(" %command%");
    reveal_strlit("\"LaunchOptions\"\t\t\"");
    reveal_strlit("\n\t\t\t\t\t\"LaunchOptions\"\t\t\"");
    reveal_strlit(" %command%\"\n\t\t\t\t");
    reveal_strlit("\n\t\t\t\t\t\n\t\t\t\t");
    let cmd = COMMAND_PLACEHOLDER@;
    let cs = COMMAND_SUFFIX@;
    assert(cs =~= seq![' '] + cmd);
    assert(NEW_OPTION_HEAD@ =~= seq!['\n', '\t', '\t', '\t', '\t', '\t'] + LAUNCH_OPTIONS_HEAD@);
    assert(NEW_OPTION_TAIL@ =~= cs + seq!['"'] + seq!['\n', '\t', '\t', '\t', '\t']);
    assert(EMPTIED_OPTION_LINE@ =~= seq!['\n', '\t', '\t', '\t', '\t', '\t'] + seq![
        '\n',
        '\t',
        '\t',
        '\t',
        '\t',
    ]);
    lemma_plain_escaped(cs);
    lemma_plain_escaped(seq![' ']);
    lemma_literal_plain(cs);
    lemma_literal_plain(LAUNCH_OPTIONS_HEAD@);
    if cmd.contains(' ') {
        let k = choose|k: int| 0 <= k < cmd.len() && cmd[k] == ' ';
    }
}

/// Removal of the override spellings leaves a text without the marker alone.
proof fn lemma_clean_unmarked(x: Seq<char>)
    requires
        !contains(x, OVERRIDE_MARKER@),
    ensures
        cleaned_options(x, PROTON_OVERRIDE_STR@) == trim(x),
{
    lemma_override_literals();
    let mk = OVERRIDE_MARKER@;
    let p = PROTON_OVERRIDE_STR@;
    lemma_contains_prefix(p, mk);
    lemma_contains_prefix(OVERRIDE_PLAIN@, mk);
    if contains(x, p) {
        lemma_contains_trans(x, p, mk);
    }
    if contains(x, OVERRIDE_PLAIN@) {
        lemma_contains_trans(x, OVERRIDE_PLAIN@, mk);
    }
    lemma_remove_all_absent(x, p);
    lemma_remove_all_absent(x, OVERRIDE_PLAIN@);
}

/// Trimming a space and `%command%` leaves `%command%`.
proof fn lemma_trim_suffix()
    ensures
        trim(COMMAND_SUFFIX@) == COMMAND_PLACEHOLDER@,
{
    lemma_option_literals();
    let cmd = COMMAND_PLACEHOLDER@;
    lemma_trim_ws_around(seq![' '], cmd, Seq::<char>::empty());
    assert(seq![' '] + cmd + Seq::<char>::empty() =~= COMMAND_SUFFIX@);
    lemma_trim_fixed(cmd);
}

/// Launch options that were only the override and `%command%` clean to
/// `%command%`.
pub(crate) proof fn lemma_cleaned_fresh()
    ensures
        cleaned_options(PROTON_OVERRIDE_STR@ + COMMAND_SUFFIX@, PROTON_OVERRIDE_STR@)
            == COMMAND_PLACEHOLDER@,
{
    lemma_override_literals();
    lemma_option_literals();
    let p = PROTON_OVERRIDE_STR@;
    let cs = COMMAND_SUFFIX@;
    lemma_remove_all_prefix(p, cs);
    if contains(cs, OVERRIDE_MARKER@) {
        lemma_contains_len(cs, OVERRIDE_MARKER@);
    }
    lemma_clean_unmarked(cs);
    assert(cleaned_options(p + cs, p) == cleaned_options(cs, p));
    lemma_trim_suffix();
}

/// Launch options with the override put in front clean to the old options,
/// trimmed, with `%command%` at the end when they lacked it (just `%command%`
/// when they were empty).
pub(crate) proof fn lemma_cleaned_combined(g: Seq<char>)
    requires
        !contains(g, OVERRIDE_MARKER@),
    ensures
        cleaned_options(combined_options(g, PROTON_OVERRIDE_STR@), PROTON_OVERRIDE_STR@) == (if trim(
            g,
        ).len() == 0 {
            COMMAND_PLACEHOLDER@
        } else if contains(trim(g), COMMAND_PLACEHOLDER@) {
            trim(g)
        } else {
            trim(g) + COMMAND_SUFFIX@
        }),
{
    lemma_override_literals();
    lemma_option_literals();
    let p = PROTON_OVERRIDE_STR@;
    let mk = OVERRIDE_MARKER@;
    let cmd = COMMAND_PLACEHOLDER@;
    let cs = COMMAND_SUFFIX@;
    let (i, j) = lemma_trim_subrange(g);
    let t = trim(g);
    if contains(t, mk) {
        lemma_contains_subrange(g, i, j, mk);
    }
    let c = combined_options(g, p);
    if contains(cmd, mk) {
        lemma_contains_len(cmd, mk);
    }
    if contains(Seq::<char>::empty(), mk) {
        lemma_contains_len(Seq::<char>::empty(), mk);
    }
    if t.len() == 0 {
        lemma_cleaned_fresh();
    } else if contains(t, cmd) {
        let rest = seq![' '] + t;
        assert(c =~= p + rest);
        lemma_remove_all_prefix(p, rest);
        assert(rest =~= Seq::<char>::empty() + seq![' '] + t);
        lemma_no_straddle(Seq::<char>::empty(), ' ', t, mk);
        lemma_clean_unmarked(rest);
        lemma_trim_ws_around(seq![' '], t, Seq::<char>::empty());
        assert(seq![' '] + t + Seq::<char>::empty() =~= rest);
        lemma_trim_fixed(t);
    } else {
        let rest = seq![' '] + t + cs;
        assert(c =~= p + rest);
        lemma_remove_all_prefix(p, rest);
        assert(seq![' '] + t =~= Seq::<char>::empty() + seq![' '] + t);
        lemma_no_straddle(Seq::<char>::empty(), ' ', t, mk);
        assert(rest =~= (seq![' '] + t) + seq![' '] + cmd);
        lemma_no_straddle(seq![' '] + t, ' ', cmd, mk);
        lemma_clean_unmarked(rest);
        lemma_trim_ws_around(seq![' '], t + cs, Seq::<char>::empty());
        assert(seq![' '] + (t + cs) + Seq::<char>::empty() =~= rest);
        lemma_trim_fixed(t);
        assert((t + cs)[0] == t[0]);
        assert((t + cs).last() == cmd.last());
        lemma_trim_fixed(t + cs);
    }
}

/// The added launch options line is whitespace, the entry, and whitespace.
proof fn lemma_new_option_line_parts()
    ensures
        new_option_line(PROTON_OVERRIDE_STR@) == seq!['\n', '\t', '\t', '\t', '\t', '\t'] + options_entry(
            PROTON_OVERRIDE_STR@ + COMMAND_SUFFIX@,
        ) + seq!['\n', '\t', '\t', '\t', '\t'],
        escaped_value(PROTON_OVERRIDE_STR@ + COMMAND_SUFFIX@),
{
    lemma_option_literals();
    lemma_override_literals();
    lemma_escaped_concat(PROTON_OVERRIDE_STR@, COMMAND_SUFFIX@);
    assert(new_option_line(PROTON_OVERRIDE_STR@) =~= seq!['\n', '\t', '\t', '\t', '\t', '\t']
        + options_entry(PROTON_OVERRIDE_STR@ + COMMAND_SUFFIX@) + seq!['\n', '\t', '\t', '\t', '\t']);
}

/// Removing the override from a block that ends in the added line leaves the
/// line's whitespace.
proof fn lemma_remove_added_line(blk: Seq<char>)
    requires
        !contains(blk, LAUNCH_OPTIONS_KEY@),
    ensures
        entry_replaced(
            blk + new_option_line(PROTON_OVERRIDE_STR@),
            cleaned_entry(PROTON_OVERRIDE_STR@ + COMMAND_SUFFIX@, PROTON_OVERRIDE_STR@),
        ) == blk + EMPTIED_OPTION_LINE@,
        launch_entry_captures(blk + new_option_line(PROTON_OVERRIDE_STR@)) matches Some(
            (_, _, g, _),
        ) && g == PROTON_OVERRIDE_STR@ + COMMAND_SUFFIX@,
{
    lemma_option_literals();
    lemma_new_option_line_parts();
    lemma_cleaned_fresh();
    let ws6 = seq!['\n', '\t', '\t', '\t', '\t', '\t'];
    let ws5 = seq!['\n', '\t', '\t', '\t', '\t'];
    let v = PROTON_OVERRIDE_STR@ + COMMAND_SUFFIX@;
    assert(blk + new_option_line(PROTON_OVERRIDE_STR@) =~= blk + ws6 + options_entry(v) + ws5);
    lemma_captures_after_ws(blk, ws6, v, ws5);
    assert(cleaned_entry(v, PROTON_OVERRIDE_STR@) == Seq::<char>::empty());
    assert(blk + ws6 + Seq::<char>::empty() + ws5 =~= blk + EMPTIED_OPTION_LINE@);
}

/// Putting the override into launch options `g` and taking it out again,
/// inside the block `(a, b)` of `s`.
pub(crate) proof fn lemma_undo_existing(s: Seq<char>, appid: Seq<char>, a: int, b: int)
    requires
        app_block_range(s, appid) == Some((a, b)),
        !contains(s.subrange(a, b), OVERRIDE_MARKER@),
        launch_entry_captures(s.subrange(a, b)) matches Some((_, _, g, _)) && escaped_value(
            combined_options(g, PROTON_OVERRIDE_STR@),
        ),
    ensures
        launch_entry_captures(s.subrange(a, b)) matches Some((bef, _, g, aft)) && override_removed(
            injected(s, appid, PROTON_OVERRIDE_STR@),
            appid,
            PROTON_OVERRIDE_STR@,
        ) == splice(s, a, b, bef + restored_entry(g) + aft),
{
    lemma_override_literals();
    lemma_option_literals();
    crate::vdf::lemma_block_range_bounds(s, appid);
    let p = PROTON_OVERRIDE_STR@;
    let blk = s.subrange(a, b);
    let (bef, m, g, aft) = launch_entry_captures(blk)->0;
    lemma_captures_split(blk);
    // The options hold no marker, since the block holds none.
    let (gi, gj) = choose|i: int, j: int| 0 <= i <= j <= m.len() && g == m.subrange(i, j);
    assert(m =~= blk.subrange(bef.len() as int, (bef.len() + m.len()) as int));
    if contains(g, OVERRIDE_MARKER@) {
        lemma_contains_subrange(m, gi, gj, OVERRIDE_MARKER@);
        lemma_contains_subrange(blk, bef.len() as int, (bef.len() + m.len()) as int, OVERRIDE_MARKER@);
    }
    // Injection writes the combined options in place of the entry.
    let c = combined_options(g, p);
    let e = options_entry(c);
    let r1 = injected(s, appid, p);
    assert(r1 == splice(s, a, b, bef + e + aft));
    lemma_inject_entry(s, appid, p, a, b);
    let b1 = a + (bef + e + aft).len();
    lemma_captures_after_replace(blk, c);
    assert(blk =~= bef + m + aft);
    // Removal cleans them back.
    lemma_cleaned_combined(g);
    lemma_option_literals();
    lemma_contains_self(COMMAND_PLACEHOLDER@);
    assert(cleaned_entry(c, p) == restored_entry(g));
    let x = restored_entry(g);
    assert(override_removed(r1, appid, p) == splice(r1, a, b1, bef + x + aft));
    assert(splice(r1, a, b1, bef + x + aft) =~= splice(s, a, b, bef + x + aft));
}

/// Putting the override into a block without launch options and taking it
/// out again.
pub(crate) proof fn lemma_undo_appended(s: Seq<char>, appid: Seq<char>, a: int, b: int)
    requires
        app_block_range(s, appid) == Some((a, b)),
        !contains(s.subrange(a, b), OVERRIDE_MARKER@),
        launch_entry_captures(s.subrange(a, b)) is None,
        !contains(s.subrange(a, b), LAUNCH_OPTIONS_KEY@),
    ensures
        override_removed(injected(s, appid, PROTON_OVERRIDE_STR@), appid, PROTON_OVERRIDE_STR@)
            == splice(s, a, b, s.subrange(a, b) + EMPTIED_OPTION_LINE@),
{
    lemma_override_literals();
    crate::vdf::lemma_block_range_bounds(s, appid);
    let p = PROTON_OVERRIDE_STR@;
    let blk = s.subrange(a, b);
    let l = new_option_line(p);
    let r1 = injected(s, appid, p);
    assert(r1 == splice(s, a, b, blk + l));
    lemma_inject_appended(s, appid, p, a, b);
    lemma_remove_added_line(blk);
    let b1 = b + l.len();
    assert(override_removed(r1, appid, p) == splice(r1, a, b1, blk + EMPTIED_OPTION_LINE@));
    assert(splice(r1, a, b1, blk + EMPTIED_OPTION_LINE@) =~= splice(
        s,
        a,
        b,
        blk + EMPTIED_OPTION_LINE@,
    ));
}

/// Putting the override in for an app without a block (which adds one after
/// the `{` at `ob`) and taking it out again.
#[verifier::spinoff_prover]
#[verifier::rlimit(40)]
pub(crate) proof fn lemma_undo_new_block(s: Seq<char>, appid: Seq<char>, ob: int)
    requires
        0 <= ob < s.len(),
        s[ob] == '{',
        !contains(s, quoted(appid)),
        !appid.contains('{'),
    ensures
        override_removed(
            splice(s, ob + 1, ob + 1, new_app_block(appid, PROTON_OVERRIDE_STR@)),
            appid,
            PROTON_OVERRIDE_STR@,
        ) == splice(s, ob + 1, ob + 1, emptied_app_block(appid)),
{
    lemma_override_literals();
    lemma_key();
    let p = PROTON_OVERRIDE_STR@;
    let r1 = splice(s, ob + 1, ob + 1, new_app_block(appid, p));
    lemma_new_app_block(s, appid, p, ob);
    let l = new_option_line(p);
    let a1 = ob + 12 + quoted(appid).len();
    let b1 = a1 + l.len();
    if contains(Seq::<char>::empty(), LAUNCH_OPTIONS_KEY@) {
        lemma_contains_len(Seq::<char>::empty(), LAUNCH_OPTIONS_KEY@);
    }
    lemma_remove_added_line(Seq::<char>::empty());
    assert(Seq::<char>::empty() + l =~= l);
    assert(Seq::<char>::empty() + EMPTIED_OPTION_LINE@ =~= EMPTIED_OPTION_LINE@);
    assert(override_removed(r1, appid, p) == splice(r1, a1, b1, EMPTIED_OPTION_LINE@));
    assert(splice(r1, a1, b1, EMPTIED_OPTION_LINE@) =~= splice(
        s,
        ob + 1,
        ob + 1,
        emptied_app_block(appid),
    ));
}

/// Whitespace holds no braces.
proof fn lemma_ws_braceless(x: Seq<char>)
    requires
        crate::text::all_ws(x),
    ensures
        braceless(x),
{
    assert forall|k: int| 0 <= k < x.len() implies #[trigger] x[k] != '{' && x[k] != '}' by {
        assert(crate::text::is_ws(x[k]));
    }
}

/// An entry splits into a brace-free head, its trimmed options, and a
/// brace-free tail.
proof fn lemma_entry_sides(blk: Seq<char>) -> (r: (Seq<char>, Seq<char>))
    requires
        launch_entry_captures(blk) is Some,
    ensures
        launch_entry_captures(blk) matches Some((_, m, g, _)) && m == r.0 + trim(g) + r.1,
        braceless(r.0),
        braceless(r.1),
{
    let (bef, m, g, aft) = launch_entry_captures(blk)->0;
    let h = crate::launch_options::lemma_entry_head(blk);
    let (i, j) = lemma_trim_subrange(g);
    let t = trim(g);
    let ws1 = g.take(i);
    let ws2 = g.skip(j);
    assert(g =~= ws1 + t + ws2);
    lemma_ws_braceless(ws1);
    lemma_ws_braceless(ws2);
    lemma_plain_concat(h, ws1);
    lemma_literal_plain(seq!['"']);
    lemma_plain_concat(ws2, seq!['"']);
    assert(m =~= (h + ws1) + t + (ws2 + seq!['"']));
    (h + ws1, ws2 + seq!['"'])
}

/// The entry of the combined options splits into a brace-free head, the
/// trimmed old options, and a brace-free tail.
proof fn lemma_combined_sides(g: Seq<char>, ov: Seq<char>) -> (r: (Seq<char>, Seq<char>))
    requires
        braceless(ov),
    ensures
        options_entry(combined_options(g, ov)) == r.0 + trim(g) + r.1,
        braceless(r.0),
        braceless(r.1),
{
    lemma_option_literals();
    let hd = LAUNCH_OPTIONS_HEAD@;
    let cs = COMMAND_SUFFIX@;
    let t = trim(g);
    lemma_literal_plain(seq![' ']);
    lemma_literal_plain(seq!['"']);
    lemma_plain_concat(hd, ov);
    lemma_plain_concat(hd + ov, seq![' ']);
    lemma_plain_concat(cs, seq!['"']);
    if t.len() == 0 {
        assert(options_entry(combined_options(g, ov)) =~= (hd + ov) + t + (cs + seq!['"']));
        (hd + ov, cs + seq!['"'])
    } else if contains(t, COMMAND_PLACEHOLDER@) {
        assert(options_entry(combined_options(g, ov)) =~= (hd + ov + seq![' ']) + t + seq!['"']);
        (hd + ov + seq![' '], seq!['"'])
    } else {
        assert(options_entry(combined_options(g, ov)) =~= (hd + ov + seq![' ']) + t + (cs
            + seq!['"']));
        (hd + ov + seq![' '], cs + seq!['"'])
    }
}

/// Replacing the brace-free sides of a part of an app's block by brace-free
/// text leaves the block in place.
#[verifier::spinoff_prover]
#[verifier::rlimit(30)]
proof fn lemma_swap_sides(
    s: Seq<char>,
    appid: Seq<char>,
    a: int,
    b: int,
    bef: Seq<char>,
    m1: Seq<char>,
    t: Seq<char>,
    m2: Seq<char>,
    aft: Seq<char>,
    e1: Seq<char>,
    e2: Seq<char>,
)
    requires
        app_block_range(s, appid) == Some((a, b)),
        s.subrange(a, b) == bef + m1 + t + m2 + aft,
        braceless(m1),
        braceless(m2),
        braceless(e1),
        braceless(e2),
    ensures
        ({
            let rep = bef + e1 + t + e2 + aft;
            let r = splice(s, a, b, rep);
            &&& app_block_range(r, appid) == Some((a, a + rep.len()))
            &&& r.subrange(a, a + rep.len()) == rep
        }),
{
    crate::vdf::lemma_block_range_bounds(s, appid);
    let blk = s.subrange(a, b);
    let x = a + bef.len();
    let x1 = x + m1.len();
    let y1 = x1 + t.len();
    let y = y1 + m2.len();
    assert(blk.len() == bef.len() + m1.len() + t.len() + m2.len() + aft.len());
    assert forall|k: int| 0 <= k < blk.len() implies #[trigger] s[a + k] == blk[k] by {}
    assert(s.subrange(y1, y) =~= m2) by {
        assert forall|k: int| 0 <= k < m2.len() implies #[trigger] s.subrange(y1, y)[k] == m2[k] by {
            assert(s[y1 + k] == blk[y1 - a + k]);
            assert(blk[y1 - a + k] == (bef + m1 + t + m2 + aft)[y1 - a + k]);
        }
    }
    lemma_block_after_splice(s, appid, a, b, y1, y, e2);
    let s1 = splice(s, y1, y, e2);
    let b1 = b - m2.len() + e2.len();
    assert(s1.subrange(x, x1) =~= m1) by {
        assert forall|k: int| 0 <= k < m1.len() implies #[trigger] s1.subrange(x, x1)[k] == m1[k] by {
            assert(s1[x + k] == s.take(y1)[x + k]);
            assert(s[x + k] == blk[bef.len() + k]);
            assert(blk[bef.len() + k] == (bef + m1 + t + m2 + aft)[bef.len() + k]);
        }
    }
    lemma_block_after_splice(s1, appid, a, b1, x, x1, e1);
    let rep = bef + e1 + t + e2 + aft;
    assert(s.take(x) =~= s.take(a) + bef) by {
        assert forall|k: int| a <= k < x implies #[trigger] s.take(x)[k] == (s.take(a) + bef)[k] by {
            assert(s[k] == blk[k - a]);
            assert(blk[k - a] == (bef + m1 + t + m2 + aft)[k - a]);
        }
    }
    assert(s.skip(y) =~= aft + s.skip(b)) by {
        assert forall|k: int| 0 <= k < aft.len() implies #[trigger] s.skip(y)[k] == aft[k] by {
            assert(s[y + k] == blk[y - a + k]);
            assert(blk[y - a + k] == (bef + m1 + t + m2 + aft)[y - a + k]);
        }
    }
    assert(s.subrange(x1, y1) =~= t) by {
        assert forall|k: int| 0 <= k < t.len() implies #[trigger] s.subrange(x1, y1)[k] == t[k] by {
            assert(s[x1 + k] == blk[x1 - a + k]);
            assert(blk[x1 - a + k] == (bef + m1 + t + m2 + aft)[x1 - a + k]);
        }
    }
    assert(splice(s1, x, x1, e1) =~= splice(s, a, b, rep));
}

/// Writing the combined launch options in place of an app's entry leaves the
/// block in place, whatever braces the old options hold: the entry is a
/// brace-free head, the options, and a brace-free tail on both sides.
pub(crate) proof fn lemma_inject_entry(s: Seq<char>, appid: Seq<char>, ov: Seq<char>, a: int, b: int)
    requires
        app_block_range(s, appid) == Some((a, b)),
        launch_entry_captures(s.subrange(a, b)) is Some,
        braceless(ov),
    ensures
        launch_entry_captures(s.subrange(a, b)) matches Some((bef, _, g, aft)) && ({
            let rep = bef + options_entry(combined_options(g, ov)) + aft;
            let r = splice(s, a, b, rep);
            &&& app_block_range(r, appid) == Some((a, a + rep.len()))
            &&& r.subrange(a, a + rep.len()) == rep
            &&& contains(rep, ov)
        }),
{
    let blk = s.subrange(a, b);
    let (bef, m, g, aft) = launch_entry_captures(blk)->0;
    lemma_captures_split(blk);
    let (m1, m2) = lemma_entry_sides(blk);
    let (e1, e2) = lemma_combined_sides(g, ov);
    let t = trim(g);
    assert(blk =~= bef + m1 + t + m2 + aft);
    lemma_swap_sides(s, appid, a, b, bef, m1, t, m2, aft, e1, e2);
    let c = combined_options(g, ov);
    let e = options_entry(c);
    assert(bef + e + aft =~= bef + e1 + t + e2 + aft);
    assert(c.take(ov.len() as int) =~= ov);
    lemma_contains_prefix(c, ov);
    lemma_contains_concat(LAUNCH_OPTIONS_HEAD@, c, ov);
    lemma_contains_concat(LAUNCH_OPTIONS_HEAD@ + c, seq!['"'], ov);
    lemma_contains_concat(bef, e, ov);
    lemma_contains_concat(bef + e, aft, ov);
}

} // verus!