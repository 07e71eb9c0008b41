//! Editing the `LaunchOptions` of one app in a Steam `localconfig.vdf` text.
//!
//! A VDF file is a tree of `"key" { ... }` blocks. The functions here find
//! the block of an app by its id, and add or remove the Proton DLL override
//! in that block's `"LaunchOptions"` value. The whole text is modelled as a
//! `Seq<char>`; positions are character indices.
use vstd::prelude::*;
use crate::text::{
    braceless, byte_offset, chars_of, contains, contains_exec, text_eq, utf8_len, extend, find_from, find_from_exec,
    lemma_find_from, occurs_at, remove_all, remove_all_exec, slice_of, string_of, trim, trim_exec,
};
use crate::vdf_laws::{
    lemma_inject_appended, lemma_inject_entry, lemma_marker_in_block,
    lemma_new_app_block, lemma_new_option_line_contains, lemma_undo_appended, lemma_undo_existing,
    lemma_undo_new_block,
};
use crate::pattern::regex_captures;
use crate::launch_options::{
    escaped_value, launch_entry_captures, options_entry, LAUNCH_OPTIONS_HEAD, LAUNCH_OPTIONS_KEY,
    LAUNCH_OPTIONS_PATTERN,
};

verus! {

/// The Proton override that makes Wine load the proxy `steam_api` DLLs first.
pub const PROTON_OVERRIDE_STR: &'static str = r#"WINEDLLOVERRIDES=\"steam_api64=n,b;steam_api=n,b\""#;

/// The text whose presence in an app block means the override is in place.
pub const OVERRIDE_MARKER: &'static str = "WINEDLLOVERRIDES=";

/// The override written with plain quotes.
pub const OVERRIDE_PLAIN: &'static str = "WINEDLLOVERRIDES=\"steam_api64=n,b;steam_api=n,b\"";

/// The override written with escaped quotes, as it stands inside a VDF value.
pub const OVERRIDE_ESCAPED: &'static str = "WINEDLLOVERRIDES=\\\"steam_api64=n,b;steam_api=n,b\\\"";

/// The placeholder that Steam replaces with the game's own command line.
pub const COMMAND_PLACEHOLDER: &'static str = "%command%";

/// ` %command%`, appended after launch options.
pub const COMMAND_SUFFIX: &'static str = " %command%";

/// The start of a new `"LaunchOptions"` line appended to an app block.
pub const NEW_OPTION_HEAD: &'static str = "\n\t\t\t\t\t\"LaunchOptions\"\t\t\"";

/// The end of a new `"LaunchOptions"` line appended to an app block.
pub const NEW_OPTION_TAIL: &'static str = " %command%\"\n\t\t\t\t";

/// The key of the block that holds the per-app blocks.
pub const APPS_KEY: &'static str = "\"apps\"";

/// What an added launch options line leaves once its entry is taken out.
pub const EMPTIED_OPTION_LINE: &'static str = "\n\t\t\t\t\t\n\t\t\t\t";

// ---------------------------------------------------------------------------
// Specifications
// ---------------------------------------------------------------------------

/// `s` between double quotes.
pub open spec fn quoted(s: Seq<char>) -> Seq<char> {
    seq!['"'] + s + seq!['"']
}

/// Scanning from index `i` with brace depth `depth`: the index of the `}`
/// that brings the depth down to zero.
pub open spec fn close_brace_from(s: Seq<char>, i: int, depth: int) -> Option<int>
    decreases s.len() - i,
{
    if i < 0 || i >= s.len() {
        None
    } else if s[i] == '{' {
        close_brace_from(s, i + 1, depth + 1)
    } else if s[i] == '}' {
        if depth - 1 == 0 {
            Some(i)
        } else {
            close_brace_from(s, i + 1, depth - 1)
        }
    } else {
        close_brace_from(s, i + 1, depth)
    }
}

/// The inner range `(after the opening brace, at the closing brace)` of the
/// block that follows the first `"<appid>"` in `s`.
pub open spec fn app_block_range(s: Seq<char>, appid: Seq<char>) -> Option<(int, int)> {
    let key = quoted(appid);
    match find_from(s, key, 0) {
        None => None,
        Some(kp) => match find_from(s, seq!['{'], kp + key.len()) {
            None => None,
            Some(ob) => match close_brace_from(s, ob, 0) {
                None => None,
                Some(cb) => Some((ob + 1, cb)),
            },
        },
    }
}

/// Launch options that put `ov` in front of `current` and keep (or add) the
/// `%command%` placeholder.
pub open spec fn combined_options(current: Seq<char>, ov: Seq<char>) -> Seq<char> {
    let t = trim(current);
    if t.len() == 0 {
        ov + COMMAND_SUFFIX@
    } else if contains(t, COMMAND_PLACEHOLDER@) {
        ov + seq![' '] + t
    } else {
        ov + seq![' '] + t + COMMAND_SUFFIX@
    }
}

/// The line appended to an app block that has no launch options.
pub open spec fn new_option_line(ov: Seq<char>) -> Seq<char> {
    NEW_OPTION_HEAD@ + ov + NEW_OPTION_TAIL@
}

/// The block inserted for an app that has no block yet.
pub open spec fn new_app_block(appid: Seq<char>, ov: Seq<char>) -> Seq<char> {
    seq!['\n', '\t', '\t', '\t', '\t'] + quoted(appid) + seq!['\n', '\t', '\t', '\t', '\t', '{']
        + new_option_line(ov) + seq!['}']
}

/// `s` with its characters from `a` to `b` replaced by `t`.
pub open spec fn splice(s: Seq<char>, a: int, b: int, t: Seq<char>) -> Seq<char> {
    s.take(a) + t + s.skip(b)
}

/// The block with its first launch options entry replaced by `rep`, written
/// as it is.
pub open spec fn entry_replaced(block: Seq<char>, rep: Seq<char>) -> Seq<char> {
    match launch_entry_captures(block) {
        Some((bef, _, _, aft)) => bef + rep + aft,
        None => block,
    }
}

/// What injecting the override `ov` for `appid` into the config `s` gives.
pub open spec fn injected(s: Seq<char>, appid: Seq<char>, ov: Seq<char>) -> Seq<char> {
    match app_block_range(s, appid) {
        Some((a, b)) => {
            let block = s.subrange(a, b);
            if contains(block, OVERRIDE_MARKER@) {
                s
            } else {
                match launch_entry_captures(block) {
                    Some((_, _, g, _)) => splice(
                        s,
                        a,
                        b,
                        entry_replaced(block, options_entry(combined_options(g, ov))),
                    ),
                    None => splice(s, a, b, block + new_option_line(ov)),
                }
            }
        },
        None => match find_from(s, APPS_KEY@, 0) {
            Some(ap) => match find_from(s, seq!['{'], ap) {
                Some(ob) => splice(s, ob + 1, ob + 1, new_app_block(appid, ov)),
                None => s,
            },
            None => s,
        },
    }
}

/// The launch options left after taking the override `ov` (in any of its
/// spellings) out of `opts`, trimmed; the rest keeps its order.
pub open spec fn cleaned_options(opts: Seq<char>, ov: Seq<char>) -> Seq<char> {
    trim(remove_all(remove_all(remove_all(opts, ov), OVERRIDE_PLAIN@), OVERRIDE_ESCAPED@))
}

/// Nothing but `%command%` (or nothing at all) is left of launch options.
pub open spec fn only_placeholder(c: Seq<char>) -> bool {
    c.len() == 0 || c == COMMAND_PLACEHOLDER@
}

/// The entry that replaces launch options `opts` when the override is removed:
/// nothing when no options but `%command%` remain, otherwise the remaining
/// options.
pub open spec fn cleaned_entry(opts: Seq<char>, ov: Seq<char>) -> Seq<char> {
    let c = cleaned_options(opts, ov);
    if only_placeholder(c) {
        Seq::empty()
    } else {
        options_entry(c)
    }
}

/// What removing the override `ov` for `appid` from the config `s` gives.
pub open spec fn override_removed(s: Seq<char>, appid: Seq<char>, ov: Seq<char>) -> Seq<char> {
    match app_block_range(s, appid) {
        Some((a, b)) => {
            let block = s.subrange(a, b);
            match launch_entry_captures(block) {
                Some((_, _, g, _)) => splice(s, a, b, entry_replaced(block, cleaned_entry(g, ov))),
                None => s,
            }
        },
        None => s,
    }
}

/// The launch options entry of `appid`'s block: the first match of
/// [`LAUNCH_OPTIONS_PATTERN`] in it, if the app has a block.
pub open spec fn current_entry(s: Seq<char>, appid: Seq<char>) -> Option<
    (Seq<char>, Seq<char>, Seq<char>, Seq<char>),
> {
    match app_block_range(s, appid) {
        Some((a, b)) => launch_entry_captures(s.subrange(a, b)),
        None => None,
    }
}

/// Inputs under which the edited block can be followed: the override holds
/// no braces, and an app without a block has an id without `{` and is not
/// mentioned at all.
pub open spec fn plain_inputs(s: Seq<char>, appid: Seq<char>, ov: Seq<char>) -> bool {
    &&& braceless(ov)
    &&& (app_block_range(s, appid) is None ==> !appid.contains('{') && !contains(
        s,
        quoted(appid),
    ))
}

/// The app's launch options entry (matched as `bef + m + aft` in its block)
/// holds nothing but overrides and `%command%`, and `r` is `s` with that
/// entry deleted from the block.
pub open spec fn entry_deleted(r: Seq<char>, s: Seq<char>, appid: Seq<char>, ov: Seq<char>) -> bool {
    match app_block_range(s, appid) {
        Some((a, b)) => match launch_entry_captures(s.subrange(a, b)) {
            Some((bef, _, g, aft)) => only_placeholder(cleaned_options(g, ov)) ==> r == splice(
                s,
                a,
                b,
                bef + aft,
            ),
            None => true,
        },
        None => true,
    }
}

/// After an edit: either the app has a block that holds `ov` or the marker,
/// or the app has no block and the text is `s`.
pub open spec fn app_holds_override(r: Seq<char>, s: Seq<char>, appid: Seq<char>, ov: Seq<char>) -> bool {
    match app_block_range(r, appid) {
        Some((a, b)) => contains(r.subrange(a, b), ov) || contains(r.subrange(a, b), OVERRIDE_MARKER@),
        None => r == s,
    }
}

/// The launch options entry left of options `g` once the Proton override has
/// been put in front of them and taken out again: the trimmed options, with
/// `%command%` added at the end when they lacked it; no entry when they were
/// empty or only `%command%`.
pub open spec fn restored_entry(g: Seq<char>) -> Seq<char> {
    let t = trim(g);
    if only_placeholder(t) {
        Seq::empty()
    } else if contains(t, COMMAND_PLACEHOLDER@) {
        options_entry(t)
    } else {
        options_entry(t + COMMAND_SUFFIX@)
    }
}

/// The block of an app whose added launch options line was emptied again.
pub open spec fn emptied_app_block(appid: Seq<char>) -> Seq<char> {
    seq!['\n', '\t', '\t', '\t', '\t'] + quoted(appid) + seq!['\n', '\t', '\t', '\t', '\t', '{']
        + EMPTIED_OPTION_LINE@ + seq!['}']
}

/// What putting the Proton override in for `appid` and taking it out again
/// leaves of `s`. An app whose block already held an override keeps only the
/// removal. An app with launch options gets them back as [`restored_entry`]
/// says; everything else in the text stays as it was. An app without
/// launch options, or without a block, keeps the whitespace of the line (and
/// the block) that was added, with no entry in it.
pub open spec fn patch_undone(s: Seq<char>, appid: Seq<char>) -> Seq<char> {
    match app_block_range(s, appid) {
        Some((a, b)) => {
            let block = s.subrange(a, b);
            if contains(block, OVERRIDE_MARKER@) {
                override_removed(s, appid, PROTON_OVERRIDE_STR@)
            } else {
                match launch_entry_captures(block) {
                    Some((bef, _, g, aft)) => splice(s, a, b, bef + restored_entry(g) + aft),
                    None => splice(s, a, b, block + EMPTIED_OPTION_LINE@),
                }
            }
        },
        None => match find_from(s, APPS_KEY@, 0) {
            Some(ap) => match find_from(s, seq!['{'], ap) {
                Some(ob) => splice(s, ob + 1, ob + 1, emptied_app_block(appid)),
                None => s,
            },
            None => s,
        },
    }
}

/// Texts on which the injected entry can be found again: an app without a
/// block has an id without `{` and is not mentioned at all; and in a block
/// without an override, the options that injection writes read back as one
/// value, while a block without an entry does not mention `"LaunchOptions"`
/// at all.
pub open spec fn undo_inputs(s: Seq<char>, appid: Seq<char>) -> bool {
    match app_block_range(s, appid) {
        Some((a, b)) => {
            let block = s.subrange(a, b);
            !contains(block, OVERRIDE_MARKER@) ==> match launch_entry_captures(block) {
                Some((_, _, g, _)) => escaped_value(combined_options(g, PROTON_OVERRIDE_STR@)),
                None => !contains(block, LAUNCH_OPTIONS_KEY@),
            }
        },
        None => !appid.contains('{') && !contains(s, quoted(appid)),
    }
}

// ---------------------------------------------------------------------------
// Executable functions
// ---------------------------------------------------------------------------

/// Index of the `}` closing the block that opens at `ob`.
fn close_brace_exec(s: &Vec<char>, ob: usize) -> (r: Option<usize>)
    requires
        ob < s.len(),
        s@[ob as int] == '{',
    ensures
        r matches Some(c) ==> close_brace_from(s@, ob as int, 0) == Some(c as int),
        r is None ==> close_brace_from(s@, ob as int, 0) is None,
{
    let mut depth: usize = 1;
    let mut i: usize = ob + 1;
    while i < s.len()
        invariant
            ob < i <= s.len(),
            1 <= depth <= i - ob,
            close_brace_from(s@, ob as int, 0) == close_brace_from(s@, i as int, depth as int),
        decreases s.len() - i,
    {
        let c = s[i];
        if c == '{' {
            depth += 1;
        } else if c == '}' {
            if depth == 1 {
                return Some(i);
            }
            depth -= 1;
        }
        i += 1;
    }
    None
}

/// Character-level version of [`find_app_block_range`].
fn block_range_chars(s: &Vec<char>, appid: &Vec<char>) -> (r: Option<(usize, usize)>)
    ensures
        r matches Some((a, b)) ==> app_block_range(s@, appid@) == Some((a as int, b as int)),
        r is None ==> app_block_range(s@, appid@) is None,
{
    let mut key: Vec<char> = Vec::new();
    key.push('"');
    extend(&mut key, appid);
    key.push('"');
    assert(key@ =~= quoted(appid@));
    let kp = match find_from_exec(s, &key, 0) {
        Some(k) => k,
        None => return None,
    };
    proof {
        lemma_find_from(s@, key@, 0);
        assert(occurs_at(s@, key@, kp as int));
        assert(kp + key@.len() <= s@.len());
        assert(kp + key.len() <= s.len());
    }
    let mut brace: Vec<char> = Vec::new();
    brace.push('{');
    assert(brace@ =~= seq!['{']);
    let ob = match find_from_exec(s, &brace, kp + key.len()) {
        Some(o) => o,
        None => return None,
    };
    proof {
        lemma_find_from(s@, brace@, kp + key.len());
        assert(s@.subrange(ob as int, ob + 1)[0] == '{');
    }
    match close_brace_exec(s, ob) {
        Some(cb) => Some((ob + 1, cb)),
        None => None,
    }
}

/// Finds the inner range of the block of `appid`, as byte offsets into
/// `vdf_content`: just after the `{` that follows the first `"<appid>"`, and
/// at the `}` that closes it.
pub fn find_app_block_range(vdf_content: &str, appid: &str) -> (r: Option<(usize, usize)>)
    ensures
        r matches Some((a, b)) ==> app_block_range(vdf_content@, appid@) matches Some((ca, cb))
            && a == utf8_len(vdf_content@.take(ca)) && b == utf8_len(vdf_content@.take(cb)),
        r is None ==> app_block_range(vdf_content@, appid@) is None,
{
    match block_range_chars(&chars_of(vdf_content), &chars_of(appid)) {
        Some((a, b)) => {
            proof {
                lemma_block_range_bounds(vdf_content@, appid@);
            }
            Some((byte_offset(vdf_content, a), byte_offset(vdf_content, b)))
        },
        None => None,
    }
}

/// Character-level version of [`build_combined_launch_options`].
fn combined_chars(current: &Vec<char>, ov: &Vec<char>) -> (r: Vec<char>)
    ensures
        r@ == combined_options(current@, ov@),
{
    let t = trim_exec(current);
    let mut r = slice_of(ov, 0, ov.len());
    assert(r@ =~= ov@);
    if t.len() == 0 {
        extend(&mut r, &chars_of(COMMAND_SUFFIX));
    } else if contains_exec(&t, &chars_of(COMMAND_PLACEHOLDER)) {
        r.push(' ');
        extend(&mut r, &t);
    } else {
        r.push(' ');
        extend(&mut r, &t);
        extend(&mut r, &chars_of(COMMAND_SUFFIX));
    }
    r
}

/// The launch options `override_str` followed by the current options, with
/// `%command%` kept or appended.
pub fn build_combined_launch_options(current: &str, override_str: &str) -> (r: String)
    ensures
        r@ == combined_options(current@, override_str@),
{
    string_of(&combined_chars(&chars_of(current), &chars_of(override_str)))
}

/// `s` with its characters from `a` to `b` replaced by `t`.
fn splice_exec(s: &Vec<char>, a: usize, b: usize, t: &Vec<char>) -> (r: String)
    requires
        a <= b <= s.len(),
    ensures
        r@ == splice(s@, a as int, b as int, t@),
{
    let mut out = slice_of(s, 0, a);
    extend(&mut out, t);
    extend(&mut out, &slice_of(s, b, s.len()));
    assert(s@.take(a as int) =~= s@.subrange(0, a as int));
    assert(s@.skip(b as int) =~= s@.subrange(b as int, s.len() as int));
    string_of(&out)
}

/// Puts `override_str` into the `LaunchOptions` of `appid`.
///
/// If the app's block already mentions `WINEDLLOVERRIDES=`, the text comes
/// back unchanged. If the block has launch options, they become
/// `override_str` followed by the old options (and `%command%`). If it has
/// none, a `LaunchOptions` line is appended to the block. If there is no
/// block for the app, one is inserted at the start of the `"apps"` block.
pub fn inject_launch_option_into_vdf(vdf_content: &str, appid: &str, override_str: &str) -> (r:
    String)
    ensures
        r@ == injected(vdf_content@, appid@, override_str@),
        plain_inputs(vdf_content@, appid@, override_str@) ==> app_holds_override(
            r@,
            vdf_content@,
            appid@,
            override_str@,
        ),
        plain_inputs(vdf_content@, appid@, override_str@) && contains(
            override_str@,
            OVERRIDE_MARKER@,
        ) ==> injected(r@, appid@, override_str@) == r@,
{
    let s = chars_of(vdf_content);
    let ov = chars_of(override_str);
    match block_range_chars(&s, &chars_of(appid)) {
        Some((a, b)) => {
            proof {
                lemma_block_range_bounds(s@, appid@);
            }
            let block = slice_of(&s, a, b);
            if contains_exec(&block, &chars_of(OVERRIDE_MARKER)) {
                return string_of(&s);
            }
            let block_str = string_of(&block);
            match regex_captures(LAUNCH_OPTIONS_PATTERN, block_str.as_str()) {
                Some((bef, m, g, aft)) => {
                    let mut rep = chars_of(LAUNCH_OPTIONS_HEAD);
                    extend(&mut rep, &combined_chars(&chars_of(g.as_str()), &ov));
                    rep.push('"');
                    assert(rep@ =~= options_entry(combined_options(g@, ov@)));
                    let mut updated = chars_of(bef.as_str());
                    extend(&mut updated, &rep);
                    extend(&mut updated, &chars_of(aft.as_str()));
                    let r = splice_exec(&s, a, b, &updated);
                    proof {
                        if plain_inputs(s@, appid@, ov@) {
                            lemma_inject_entry(s@, appid@, ov@, a as int, b as int);
                            lemma_marker_in_block(r@, appid@, ov@);
                        }
                    }
                    r
                },
                None => {
                    let mut t = block;
                    extend(&mut t, &chars_of(NEW_OPTION_HEAD));
                    extend(&mut t, &ov);
                    extend(&mut t, &chars_of(NEW_OPTION_TAIL));
                    assert(t@ =~= s@.subrange(a as int, b as int) + new_option_line(ov@));
                    let r = splice_exec(&s, a, b, &t);
                    proof {
                        if plain_inputs(s@, appid@, ov@) {
                            lemma_inject_appended(s@, appid@, ov@, a as int, b as int);
                            lemma_marker_in_block(r@, appid@, ov@);
                        }
                    }
                    r
                },
            }
        },
        None => {
            let ap = match find_from_exec(&s, &chars_of(APPS_KEY), 0) {
                Some(p) => p,
                None => return string_of(&s),
            };
            let mut brace: Vec<char> = Vec::new();
            brace.push('{');
            assert(brace@ =~= seq!['{']);
            let ob = match find_from_exec(&s, &brace, ap) {
                Some(o) => o,
                None => return string_of(&s),
            };
            proof {
                lemma_find_from(s@, brace@, ap as int);
                assert(occurs_at(s@, brace@, ob as int));
                assert(ob + brace@.len() <= s@.len());
                assert(ob < s.len());
            }
            let mut t: Vec<char> = Vec::new();
            t.push('\n');
            t.push('\t');
            t.push('\t');
            t.push('\t');
            t.push('\t');
            t.push('"');
            extend(&mut t, &chars_of(appid));
            t.push('"');
            t.push('\n');
            t.push('\t');
            t.push('\t');
            t.push('\t');
            t.push('\t');
            t.push('{');
            extend(&mut t, &chars_of(NEW_OPTION_HEAD));
            extend(&mut t, &ov);
            extend(&mut t, &chars_of(NEW_OPTION_TAIL));
            t.push('}');
            assert(t@ =~= new_app_block(appid@, ov@));
            let r = splice_exec(&s, ob + 1, ob + 1, &t);
            proof {
                if plain_inputs(s@, appid@, ov@) {
                    assert(s@[ob as int] == s@.subrange(ob as int, ob + 1)[0]);
                    lemma_new_app_block(s@, appid@, ov@, ob as int);
                    lemma_new_option_line_contains(ov@);
                    lemma_marker_in_block(r@, appid@, ov@);
                }
            }
            r
        },
    }
}

/// Takes `override_str` (in any spelling) out of the `LaunchOptions` of
/// `appid`, keeping the rest of the options in order; the entry goes away if
/// nothing but `%command%` is left.
pub fn remove_launch_option_from_vdf(vdf_content: &str, appid: &str, override_str: &str) -> (r:
    String)
    ensures
        r@ == override_removed(vdf_content@, appid@, override_str@),
        entry_deleted(r@, vdf_content@, appid@, override_str@),
{
    let s = chars_of(vdf_content);
    let ov = chars_of(override_str);
    match block_range_chars(&s, &chars_of(appid)) {
        Some((a, b)) => {
            proof {
                lemma_block_range_bounds(s@, appid@);
            }
            let block = slice_of(&s, a, b);
            let block_str = string_of(&block);
            match regex_captures(LAUNCH_OPTIONS_PATTERN, block_str.as_str()) {
                Some((bef, _, g, aft)) => {
                    let opts = chars_of(g.as_str());
                    let c1 = remove_all_exec(&opts, &ov);
                    let c2 = remove_all_exec(&c1, &chars_of(OVERRIDE_PLAIN));
                    let c3 = remove_all_exec(&c2, &chars_of(OVERRIDE_ESCAPED));
                    let cleaned = trim_exec(&c3);
                    let placeholder_only = cleaned.len() == 0 || text_eq(
                        string_of(&cleaned).as_str(),
                        COMMAND_PLACEHOLDER,
                    );
                    let mut rep: Vec<char> = Vec::new();
                    if !placeholder_only {
                        rep = chars_of(LAUNCH_OPTIONS_HEAD);
                        extend(&mut rep, &cleaned);
                        rep.push('"');
                    }
                    assert(rep@ =~= cleaned_entry(g@, ov@));
                    let mut updated = chars_of(bef.as_str());
                    extend(&mut updated, &rep);
                    extend(&mut updated, &chars_of(aft.as_str()));
                    proof {
                        if only_placeholder(cleaned_options(g@, ov@)) {
                            assert(updated@ =~= bef@ + aft@);
                        }
                    }
                    splice_exec(&s, a, b, &updated)
                },
                None => string_of(&s),
            }
        },
        None => string_of(&s),
    }
}

// ---------------------------------------------------------------------------
// Lemmas
// ---------------------------------------------------------------------------

/// Removing the Proton override undoes injecting it: on the inputs that
/// [`undo_inputs`] describes, injecting [`PROTON_OVERRIDE_STR`] for an app
/// and then removing it gives [`patch_undone`]. The override is gone, the
/// app's other launch options come back, and the rest of the text is as it
/// was.
pub proof fn lemma_remove_undoes_inject(s: Seq<char>, appid: Seq<char>)
    requires
        undo_inputs(s, appid),
    ensures
        override_removed(injected(s, appid, PROTON_OVERRIDE_STR@), appid, PROTON_OVERRIDE_STR@)
            == patch_undone(s, appid),
{
    match app_block_range(s, appid) {
        Some((a, b)) => {
            let block = s.subrange(a, b);
            if !contains(block, OVERRIDE_MARKER@) {
                match launch_entry_captures(block) {
                    Some(_) => lemma_undo_existing(s, appid, a, b),
                    None => lemma_undo_appended(s, appid, a, b),
                }
            }
        },
        None => {
            if let Some(ap) = find_from(s, APPS_KEY@, 0) {
                lemma_find_from(s, APPS_KEY@, 0);
                if let Some(ob) = find_from(s, seq!['{'], ap) {
                    lemma_find_from(s, seq!['{'], ap);
                    assert(s[ob] == s.subrange(ob, ob + 1)[0]);
                    lemma_undo_new_block(s, appid, ob);
                }
            }
        },
    }
}

/// Removing an override that a game never had keeps the user's launch
/// options: when the options `g` hold no spelling of the override and trim to
/// something other than nothing or `%command%`, the entry written back is the
/// entry of the trimmed options.
pub proof fn lemma_removal_keeps_options(g: Seq<char>, ov: Seq<char>)
    requires
        !contains(g, ov),
        !contains(g, OVERRIDE_PLAIN@),
        !contains(g, OVERRIDE_ESCAPED@),
        trim(g).len() > 0,
        trim(g) != COMMAND_PLACEHOLDER@,
    ensures
        cleaned_entry(g, ov) == options_entry(trim(g)),
{
    lemma_remove_absent(g, ov);
    lemma_remove_absent(g, OVERRIDE_PLAIN@);
    lemma_remove_absent(g, OVERRIDE_ESCAPED@);
}

/// Removal deletes an app's launch options entry exactly when nothing but
/// `%command%` (or nothing at all) is left of its options once the override
/// is taken out.
pub proof fn lemma_removal_drops_only_placeholder(g: Seq<char>, ov: Seq<char>)
    ensures
        cleaned_entry(g, ov).len() == 0 <==> only_placeholder(cleaned_options(g, ov)),
{
}

/// On a config whose entry for `appid` holds options `g` with no spelling of
/// the override, which trim to something other than nothing or `%command%`,
/// removal swaps that entry for the entry of the trimmed options and leaves
/// everything around it as it was.
pub proof fn lemma_removal_keeps_entry(s: Seq<char>, appid: Seq<char>, ov: Seq<char>)
    requires
        current_entry(s, appid) matches Some((_, _, g, _)) && !contains(g, ov) && !contains(
            g,
            OVERRIDE_PLAIN@,
        ) && !contains(g, OVERRIDE_ESCAPED@) && trim(g).len() > 0 && trim(g)
            != COMMAND_PLACEHOLDER@,
    ensures
        app_block_range(s, appid) matches Some((a, b)) && current_entry(s, appid) matches Some(
            (bef, _, g, aft),
        ) && override_removed(s, appid, ov) == splice(s, a, b, bef + options_entry(trim(g)) + aft),
{
    let (a, b) = app_block_range(s, appid)->0;
    let (bef, m, g, aft) = launch_entry_captures(s.subrange(a, b))->0;
    lemma_removal_keeps_options(g, ov);
}

/// Launch options that hold no spelling of the override and nothing but
/// whitespace, or whitespace around `%command%`, leave no entry behind.
pub proof fn lemma_removal_drops_placeholder_entry(g: Seq<char>, ov: Seq<char>)
    requires
        !contains(g, ov),
        !contains(g, OVERRIDE_PLAIN@),
        !contains(g, OVERRIDE_ESCAPED@),
        trim(g).len() == 0 || trim(g) == COMMAND_PLACEHOLDER@,
    ensures
        cleaned_entry(g, ov).len() == 0,
{
    lemma_remove_absent(g, ov);
    lemma_remove_absent(g, OVERRIDE_PLAIN@);
    lemma_remove_absent(g, OVERRIDE_ESCAPED@);
}

/// Any of the three spellings of the override (the one asked for, the plain
/// one and the escaped one), put in front of launch options `y` that hold
/// none of them, is taken out and `y` is kept, trimmed. The spellings other
/// than `w` must not show up across the seam either.
pub proof fn lemma_removal_strips_spelling(w: Seq<char>, y: Seq<char>, ov: Seq<char>)
    requires
        w == ov || w == OVERRIDE_PLAIN@ || w == OVERRIDE_ESCAPED@,
        w.len() > 0,
        !contains(y, ov),
        !contains(y, OVERRIDE_PLAIN@),
        !contains(y, OVERRIDE_ESCAPED@),
        w != ov ==> !contains(w + y, ov),
        w != OVERRIDE_PLAIN@ ==> !contains(w + y, OVERRIDE_PLAIN@),
        w != OVERRIDE_ESCAPED@ ==> !contains(w + y, OVERRIDE_ESCAPED@),
    ensures
        cleaned_options(w + y, ov) == trim(y),
{
    lemma_remove_absent(y, ov);
    lemma_remove_absent(y, OVERRIDE_PLAIN@);
    lemma_remove_absent(y, OVERRIDE_ESCAPED@);
    let t1 = remove_all(w + y, ov);
    if w == ov {
        crate::text::lemma_remove_all_prefix(w, y);
        assert(t1 == y);
    } else {
        lemma_remove_absent(w + y, ov);
        assert(t1 == w + y);
    }
    let t2 = remove_all(t1, OVERRIDE_PLAIN@);
    if t1 == w + y && w == OVERRIDE_PLAIN@ {
        crate::text::lemma_remove_all_prefix(w, y);
        assert(t2 == y);
    } else if t1 == w + y {
        lemma_remove_absent(w + y, OVERRIDE_PLAIN@);
    }
    let t3 = remove_all(t2, OVERRIDE_ESCAPED@);
    if t2 == w + y && w == OVERRIDE_ESCAPED@ {
        crate::text::lemma_remove_all_prefix(w, y);
        assert(t3 == y);
    } else if t2 == w + y {
        lemma_remove_absent(w + y, OVERRIDE_ESCAPED@);
    }
    assert(t3 == y);
}

/// Removing what does not occur in `y` leaves `y` as it is.
proof fn lemma_remove_absent(y: Seq<char>, w: Seq<char>)
    requires
        !contains(y, w),
    ensures
        remove_all(y, w) == y,
{
    if w.len() > 0 {
        crate::text::lemma_remove_all_absent(y, w);
    }
}

/// Where `close_brace_from` lands.
pub proof fn lemma_close_brace_bounds(s: Seq<char>, i: int, d: int)
    ensures
        close_brace_from(s, i, d) matches Some(c) ==> i <= c < s.len() && s[c] == '}',
    decreases s.len() - i,
{
    if i < 0 || i >= s.len() {
    } else if s[i] == '{' {
        lemma_close_brace_bounds(s, i + 1, d + 1);
    } else if s[i] == '}' {
        if d - 1 != 0 {
            lemma_close_brace_bounds(s, i + 1, d - 1);
        }
    } else {
        lemma_close_brace_bounds(s, i + 1, d);
    }
}

/// A block range lies inside the text, after its opening brace.
pub proof fn lemma_block_range_bounds(s: Seq<char>, appid: Seq<char>)
    ensures
        app_block_range(s, appid) matches Some((a, b)) ==> 1 <= a <= b < s.len() && s[a - 1]
            == '{' && s[b] == '}',
{
    let key = quoted(appid);
    lemma_find_from(s, key, 0);
    if let Some(kp) = find_from(s, key, 0) {
        lemma_find_from(s, seq!['{'], kp + key.len());
        if let Some(ob) = find_from(s, seq!['{'], kp + key.len()) {
            assert(s.subrange(ob, ob + 1)[0] == s[ob]);
            lemma_close_brace_bounds(s, ob, 0);
            if let Some(cb) = close_brace_from(s, ob, 0) {
                if cb == ob {
                    assert(s[ob] == '{');
                }
            }
        }
    }
}

} // verus!
