//! What the library scan decides about each installed app: its kind of
//! binaries, whether it is a system tool, its category and DLC list, which
//! anti-cheat it ships, and which icon to show.
use vstd::prelude::*;
use crate::text::{
    chars_of, contains, contains_exec, ends_with, ends_with_exec, extend, starts_with,
    starts_with_exec, str_contains, string_of, text_eq,
};
use crate::cache::{SteamCache, SteamCacheEntry};
use crate::pattern::{regex_captures, regex_captures_all};
use crate::quoted_field::{field_captures, field_values};

verus! {

/// Which Steam API binaries a game ships.
#[derive(Debug, Clone, Copy, PartialEq, Eq, Structural)]
pub enum GameType {
    Proton,
    Native,
    Mixed,
    Unknown,
}

/// How the app is treated in the list.
#[derive(Debug, Clone, Copy, PartialEq, Eq, Structural)]
pub enum AppCategory {
    SystemTool,
    FreeToPlay,
    PaidWithDLC,
    NoDLC,
    DrmFree,
    Unknown,
}

/// A Steam API binary of a game that the proxy can replace.
#[derive(Debug, Clone)]
pub struct TargetFile {
    pub path: String,
    pub is_64bit: bool,
    pub is_linux: bool,
}

/// An installed app and what the scan found out about it.
#[derive(Debug, Clone)]
pub struct SteamGame {
    pub appid: String,
    pub name: String,
    pub install_dir: String,
    pub game_type: GameType,
    pub targets: Vec<TargetFile>,
    pub category: AppCategory,
    pub dlc_list: Vec<u32>,
    pub has_anticheat: bool,
    pub is_online_multiplayer: bool,
    pub anticheat_name: Option<String>,
    pub is_patched: bool,
    pub icon_path: Option<String>,
}

/// The kinds of Steam API binary that the scan looks for.
#[derive(Debug, Clone, Copy, PartialEq, Eq, Structural)]
pub enum TargetKind {
    /// `steam_api.dll`
    Windows32,
    /// `steam_api64.dll`
    Windows64,
    /// `libsteam_api.so`
    Linux,
}

/// Why an app manifest could not be read.
#[derive(Debug, Clone, Copy, PartialEq, Eq, Structural)]
pub enum AcfError {
    MissingAppid,
    MissingName,
    MissingInstalldir,
}

/// What the store's `appdetails` answer says about an app, as far as the
/// scan reads it: `is_free` if it is a boolean, and the entries of `dlc` if
/// it is an array (each entry a number or not).
#[derive(Debug, Clone)]
pub struct AppDetails {
    pub is_free: Option<bool>,
    pub dlc: Option<Vec<Option<u64>>>,
}

/// The lower-case form of `s` (what `str::to_lowercase` returns).
pub uninterp spec fn lowercase(s: Seq<char>) -> Seq<char>;

/// `str::to_lowercase`. Claimed: the result is the named lower-case form of
/// `s`. Not claimed: what Unicode's case mapping gives.
#[verifier::external_body]
fn to_lowercase(s: &str) -> (r: String)
    ensures
        r@ == lowercase(s@),
{
    s.to_lowercase()
}

/// The lower-case form of `s`.
pub fn lower_text(s: &str) -> (r: String)
    ensures
        r@ == lowercase(s@),
{
    to_lowercase(s)
}

// ---------------------------------------------------------------------------
// System tools and categories
// ---------------------------------------------------------------------------

/// The app ids of Steamworks Common Redistributables and Steamworks SDK Redist.
pub open spec fn is_tool_appid(appid: Seq<char>) -> bool {
    appid == "228980"@ || appid == "1391110"@
}

/// An app whose lower-case name or id marks it as part of Steam's tooling.
pub open spec fn names_system_tool(lower_name: Seq<char>, appid: Seq<char>) -> bool {
    ||| contains(lower_name, "proton"@)
    ||| contains(lower_name, "steam linux runtime"@)
    ||| contains(lower_name, "redistributable"@)
    ||| contains(lower_name, "sdk"@)
    ||| is_tool_appid(appid)
}

/// Whether an app with lower-case name `lower_name` and id `appid` is a
/// system tool (Proton, a runtime, a redistributable or an SDK).
pub fn is_system_tool_lower(lower_name: &str, appid: &str) -> (r: bool)
    ensures
        r == names_system_tool(lower_name@, appid@),
{
    let n = chars_of(lower_name);
    contains_exec(&n, &chars_of("proton")) || contains_exec(&n, &chars_of("steam linux runtime"))
        || contains_exec(&n, &chars_of("redistributable")) || contains_exec(&n, &chars_of("sdk"))
        || crate::text::text_eq(appid, "228980") || crate::text::text_eq(appid, "1391110")
}

/// Whether the app named `name` with id `appid` is a system tool.
pub fn is_system_tool(name: &str, appid: &str) -> (r: bool)
    ensures
        r == names_system_tool(lowercase(name@), appid@),
{
    let lower = to_lowercase(name);
    is_system_tool_lower(lower.as_str(), appid)
}

/// Only Steam's own tooling counts as a system tool: an app is one exactly
/// when its lower-case name mentions Proton, the Steam Linux Runtime, a
/// redistributable or an SDK, or its id is that of the Steamworks Common
/// Redistributables (228980) or the Steamworks SDK Redist (1391110). Any
/// other app, one whose name says "steam" among them, is a game.
pub proof fn lemma_system_tool_iff(lower_name: Seq<char>, appid: Seq<char>)
    ensures
        names_system_tool(lower_name, appid) <==> (contains(lower_name, "proton"@) || contains(
            lower_name,
            "steam linux runtime"@,
        ) || contains(lower_name, "redistributable"@) || contains(lower_name, "sdk"@) || appid
            == "228980"@ || appid == "1391110"@),
{
}

/// The category of a store app from whether it is free and its DLC ids.
pub open spec fn category_of(is_free: bool, dlcs: Seq<u32>) -> AppCategory {
    if is_free {
        AppCategory::FreeToPlay
    } else if dlcs.len() == 0 {
        AppCategory::NoDLC
    } else {
        AppCategory::PaidWithDLC
    }
}

/// The category of a store app from whether it is free and its DLC ids.
pub fn category_for(is_free: bool, dlc_list: &Vec<u32>) -> (r: AppCategory)
    ensures
        r == category_of(is_free, dlc_list@),
{
    if is_free {
        AppCategory::FreeToPlay
    } else if dlc_list.len() == 0 {
        AppCategory::NoDLC
    } else {
        AppCategory::PaidWithDLC
    }
}

/// The DLC ids in an `appdetails` `dlc` array: the entries that are numbers,
/// each cut to its low 32 bits.
pub open spec fn dlc_ids_of(entries: Seq<Option<u64>>) -> Seq<u32>
    decreases entries.len(),
{
    if entries.len() == 0 {
        Seq::empty()
    } else {
        let init = dlc_ids_of(entries.drop_last());
        match entries.last() {
            Some(id) => init.push(id as u32),
            None => init,
        }
    }
}

/// The DLC ids in an `appdetails` `dlc` field (none when it is absent).
pub fn dlc_ids(dlc: &Option<Vec<Option<u64>>>) -> (r: Vec<u32>)
    ensures
        r@ == match dlc {
            Some(v) => dlc_ids_of(v@),
            None => Seq::empty(),
        },
{
    let mut r: Vec<u32> = Vec::new();
    match dlc {
        Some(v) => {
            let mut i: usize = 0;
            while i < v.len()
                invariant
                    i <= v.len(),
                    r@ == dlc_ids_of(v@.take(i as int)),
                decreases v.len() - i,
            {
                assert(v@.take(i + 1).drop_last() =~= v@.take(i as int));
                match v[i] {
                    Some(id) => {
                        r.push(id as u32);
                    },
                    None => {},
                }
                i += 1;
            }
            assert(v@.take(v.len() as int) =~= v@);
        },
        None => {},
    }
    r
}

/// The DLC list has one id per numeric entry of the `dlc` array, in order:
/// it is the numeric entries, each cut to its low 32 bits, with the others
/// left out. None is dropped, however many there are.
pub proof fn lemma_dlc_ids_are_numbers(entries: Seq<Option<u64>>)
    ensures
        dlc_ids_of(entries) == entries.filter(|x: Option<u64>| x is Some).map_values(
            |x: Option<u64>| (x->0) as u32,
        ),
    decreases entries.len(),
{
    let keep = |x: Option<u64>| x is Some;
    let cut = |x: Option<u64>| (x->0) as u32;
    reveal(Seq::filter);
    if entries.len() == 0 {
        assert(entries.filter(keep).map_values(cut) =~= Seq::<u32>::empty());
    } else {
        let init = entries.drop_last();
        lemma_dlc_ids_are_numbers(init);
        let f = init.filter(keep);
        match entries.last() {
            Some(id) => {
                assert(f.push(entries.last()).map_values(cut) =~= f.map_values(cut).push(id as u32));
            },
            None => {},
        }
    }
}

/// The DLC ids of two runs of entries, one after the other, are the ids of
/// the first run followed by those of the second.
pub proof fn lemma_dlc_ids_concat(a: Seq<Option<u64>>, b: Seq<Option<u64>>)
    ensures
        dlc_ids_of(a + b) == dlc_ids_of(a) + dlc_ids_of(b),
    decreases b.len(),
{
    if b.len() == 0 {
        assert(a + b =~= a);
        assert(dlc_ids_of(a) + dlc_ids_of(b) =~= dlc_ids_of(a));
    } else {
        assert((a + b).drop_last() =~= a + b.drop_last());
        assert((a + b).last() == b.last());
        lemma_dlc_ids_concat(a, b.drop_last());
        match b.last() {
            Some(id) => {
                assert(dlc_ids_of(a) + dlc_ids_of(b.drop_last()).push(id as u32) =~= (dlc_ids_of(a)
                    + dlc_ids_of(b.drop_last())).push(id as u32));
            },
            None => {},
        }
    }
}

/// The category and DLC ids given by a cached entry.
pub fn apply_cache_entry(game: &mut SteamGame, entry: SteamCacheEntry)
    ensures
        final(game).dlc_list@ == entry.dlc_list@,
        final(game).category == category_of(entry.is_free, entry.dlc_list@),
        *final(game) == (SteamGame {
            dlc_list: final(game).dlc_list,
            category: final(game).category,
            ..*old(game)
        }),
{
    let category = category_for(entry.is_free, &entry.dlc_list);
    game.dlc_list = entry.dlc_list;
    game.category = category;
}

/// Settles the category of `game` without asking the store when possible:
/// a system tool is marked so; an app with a valid cache entry takes its DLC
/// ids and category from it. Returns whether the category is settled.
pub fn categorize_known(game: &mut SteamGame, cache: &SteamCache) -> (done: bool)
    ensures
        names_system_tool(lowercase(old(game).name@), old(game).appid@) ==> done
            && *final(game) == (SteamGame { category: AppCategory::SystemTool, ..*old(game) }),
        !names_system_tool(lowercase(old(game).name@), old(game).appid@) && done
            ==> cache@.contains_key(old(game).appid@)
            && final(game).dlc_list@ == cache@[old(game).appid@].2
            && final(game).category == category_of(cache@[old(game).appid@].1, cache@[old(game).appid@].2),
        !done ==> *final(game) == *old(game),
        *final(game) == (SteamGame {
            dlc_list: final(game).dlc_list,
            category: final(game).category,
            ..*old(game)
        }),
        !cache@.contains_key(old(game).appid@)
            && !names_system_tool(lowercase(old(game).name@), old(game).appid@) ==> !done,
        final(game).appid == old(game).appid,
{
    if is_system_tool(game.name.as_str(), game.appid.as_str()) {
        game.category = AppCategory::SystemTool;
        return true;
    }
    match cache.get(game.appid.as_str()) {
        Some(entry) => {
            apply_cache_entry(game, entry);
            true
        },
        None => false,
    }
}

/// Takes the store's answer for `game` into the game and the cache: the DLC
/// ids and category come from it (`is_free` missing counts as not free), and
/// the cache records them for the app.
pub fn apply_store_details(game: &mut SteamGame, details: &AppDetails, cache: &mut SteamCache)
    ensures
        final(game).dlc_list@ == match details.dlc {
            Some(v) => dlc_ids_of(v@),
            None => Seq::empty(),
        },
        final(game).category == category_of(
            details.is_free == Some(true),
            final(game).dlc_list@,
        ),
        *final(game) == (SteamGame {
            dlc_list: final(game).dlc_list,
            category: final(game).category,
            ..*old(game)
        }),
        final(cache)@ == old(cache)@.insert(
            old(game).appid@,
            (final(cache)@[old(game).appid@].0, details.is_free == Some(true), final(game).dlc_list@),
        ),
{
    let is_free = match details.is_free {
        Some(b) => b,
        None => false,
    };
    let dlc_list = dlc_ids(&details.dlc);
    let copy = dlc_list.clone();
    assert(copy@ =~= dlc_list@);
    game.category = category_for(is_free, &dlc_list);
    game.dlc_list = dlc_list;
    cache.insert(game.appid.clone(), is_free, copy);
}

// ---------------------------------------------------------------------------
// Anti-cheat
// ---------------------------------------------------------------------------

/// The name or path carries an EasyAntiCheat marker.
pub open spec fn eac_marked(n: Seq<char>, p: Seq<char>) -> bool {
    contains(n, "easyanticheat"@) || contains(n, "eac"@) || contains(p, "easyanticheat"@)
}

/// The name or path carries a BattlEye marker.
pub open spec fn battleye_marked(n: Seq<char>, p: Seq<char>) -> bool {
    contains(n, "battleye"@) || contains(p, "battleye"@)
}

/// The name or path carries a Vanguard marker.
pub open spec fn vanguard_marked(n: Seq<char>, p: Seq<char>) -> bool {
    contains(n, "vanguard"@) || contains(p, "vanguard"@)
}

/// The name or path names one of the branded anti-cheats (EasyAntiCheat,
/// BattlEye, Vanguard, Ricochet, XIGNCODE).
pub open spec fn named_marked(n: Seq<char>, p: Seq<char>) -> bool {
    ||| eac_marked(n, p)
    ||| battleye_marked(n, p)
    ||| vanguard_marked(n, p)
    ||| contains(n, "ricochet"@) || contains(p, "ricochet"@)
    ||| contains(n, "xigncode"@) || contains(p, "xigncode"@)
}

/// The anti-cheat that a file suggests, from its lower-case name and path.
pub open spec fn anticheat_of(n: Seq<char>, p: Seq<char>) -> Option<Seq<char>> {
    if contains(n, "easyanticheat"@) || contains(n, "eac"@) || contains(p, "easyanticheat"@) {
        Some("EasyAntiCheat"@)
    } else if contains(n, "battleye"@) || contains(p, "battleye"@) {
        Some("BattlEye"@)
    } else if contains(n, "vanguard"@) || contains(p, "vanguard"@) {
        Some("Vanguard"@)
    } else if contains(n, "ricochet"@) || contains(p, "ricochet"@) {
        Some("Ricochet"@)
    } else if contains(n, "xigncode"@) || contains(p, "xigncode"@) {
        Some("XIGNCODE3"@)
    } else if contains(n, "equ8"@) || contains(n, "nprotect"@) || contains(n, "ace_kernel"@)
        || contains(n, "mhyprot"@) {
        Some("Anti-Cheat"@)
    } else if contains(n, "denuvo"@) && (contains(n, "anticheat"@) || contains(n, "ac"@)) {
        Some("Denuvo Anti-Cheat"@)
    } else {
        None
    }
}

/// A file is flagged exactly when its lower-case name or path carries a
/// known anti-cheat marker: EasyAntiCheat, BattlEye, Vanguard, Ricochet or
/// XIGNCODE in the name or the path; "eac", EQU8, nProtect, ACE's kernel
/// driver or mhyprot in the name; or Denuvo together with "anticheat" or "ac"
/// in the name. Whatever is found is named by one of the known labels.
pub proof fn lemma_anticheat_markers(n: Seq<char>, p: Seq<char>)
    ensures
        anticheat_of(n, p) is Some <==> (contains(n, "easyanticheat"@) || contains(n, "eac"@)
            || contains(p, "easyanticheat"@) || contains(n, "battleye"@) || contains(p, "battleye"@)
            || contains(n, "vanguard"@) || contains(p, "vanguard"@) || contains(n, "ricochet"@)
            || contains(p, "ricochet"@) || contains(n, "xigncode"@) || contains(p, "xigncode"@)
            || contains(n, "equ8"@) || contains(n, "nprotect"@) || contains(n, "ace_kernel"@)
            || contains(n, "mhyprot"@) || (contains(n, "denuvo"@) && (contains(n, "anticheat"@)
            || contains(n, "ac"@)))),
        anticheat_of(n, p) matches Some(l) ==> (l == "EasyAntiCheat"@ || l == "BattlEye"@ || l
            == "Vanguard"@ || l == "Ricochet"@ || l == "XIGNCODE3"@ || l == "Anti-Cheat"@ || l
            == "Denuvo Anti-Cheat"@),
{
}

/// A name that mentions EQU8, nProtect, ACE's kernel driver or mhyprot marks
/// the game as shipping anti-cheat, wherever the file lies.
pub proof fn lemma_anticheat_kernel_markers(n: Seq<char>, p: Seq<char>)
    requires
        contains(n, "equ8"@) || contains(n, "nprotect"@) || contains(n, "ace_kernel"@) || contains(
            n,
            "mhyprot"@,
        ),
    ensures
        anticheat_of(n, p) is Some,
{
    lemma_anticheat_markers(n, p);
}

/// Which anti-cheat a file is named for goes by its markers, EasyAntiCheat
/// first, then BattlEye, Vanguard, Ricochet and XIGNCODE; a name that only
/// carries one of the kernel-driver markers (EQU8, nProtect, ACE, mhyprot)
/// is flagged as anti-cheat without a brand.
pub proof fn lemma_anticheat_labels(n: Seq<char>, p: Seq<char>)
    ensures
        eac_marked(n, p) ==> anticheat_of(n, p) == Some("EasyAntiCheat"@),
        !eac_marked(n, p) && battleye_marked(n, p) ==> anticheat_of(n, p) == Some("BattlEye"@),
        !eac_marked(n, p) && !battleye_marked(n, p) && vanguard_marked(n, p) ==> anticheat_of(n, p)
            == Some("Vanguard"@),
        !eac_marked(n, p) && !battleye_marked(n, p) && !vanguard_marked(n, p) && (contains(
            n,
            "ricochet"@,
        ) || contains(p, "ricochet"@)) ==> anticheat_of(n, p) == Some("Ricochet"@),
        !named_marked(n, p) && (contains(n, "equ8"@) || contains(n, "nprotect"@) || contains(
            n,
            "ace_kernel"@,
        ) || contains(n, "mhyprot"@)) ==> anticheat_of(n, p) == Some("Anti-Cheat"@),
{
}

fn has(s: &Vec<char>, lit: &str) -> (r: bool)
    ensures
        r == contains(s@, lit@),
{
    contains_exec(s, &chars_of(lit))
}

fn text_of(lit: &str) -> (r: Option<String>)
    ensures
        r matches Some(t) && t@ == lit@,
{
    Some(string_of(&chars_of(lit)))
}

/// The anti-cheat that a file suggests, from its lower-case file name and
/// lower-case path.
pub fn anticheat_in(lower_name: &str, lower_path: &str) -> (r: Option<String>)
    ensures
        r matches Some(t) ==> anticheat_of(lower_name@, lower_path@) == Some(t@),
        r is None ==> anticheat_of(lower_name@, lower_path@) is None,
{
    let n = chars_of(lower_name);
    let p = chars_of(lower_path);
    if has(&n, "easyanticheat") || has(&n, "eac") || has(&p, "easyanticheat") {
        text_of("EasyAntiCheat")
    } else if has(&n, "battleye") || has(&p, "battleye") {
        text_of("BattlEye")
    } else if has(&n, "vanguard") || has(&p, "vanguard") {
        text_of("Vanguard")
    } else if has(&n, "ricochet") || has(&p, "ricochet") {
        text_of("Ricochet")
    } else if has(&n, "xigncode") || has(&p, "xigncode") {
        text_of("XIGNCODE3")
    } else if has(&n, "equ8") || has(&n, "nprotect") || has(&n, "ace_kernel") || has(&n, "mhyprot") {
        text_of("Anti-Cheat")
    } else if has(&n, "denuvo") && (has(&n, "anticheat") || has(&n, "ac")) {
        text_of("Denuvo Anti-Cheat")
    } else {
        None
    }
}

/// The anti-cheat that a file with name `file_name` at `path` suggests;
/// both are compared in lower case.
pub fn detect_anticheat(file_name: &str, path: &str) -> (r: Option<String>)
    ensures
        r matches Some(t) ==> anticheat_of(lowercase(file_name@), lowercase(path@)) == Some(t@),
        r is None ==> anticheat_of(lowercase(file_name@), lowercase(path@)) is None,
{
    let n = to_lowercase(file_name);
    let p = to_lowercase(path);
    anticheat_in(n.as_str(), p.as_str())
}

/// Records that `game` ships the anti-cheat `name`, which makes it count as
/// an online game.
pub fn mark_anticheat(game: &mut SteamGame, name: String)
    ensures
        *final(game) == (SteamGame {
            has_anticheat: true,
            is_online_multiplayer: true,
            anticheat_name: Some(name),
            ..*old(game)
        }),
{
    game.has_anticheat = true;
    game.is_online_multiplayer = true;
    game.anticheat_name = Some(name);
}

// ---------------------------------------------------------------------------
// App manifests and binaries
// ---------------------------------------------------------------------------

/// `"appid"` followed by a quoted value.
pub const ACF_APPID_PATTERN: &'static str = r#""appid"\s+"([^"]+)""#;

/// `"name"` followed by a quoted value.
pub const ACF_NAME_PATTERN: &'static str = r#""name"\s+"([^"]+)""#;

/// `"installdir"` followed by a quoted value.
pub const ACF_INSTALLDIR_PATTERN: &'static str = r#""installdir"\s+"([^"]+)""#;

/// `"path"` followed by a quoted value.
pub const LIBRARY_PATH_PATTERN: &'static str = r#""path"\s+"([^"]+)""#;

/// The value of the first field `key` of a manifest.
pub open spec fn acf_field(key: Seq<char>, content: Seq<char>) -> Option<Seq<char>> {
    match field_captures(content, key) {
        Some((_, _, g, _)) => Some(g),
        None => None,
    }
}

/// The `(appid, name, installdir)` of an app manifest, or which of them is
/// missing (the first missing one, in that order).
pub open spec fn acf_fields_of(content: Seq<char>) -> Result<
    (Seq<char>, Seq<char>, Seq<char>),
    AcfError,
> {
    match acf_field("appid"@, content) {
        None => Err(AcfError::MissingAppid),
        Some(a) => match acf_field("name"@, content) {
            None => Err(AcfError::MissingName),
            Some(n) => match acf_field("installdir"@, content) {
                None => Err(AcfError::MissingInstalldir),
                Some(d) => Ok((a, n, d)),
            },
        },
    }
}

fn first_group(pattern: &str, content: &str, Ghost(key): Ghost<Seq<char>>) -> (r: Option<String>)
    requires
        (pattern@ == ACF_APPID_PATTERN@ && key == "appid"@) || (pattern@ == ACF_NAME_PATTERN@ && key
            == "name"@) || (pattern@ == ACF_INSTALLDIR_PATTERN@ && key == "installdir"@),
    ensures
        r matches Some(g) ==> acf_field(key, content@) == Some(g@),
        r is None ==> acf_field(key, content@) is None,
{
    match regex_captures(pattern, content) {
        Some((_, _, g, _)) => Some(g),
        None => None,
    }
}

/// Reads the app id, name and install folder name from an app manifest
/// (`appmanifest_<id>.acf`).
pub fn acf_fields(content: &str) -> (r: Result<(String, String, String), AcfError>)
    ensures
        r matches Ok((a, n, d)) ==> acf_fields_of(content@) == Ok::<_, AcfError>((a@, n@, d@)),
        r matches Err(e) ==> acf_fields_of(content@) == Err::<(Seq<char>, Seq<char>, Seq<char>), _>(e),
{
    let appid = match first_group(ACF_APPID_PATTERN, content, Ghost("appid"@)) {
        Some(a) => a,
        None => return Err(AcfError::MissingAppid),
    };
    let name = match first_group(ACF_NAME_PATTERN, content, Ghost("name"@)) {
        Some(n) => n,
        None => return Err(AcfError::MissingName),
    };
    let dir = match first_group(ACF_INSTALLDIR_PATTERN, content, Ghost("installdir"@)) {
        Some(d) => d,
        None => return Err(AcfError::MissingInstalldir),
    };
    Ok((appid, name, dir))
}

/// The library folders listed in a `libraryfolders.vdf` text: the value of
/// every `"path"` entry, in order.
pub fn library_folder_paths(content: &str) -> (r: Vec<String>)
    ensures
        r@.len() == field_values(content@, "path"@).len(),
        forall|i: int| 0 <= i < r@.len() ==> #[trigger] r@[i]@ == field_values(content@, "path"@)[i],
{
    regex_captures_all(LIBRARY_PATH_PATTERN, content)
}

/// The kind of Steam API binary a file name denotes.
pub open spec fn target_kind_of(file_name: Seq<char>) -> Option<TargetKind> {
    if file_name == "steam_api.dll"@ {
        Some(TargetKind::Windows32)
    } else if file_name == "steam_api64.dll"@ {
        Some(TargetKind::Windows64)
    } else if file_name == "libsteam_api.so"@ {
        Some(TargetKind::Linux)
    } else {
        None
    }
}

/// The kind of Steam API binary a file name denotes, if any.
pub fn target_kind(file_name: &str) -> (r: Option<TargetKind>)
    ensures
        r == target_kind_of(file_name@),
{
    if crate::text::text_eq(file_name, "steam_api.dll") {
        Some(TargetKind::Windows32)
    } else if crate::text::text_eq(file_name, "steam_api64.dll") {
        Some(TargetKind::Windows64)
    } else if crate::text::text_eq(file_name, "libsteam_api.so") {
        Some(TargetKind::Linux)
    } else {
        None
    }
}

/// The file name the original binary gets when the proxy takes its place.
pub open spec fn backup_name_of(kind: TargetKind) -> Seq<char> {
    match kind {
        TargetKind::Windows32 => "steam_api_o.dll"@,
        TargetKind::Windows64 => "steam_api64_o.dll"@,
        TargetKind::Linux => "libsteam_api_o.so"@,
    }
}

/// The file name the original binary gets when the proxy takes its place;
/// its presence beside a binary means the game is patched.
pub fn backup_name(kind: TargetKind) -> (r: &'static str)
    ensures
        r@ == backup_name_of(kind),
{
    match kind {
        TargetKind::Windows32 => "steam_api_o.dll",
        TargetKind::Windows64 => "steam_api64_o.dll",
        TargetKind::Linux => "libsteam_api_o.so",
    }
}

/// Whether the first five bytes of a shared library (`None` when they could
/// not be read) say it is 64-bit: an ELF file whose class byte is 2. Anything
/// that is not a readable ELF header counts as 64-bit.
pub open spec fn elf_is_64bit(header: Option<[u8; 5]>) -> bool {
    match header {
        Some(h) => if h@[0] == 0x7f && h@[1] == 0x45 && h@[2] == 0x4c && h@[3] == 0x46 {
            h@[4] == 2
        } else {
            true
        },
        None => true,
    }
}

/// Whether a shared library with these first five bytes is 64-bit.
pub fn is_elf64_header(header: Option<[u8; 5]>) -> (r: bool)
    ensures
        r == elf_is_64bit(header),
{
    match header {
        Some(h) => if h[0] == 0x7f && h[1] == 0x45 && h[2] == 0x4c && h[3] == 0x46 {
            h[4] == 2
        } else {
            true
        },
        None => true,
    }
}

/// The target record for a binary of kind `kind` at `path`; `elf64` is what
/// the binary's header says, used for Linux libraries only.
pub fn target_for(kind: TargetKind, path: String, elf64: bool) -> (r: TargetFile)
    ensures
        r.path == path,
        r.is_linux == (kind == TargetKind::Linux),
        r.is_64bit == match kind {
            TargetKind::Windows32 => false,
            TargetKind::Windows64 => true,
            TargetKind::Linux => elf64,
        },
{
    match kind {
        TargetKind::Windows32 => TargetFile { path, is_64bit: false, is_linux: false },
        TargetKind::Windows64 => TargetFile { path, is_64bit: true, is_linux: false },
        TargetKind::Linux => TargetFile { path, is_64bit: elf64, is_linux: true },
    }
}

/// The game type from whether Windows and Linux binaries were found.
pub open spec fn game_type_of(has_windows: bool, has_linux: bool) -> GameType {
    if has_windows && has_linux {
        GameType::Mixed
    } else if has_windows {
        GameType::Proton
    } else if has_linux {
        GameType::Native
    } else {
        GameType::Unknown
    }
}

/// Some target is a Windows binary.
pub open spec fn has_windows_target(ts: Seq<TargetFile>) -> bool {
    exists|i: int| 0 <= i < ts.len() && !(#[trigger] ts[i]).is_linux
}

/// Some target is a Linux binary.
pub open spec fn has_linux_target(ts: Seq<TargetFile>) -> bool {
    exists|i: int| 0 <= i < ts.len() && (#[trigger] ts[i]).is_linux
}

/// Whether some target is a Windows binary.
pub fn any_windows_target(targets: &Vec<TargetFile>) -> (r: bool)
    ensures
        r == has_windows_target(targets@),
{
    let mut i: usize = 0;
    while i < targets.len()
        invariant
            i <= targets.len(),
            forall|k: int| 0 <= k < i ==> (#[trigger] targets@[k]).is_linux,
        decreases targets.len() - i,
    {
        if !targets[i].is_linux {
            return true;
        }
        i += 1;
    }
    false
}

/// Whether some target is a Linux binary.
pub fn any_linux_target(targets: &Vec<TargetFile>) -> (r: bool)
    ensures
        r == has_linux_target(targets@),
{
    let mut i: usize = 0;
    while i < targets.len()
        invariant
            i <= targets.len(),
            forall|k: int| 0 <= k < i ==> !(#[trigger] targets@[k]).is_linux,
        decreases targets.len() - i,
    {
        if targets[i].is_linux {
            return true;
        }
        i += 1;
    }
    false
}

/// The game type of a game with these targets.
pub fn game_type_for(targets: &Vec<TargetFile>) -> (r: GameType)
    ensures
        r == game_type_of(has_windows_target(targets@), has_linux_target(targets@)),
{
    let w = any_windows_target(targets);
    let l = any_linux_target(targets);
    if w && l {
        GameType::Mixed
    } else if w {
        GameType::Proton
    } else if l {
        GameType::Native
    } else {
        GameType::Unknown
    }
}

/// A freshly scanned game: its type follows from its targets, and its
/// category, DLC list and anti-cheat are not known yet.
pub fn new_game(
    appid: String,
    name: String,
    install_dir: String,
    targets: Vec<TargetFile>,
    is_patched: bool,
    icon_path: Option<String>,
) -> (r: SteamGame)
    ensures
        r.appid == appid,
        r.name == name,
        r.install_dir == install_dir,
        r.targets == targets,
        r.game_type == game_type_of(has_windows_target(targets@), has_linux_target(targets@)),
        r.category == AppCategory::Unknown,
        r.dlc_list@.len() == 0,
        !r.has_anticheat,
        !r.is_online_multiplayer,
        r.anticheat_name is None,
        r.is_patched == is_patched,
        r.icon_path == icon_path,
{
    let game_type = game_type_for(&targets);
    SteamGame {
        appid,
        name,
        install_dir,
        game_type,
        targets,
        category: AppCategory::Unknown,
        dlc_list: Vec::new(),
        has_anticheat: false,
        is_online_multiplayer: false,
        anticheat_name: None,
        is_patched,
        icon_path,
    }
}

/// Adds a scanned game to the list unless a game with its app id is there
/// already (an app installed in two libraries is listed once, from the first
/// manifest found); says whether it was added.
pub fn add_if_new(games: &mut Vec<SteamGame>, game: SteamGame) -> (r: bool)
    ensures
        r == !(exists|i: int| 0 <= i < old(games)@.len() && (#[trigger] old(games)@[i]).appid@
            == game.appid@),
        r ==> final(games)@ == old(games)@.push(game),
        !r ==> final(games)@ == old(games)@,
{
    let mut i: usize = 0;
    while i < games.len()
        invariant
            i <= games.len(),
            forall|k: int| 0 <= k < i ==> (#[trigger] games@[k]).appid@ != game.appid@,
        decreases games.len() - i,
    {
        if text_eq(games[i].appid.as_str(), game.appid.as_str()) {
            return false;
        }
        i += 1;
    }
    games.push(game);
    true
}

// ---------------------------------------------------------------------------
// Icons
// ---------------------------------------------------------------------------

/// The file name prefix of the desktop icons Steam installs for an app.
pub open spec fn icon_prefix(appid: Seq<char>) -> Seq<char> {
    "steam_icon_"@ + appid
}

/// Whether a file with this name is a desktop icon of the app.
pub fn is_icon_candidate(file_name: &str, appid: &str) -> (r: bool)
    ensures
        r == starts_with(file_name@, icon_prefix(appid@)),
{
    let mut v = chars_of("steam_icon_");
    extend(&mut v, &chars_of(appid));
    let prefix = string_of(&v);
    starts_with_exec(file_name, prefix.as_str())
}

/// How much an icon's path is preferred: large or scalable icons most.
pub open spec fn icon_score_of(path: Seq<char>) -> u8 {
    if contains(path, "256x256"@) || contains(path, "scalable"@) {
        4
    } else if contains(path, "128x128"@) {
        3
    } else if contains(path, "64x64"@) {
        2
    } else if contains(path, "48x48"@) || contains(path, "32x32"@) {
        1
    } else {
        0
    }
}

/// How much an icon's path is preferred.
pub fn icon_score(path: &str) -> (r: u8)
    ensures
        r == icon_score_of(path@),
{
    if str_contains(path, "256x256") || str_contains(path, "scalable") {
        4
    } else if str_contains(path, "128x128") {
        3
    } else if str_contains(path, "64x64") {
        2
    } else if str_contains(path, "48x48") || str_contains(path, "32x32") {
        1
    } else {
        0
    }
}

/// The preferred icon among `paths`: the highest score, the last of equals.
pub open spec fn best_icon_of(paths: Seq<String>) -> Option<int>
    decreases paths.len(),
{
    if paths.len() == 0 {
        None
    } else {
        let last = paths.len() - 1;
        match best_icon_of(paths.drop_last()) {
            None => Some(last),
            Some(j) => if icon_score_of(paths[last]@) >= icon_score_of(paths[j]@) {
                Some(last)
            } else {
                Some(j)
            },
        }
    }
}

/// The index of the preferred icon among `paths`: the highest score, and
/// of several with that score the last.
pub fn best_icon(paths: &Vec<String>) -> (r: Option<usize>)
    ensures
        r matches Some(i) ==> best_icon_of(paths@) == Some(i as int),
        r is None ==> best_icon_of(paths@) is None,
{
    let mut best: Option<usize> = None;
    let mut best_score: u8 = 0;
    let mut i: usize = 0;
    while i < paths.len()
        invariant
            i <= paths.len(),
            best matches Some(b) ==> best_icon_of(paths@.take(i as int)) == Some(b as int) && b < i
                && best_score == icon_score_of(paths@[b as int]@),
            best is None ==> best_icon_of(paths@.take(i as int)) is None && i == 0,
        decreases paths.len() - i,
    {
        let sc = icon_score(paths[i].as_str());
        let ghost t = paths@.take(i + 1);
        assert(t.drop_last() =~= paths@.take(i as int));
        assert(t[i as int] == paths@[i as int]);
        match best {
            None => {
                best = Some(i);
                best_score = sc;
            },
            Some(b) => {
                assert(t[b as int] == paths@[b as int]);
                if sc >= best_score {
                    best = Some(i);
                    best_score = sc;
                }
            },
        }
        i += 1;
    }
    assert(paths@.take(paths.len() as int) =~= paths@);
    best
}

/// A library cache image named `n` is a hash-named JPEG: at least 40 bytes
/// of name ending in `.jpg`.
pub open spec fn is_hash_jpg(n: Seq<char>) -> bool {
    vstd::utf8::encode_utf8(n).len() >= 40 && ends_with(n, ".jpg"@)
}

/// A library cache image named `n` is a header JPEG.
pub open spec fn is_header_jpg(n: Seq<char>) -> bool {
    contains(n, "header"@) && ends_with(n, ".jpg"@)
}

/// The last index `< i` whose name satisfies the image kind `k`
/// (0: `logo.png`, 1: header JPEG, 2: hash-named JPEG), names counting for
/// the first kind they fit.
pub open spec fn last_of_kind(names: Seq<String>, k: int, i: int) -> Option<int>
    decreases i,
{
    if i <= 0 {
        None
    } else {
        let n = names[i - 1]@;
        let kind: int = if n == "logo.png"@ {
            0
        } else if is_header_jpg(n) {
            1
        } else if is_hash_jpg(n) {
            2
        } else {
            3
        };
        if kind == k {
            Some(i - 1)
        } else {
            last_of_kind(names, k, i - 1)
        }
    }
}

/// The image to show from an app's library cache folder (the names of its
/// files, in listing order): the last `logo.png`, else the last header JPEG,
/// else the last hash-named JPEG.
pub open spec fn cache_image_of(names: Seq<String>) -> Option<int> {
    match last_of_kind(names, 0, names.len() as int) {
        Some(i) => Some(i),
        None => match last_of_kind(names, 1, names.len() as int) {
            Some(i) => Some(i),
            None => last_of_kind(names, 2, names.len() as int),
        },
    }
}

/// The index of the image to show from an app's library cache folder.
pub fn pick_cache_image(names: &Vec<String>) -> (r: Option<usize>)
    ensures
        r matches Some(i) ==> cache_image_of(names@) == Some(i as int),
        r is None ==> cache_image_of(names@) is None,
{
    let mut logo: Option<usize> = None;
    let mut header: Option<usize> = None;
    let mut hash: Option<usize> = None;
    let mut i: usize = 0;
    while i < names.len()
        invariant
            i <= names.len(),
            logo matches Some(x) ==> last_of_kind(names@, 0, i as int) == Some(x as int),
            logo is None ==> last_of_kind(names@, 0, i as int) is None,
            header matches Some(x) ==> last_of_kind(names@, 1, i as int) == Some(x as int),
            header is None ==> last_of_kind(names@, 1, i as int) is None,
            hash matches Some(x) ==> last_of_kind(names@, 2, i as int) == Some(x as int),
            hash is None ==> last_of_kind(names@, 2, i as int) is None,
        decreases names.len() - i,
    {
        let n = names[i].as_str();
        if text_eq(n, "logo.png") {
            logo = Some(i);
        } else if str_contains(n, "header") && ends_with_exec(n, ".jpg") {
            header = Some(i);
        } else if n.as_bytes().len() >= 40 && ends_with_exec(n, ".jpg") {
            hash = Some(i);
        }
        i += 1;
    }
    if logo.is_some() {
        logo
    } else if header.is_some() {
        header
    } else {
        hash
    }
}

/// The file name of the icon Steam keeps directly in the library cache.
pub fn direct_icon_name(appid: &str) -> (r: String)
    ensures
        r@ == appid@ + "_icon.jpg"@,
{
    let mut v = chars_of(appid);
    extend(&mut v, &chars_of("_icon.jpg"));
    string_of(&v)
}

} // verus!
