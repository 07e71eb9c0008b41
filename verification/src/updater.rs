//! Deciding about the SmokeAPI core that ships with the app: whether the
//! installed core is current, which release asset to fetch and which archive
//! entries are core files.
use vstd::prelude::*;
use crate::text::{
    chars_of, contains, ends_with, ends_with_exec, extend, str_contains, string_of, text_eq, trim,
    trim_exec,
};

use crate::archive::{
    archive_entries, entries_view, entry_view, files_view, picked_files, picks_view, read_picked,
    zip_entry_names,
};

verus! {

/// The GitHub API address of the latest SmokeAPI release.
pub const CORE_RELEASE_URL: &'static str = "https://api.github.com/repos/acidicoala/SmokeAPI/releases/latest";

/// The start of the report that the core is current.
pub const UP_TO_DATE_PREFIX: &'static str = "Обновление не требуется. Текущая версия: ";

/// The start of the report that the core was updated.
pub const UPDATED_PREFIX: &'static str = "Успешно обновлено до ";

/// Why no core files were installed.
#[derive(Debug, Clone, Copy, PartialEq, Eq, Structural)]
pub enum CoreError {
    /// No release asset looks like a core archive, or it has no address.
    NoSuitableAsset,
    /// The archive holds none of the core files.
    NothingExtracted,
    /// The archive, one of its entries, or a core file in it cannot be read.
    ArchiveUnreadable,
}

/// Whether the recorded core version `installed` (as read from its file) is
/// the release tag `tag`, ignoring surrounding whitespace.
pub fn core_is_current(installed: &str, tag: &str) -> (r: bool)
    ensures
        r == (trim(installed@) == tag@),
{
    let t = trim_exec(&chars_of(installed));
    let s = string_of(&t);
    text_eq(s.as_str(), tag)
}

/// A release asset name that looks like a core archive.
pub open spec fn is_core_asset_name(n: Seq<char>) -> bool {
    ends_with(n, ".zip"@) || contains(n, "linux"@) || contains(n, "win"@)
}

/// An asset is taken for a core archive exactly when its name ends in
/// `.zip` or mentions Linux or Windows ("linux", "win"); so every `.zip`
/// asset is one.
pub proof fn lemma_core_asset_names(n: Seq<char>)
    ensures
        is_core_asset_name(n) <==> (ends_with(n, ".zip"@) || contains(n, "linux"@) || contains(
            n,
            "win"@,
        )),
        ends_with(n, ".zip"@) ==> is_core_asset_name(n),
{
}

/// A release asset whose name looks like a core archive.
pub open spec fn is_core_asset(a: (Option<String>, Option<String>)) -> bool {
    a.0 matches Some(n) && is_core_asset_name(n@)
}

/// The asset at `i` is the first one whose name looks like a core archive.
pub open spec fn first_core_asset(assets: Seq<(Option<String>, Option<String>)>, i: int) -> bool {
    &&& 0 <= i < assets.len()
    &&& is_core_asset(assets[i])
    &&& forall|j: int| 0 <= j < i ==> !is_core_asset(#[trigger] assets[j])
}

/// The download address of the first release asset (given as
/// `(name, browser_download_url)`) whose name looks like a core archive;
/// none if there is no such asset or it has no address.
pub fn pick_core_asset(assets: &Vec<(Option<String>, Option<String>)>) -> (r: Option<String>)
    ensures
        r matches Some(u) ==> exists|i: int| #[trigger] first_core_asset(assets@, i) && assets@[i].1 == Some(u),
        r is None ==> forall|i: int| #[trigger] first_core_asset(assets@, i) ==> assets@[i].1 is None,
{
    let mut i: usize = 0;
    while i < assets.len()
        invariant
            i <= assets.len(),
            forall|j: int| 0 <= j < i ==> !is_core_asset(#[trigger] assets@[j]),
        decreases assets.len() - i,
    {
        let hit = match &assets[i].0 {
            Some(n) => ends_with_exec(n.as_str(), ".zip") || str_contains(n.as_str(), "linux")
                || str_contains(n.as_str(), "win"),
            None => false,
        };
        if hit {
            assert(first_core_asset(assets@, i as int));
            proof {
                assert forall|k: int| #[trigger] first_core_asset(assets@, k) implies k == i by {
                    if k < i {
                    } else if k > i {
                        assert(!is_core_asset(assets@[i as int]));
                    }
                }
            }
            return match &assets[i].1 {
                Some(u) => Some(u.clone()),
                None => None,
            };
        }
        i += 1;
    }
    None
}

/// A release whose first asset is a `.zip` archive is answered with that
/// asset: it is the first core asset and no other one is.
pub proof fn lemma_first_zip_picked(assets: Seq<(Option<String>, Option<String>)>)
    requires
        assets.len() > 0,
        assets[0].0 matches Some(n) && ends_with(n@, ".zip"@),
    ensures
        first_core_asset(assets, 0),
        forall|i: int| #[trigger] first_core_asset(assets, i) ==> i == 0,
{
    lemma_core_asset_names(assets[0].0->0@);
    assert forall|i: int| #[trigger] first_core_asset(assets, i) implies i == 0 by {
        if i > 0 {
            assert(!is_core_asset(assets[0]));
        }
    }
}

/// A core file name.
pub open spec fn is_core_file_name(n: Seq<char>) -> bool {
    ||| n == "libsmoke_api32.so"@
    ||| n == "libsmoke_api64.so"@
    ||| n == "smoke_api32.dll"@
    ||| n == "smoke_api64.dll"@
    ||| n == "SmokeAPI.config.json"@
}

/// Whether an archive entry is one of the core files (the 32- and 64-bit
/// Linux and Windows proxies and the SmokeAPI config).
pub fn is_core_file(name: &str) -> (r: bool)
    ensures
        r == is_core_file_name(name@),
{
    text_eq(name, "libsmoke_api32.so") || text_eq(name, "libsmoke_api64.so") || text_eq(
        name,
        "smoke_api32.dll",
    ) || text_eq(name, "smoke_api64.dll") || text_eq(name, "SmokeAPI.config.json")
}

/// The report that the core is already at release `tag`.
pub fn up_to_date_message(tag: &str) -> (r: String)
    ensures
        r@ == UP_TO_DATE_PREFIX@ + tag@,
{
    let mut v = chars_of(UP_TO_DATE_PREFIX);
    extend(&mut v, &chars_of(tag));
    string_of(&v)
}

/// The report that the core was updated to release `tag`.
pub fn updated_message(tag: &str) -> (r: String)
    ensures
        r@ == UPDATED_PREFIX@ + tag@,
{
    let mut v = chars_of(UPDATED_PREFIX);
    extend(&mut v, &chars_of(tag));
    string_of(&v)
}

/// The name under which an archive's entry `(stored name, enclosed name)`
/// is kept as a core file: its stored name, when that is a core file name.
pub open spec fn core_pick(e: (Seq<char>, Option<Seq<char>>)) -> Option<Seq<char>> {
    if is_core_file_name(e.0) {
        Some(e.0)
    } else {
        None
    }
}

/// The core files of the archive `bytes`, in order, each as its stored name
/// and contents; none when the archive or a core file in it cannot be read.
pub open spec fn core_files_of(bytes: Seq<u8>) -> Option<Seq<(Seq<char>, Seq<u8>)>> {
    match zip_entry_names(bytes) {
        Some(es) => picked_files(bytes, es.map_values(|e| core_pick(e)), es.len() as int),
        None => None,
    }
}

/// The core files to write from the archive `bytes`:
/// [`CoreError::ArchiveUnreadable`] when the archive or a core file in it
/// cannot be read, [`CoreError::NothingExtracted`] when it holds none.
pub fn core_files(bytes: &[u8]) -> (r: Result<Vec<(String, Vec<u8>)>, CoreError>)
    ensures
        core_files_of(bytes@) is None <==> r == Err::<Vec<(String, Vec<u8>)>, _>(
            CoreError::ArchiveUnreadable,
        ),
        core_files_of(bytes@) matches Some(fs) && fs.len() == 0 ==> r == Err::<
            Vec<(String, Vec<u8>)>,
            _,
        >(CoreError::NothingExtracted),
        r matches Ok(fs) ==> core_files_of(bytes@) == Some(files_view(fs@)) && fs@.len() > 0,
        r matches Err(e) ==> e != CoreError::NoSuitableAsset,
{
    let entries = match archive_entries(bytes) {
        Some(es) => es,
        None => return Err(CoreError::ArchiveUnreadable),
    };
    let ghost es = entries_view(entries@);
    let mut picks: Vec<Option<String>> = Vec::new();
    let mut i: usize = 0;
    while i < entries.len()
        invariant
            i <= entries.len(),
            es == entries_view(entries@),
            picks_view(picks@) == es.take(i as int).map_values(|e| core_pick(e)),
        decreases entries.len() - i,
    {
        let e = &entries[i];
        assert(es[i as int] == entry_view(entries@[i as int]));
        let pick = if is_core_file(e.name.as_str()) {
            Some(e.name.clone())
        } else {
            None
        };
        let ghost pv = match &pick {
            Some(n) => Some(n@),
            None => None,
        };
        assert(pv == core_pick(es[i as int]));
        let ghost before = picks@;
        picks.push(pick);
        assert(picks_view(picks@) =~= picks_view(before).push(pv));
        assert(es.take(i + 1).map_values(|e| core_pick(e)) =~= es.take(i as int).map_values(
            |e| core_pick(e),
        ).push(core_pick(es[i as int])));
        i += 1;
    }
    assert(es.take(entries.len() as int) =~= es);
    match read_picked(bytes, &picks) {
        None => Err(CoreError::ArchiveUnreadable),
        Some(fs) => if fs.len() == 0 {
            Err(CoreError::NothingExtracted)
        } else {
            Ok(fs)
        },
    }
}

} // verus!
