//! Deciding about SmokeAPI releases: the installed version, whether a newer
//! release exists, which release asset to download and which archive
//! entries to keep.
use vstd::prelude::*;
use crate::text::{chars_of, contains, ends_with, ends_with_exec, str_contains, string_of};
use crate::archive::{
    archive_entries, entries_view, entry_view, files_view, picked_files, picks_view, read_picked,
    zip_entry_names, ZipEntry,
};
use crate::injector::{file_name_of, path_file_name};

verus! {

/// The GitHub API address of the latest SmokeAPI release.
pub const GITHUB_RELEASE_URL: &'static str = "https://api.github.com/repos/acidicoala/SmokeAPI/releases/latest";

/// The version reported when no downloaded SmokeAPI is installed.
pub const BUNDLED_VERSION: &'static str = "v2.0.0 (Bundled)";

/// The version record written next to downloaded SmokeAPI binaries.
#[derive(Debug, Clone)]
pub struct SmokeApiVersionInfo {
    pub version: String,
    pub updated_at: String,
}

/// The installed SmokeAPI version and what the latest release is.
#[derive(Debug, Clone)]
pub struct SmokeApiStatus {
    pub installed_version: String,
    pub latest_version: Option<String>,
    pub update_available: bool,
}

/// Why no release asset could be chosen.
#[derive(Debug, Clone, Copy, PartialEq, Eq, Structural)]
pub enum AssetError {
    /// No asset's name ends in `.zip`.
    NoZipAsset,
    /// The chosen asset has no download address.
    NoDownloadUrl,
}

/// The installed version: the one recorded, or the bundled one when there
/// is no readable record.
pub fn installed_version_from(info: Option<SmokeApiVersionInfo>) -> (r: String)
    ensures
        r@ == match info {
            Some(i) => i.version@,
            None => BUNDLED_VERSION@,
        },
{
    match info {
        Some(i) => i.version,
        None => string_of(&chars_of(BUNDLED_VERSION)),
    }
}

/// The status given the installed version and the latest release's tag (empty
/// when the release had none): an update is available when there is a tag
/// that the installed version does not mention.
pub fn update_status(current_version: String, latest_tag: String) -> (r: SmokeApiStatus)
    ensures
        r.installed_version == current_version,
        r.update_available == (latest_tag@.len() > 0 && !contains(current_version@, latest_tag@)),
        latest_tag@.len() == 0 ==> r.latest_version is None,
        latest_tag@.len() > 0 ==> r.latest_version == Some(latest_tag),
{
    let empty = latest_tag.as_str().is_empty();
    let update_available = !empty && !str_contains(current_version.as_str(), latest_tag.as_str());
    SmokeApiStatus {
        installed_version: current_version,
        latest_version: if empty {
            None
        } else {
            Some(latest_tag)
        },
        update_available,
    }
}

/// The asset named `n` is a `.zip` archive.
pub open spec fn is_zip_name(n: Option<String>) -> bool {
    n matches Some(s) && ends_with(s@, ".zip"@)
}

/// The download address of the first `.zip` asset of a release, given each
/// asset's `(name, browser_download_url)`.
pub fn pick_zip_asset(assets: &Vec<(Option<String>, Option<String>)>) -> (r: Result<String, AssetError>)
    ensures
        r matches Ok(u) ==> exists|i: int|
            0 <= i < assets@.len() && is_zip_name(#[trigger] assets@[i].0) && (forall|j: int|
                0 <= j < i ==> !is_zip_name(#[trigger] assets@[j].0)) && assets@[i].1 == Some(u),
        r matches Err(AssetError::NoZipAsset) ==> forall|i: int|
            0 <= i < assets@.len() ==> !is_zip_name(#[trigger] assets@[i].0),
        r matches Err(AssetError::NoDownloadUrl) ==> exists|i: int|
            0 <= i < assets@.len() && is_zip_name(#[trigger] assets@[i].0) && (forall|j: int|
                0 <= j < i ==> !is_zip_name(#[trigger] assets@[j].0)) && assets@[i].1 is None,
{
    let mut i: usize = 0;
    while i < assets.len()
        invariant
            i <= assets.len(),
            forall|j: int| 0 <= j < i ==> !is_zip_name(#[trigger] assets@[j].0),
        decreases assets.len() - i,
    {
        let is_zip = match &assets[i].0 {
            Some(n) => ends_with_exec(n.as_str(), ".zip"),
            None => false,
        };
        if is_zip {
            return match &assets[i].1 {
                Some(u) => Ok(u.clone()),
                None => Err(AssetError::NoDownloadUrl),
            };
        }
        i += 1;
    }
    Err(AssetError::NoZipAsset)
}

/// An archive entry worth keeping from a SmokeAPI release.
pub open spec fn is_resource_name(n: Seq<char>) -> bool {
    ||| contains(n, "smoke_api"@)
    ||| contains(n, "SmokeAPI"@)
    ||| ends_with(n, ".so"@)
    ||| ends_with(n, ".dll"@)
    ||| ends_with(n, ".json"@)
}

/// Whether an archive entry with this file name is kept: a SmokeAPI file, a
/// shared library, a DLL or a JSON file.
pub fn is_resource_file(file_name: &str) -> (r: bool)
    ensures
        r == is_resource_name(file_name@),
{
    str_contains(file_name, "smoke_api") || str_contains(file_name, "SmokeAPI") || ends_with_exec(
        file_name,
        ".so",
    ) || ends_with_exec(file_name, ".dll") || ends_with_exec(file_name, ".json")
}

/// Whether an archive entry name denotes a directory (ends in `/`).
pub fn is_directory_entry(entry_name: &str) -> (r: bool)
    ensures
        r == ends_with(entry_name@, "/"@),
{
    ends_with_exec(entry_name, "/")
}

/// The name under which a release archive's entry `(stored name, enclosed
/// name)` is kept: its file name, when it has an enclosed name, is not a
/// directory and its file name is a resource name.
pub open spec fn resource_pick(e: (Seq<char>, Option<Seq<char>>)) -> Option<Seq<char>> {
    match e.1 {
        Some(p) => if !ends_with(e.0, "/"@) && is_resource_name(path_file_name(p)) {
            Some(path_file_name(p))
        } else {
            None
        },
        None => None,
    }
}

/// The files to keep from the release archive `bytes`: each kept entry,
/// in order, as its file name and contents; none when the archive or a kept
/// entry cannot be read.
pub open spec fn resource_files_of(bytes: Seq<u8>) -> Option<Seq<(Seq<char>, Seq<u8>)>> {
    match zip_entry_names(bytes) {
        Some(es) => picked_files(bytes, es.map_values(|e| resource_pick(e)), es.len() as int),
        None => None,
    }
}

/// The folders to create for a release archive's entries: the enclosed
/// names of its directory entries, in order.
pub open spec fn resource_dirs_of(es: Seq<(Seq<char>, Option<Seq<char>>)>) -> Seq<Seq<char>>
    decreases es.len(),
{
    if es.len() == 0 {
        Seq::empty()
    } else {
        let init = resource_dirs_of(es.drop_last());
        let e = es.last();
        match e.1 {
            Some(p) => if ends_with(e.0, "/"@) {
                init.push(p)
            } else {
                init
            },
            None => init,
        }
    }
}

/// The files to write from the release archive `bytes`, each as its file
/// name and contents, or none when the archive or a kept entry cannot be
/// read.
pub fn resource_files(bytes: &[u8]) -> (r: Option<Vec<(String, Vec<u8>)>>)
    ensures
        r is None <==> resource_files_of(bytes@) is None,
        r matches Some(fs) ==> resource_files_of(bytes@) == Some(files_view(fs@)),
{
    let entries = match archive_entries(bytes) {
        Some(es) => es,
        None => return None,
    };
    let ghost es = entries_view(entries@);
    let mut picks: Vec<Option<String>> = Vec::new();
    let mut i: usize = 0;
    while i < entries.len()
        invariant
            i <= entries.len(),
            es == entries_view(entries@),
            picks_view(picks@) == es.take(i as int).map_values(|e| resource_pick(e)),
        decreases entries.len() - i,
    {
        let e = &entries[i];
        assert(es[i as int] == entry_view(entries@[i as int]));
        let pick = match &e.enclosed {
            Some(p) => {
                let f = file_name_of(p.as_str());
                if !is_directory_entry(e.name.as_str()) && is_resource_file(f.as_str()) {
                    Some(f)
                } else {
                    None
                }
            },
            None => None,
        };
        let ghost pv = match &pick {
            Some(n) => Some(n@),
            None => None,
        };
        assert(pv == resource_pick(es[i as int]));
        let ghost before = picks@;
        picks.push(pick);
        assert(picks_view(picks@) =~= picks_view(before).push(pv));
        assert(es.take(i + 1).map_values(|e| resource_pick(e)) =~= es.take(i as int).map_values(
            |e| resource_pick(e),
        ).push(resource_pick(es[i as int])));
        i += 1;
    }
    assert(es.take(entries.len() as int) =~= es);
    read_picked(bytes, &picks)
}

/// The folders to create from a release archive's entries.
pub fn resource_dirs(entries: &Vec<ZipEntry>) -> (r: Vec<String>)
    ensures
        r@.map_values(|d: String| d@) == resource_dirs_of(entries_view(entries@)),
{
    let ghost es = entries_view(entries@);
    let mut r: Vec<String> = Vec::new();
    let mut i: usize = 0;
    assert(es.take(0) =~= Seq::<(Seq<char>, Option<Seq<char>>)>::empty());
    assert(r@.map_values(|d: String| d@) =~= Seq::<Seq<char>>::empty());
    while i < entries.len()
        invariant
            i <= entries.len(),
            es == entries_view(entries@),
            r@.map_values(|d: String| d@) == resource_dirs_of(es.take(i as int)),
        decreases entries.len() - i,
    {
        let e = &entries[i];
        assert(es.take(i + 1).drop_last() =~= es.take(i as int));
        assert(es.take(i + 1).last() == entry_view(entries@[i as int]));
        let ghost before = r@;
        match &e.enclosed {
            Some(p) => {
                if is_directory_entry(e.name.as_str()) {
                    r.push(p.clone());
                    assert(r@.map_values(|d: String| d@) =~= before.map_values(|d: String| d@).push(
                        p@,
                    ));
                }
            },
            None => {},
        }
        i += 1;
    }
    assert(es.take(entries.len() as int) =~= es);
    r
}

} // verus!
