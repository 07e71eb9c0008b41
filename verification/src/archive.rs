//! The entries of a downloaded ZIP archive, read by the `zip` crate.
//!
//! The entries are listed first; the contents of an entry are read only when
//! it is wanted, so an entry that nobody wants cannot make reading fail.
use vstd::prelude::*;

verus! {

/// One entry of a ZIP archive: its stored name, and its name as a path that
/// stays inside the folder it is unpacked to (none when the stored name would
/// leave it).
#[derive(Debug)]
pub struct ZipEntry {
    pub name: String,
    pub enclosed: Option<String>,
}

/// A [`ZipEntry`] as plain values.
pub open spec fn entry_view(e: ZipEntry) -> (Seq<char>, Option<Seq<char>>) {
    (
        e.name@,
        match e.enclosed {
            Some(p) => Some(p@),
            None => None,
        },
    )
}

/// Entries as plain values.
pub open spec fn entries_view(es: Seq<ZipEntry>) -> Seq<(Seq<char>, Option<Seq<char>>)> {
    es.map_values(|e: ZipEntry| entry_view(e))
}

/// `(name, contents)` files as plain values.
pub open spec fn files_view(fs: Seq<(String, Vec<u8>)>) -> Seq<(Seq<char>, Seq<u8>)> {
    fs.map_values(|f: (String, Vec<u8>)| (f.0@, f.1@))
}

/// The entries that the `zip` crate lists in `bytes`, in archive order, as
/// `(stored name, enclosed name)`; none when the archive or one of its
/// entries cannot be opened.
pub uninterp spec fn zip_entry_names(bytes: Seq<u8>) -> Option<Seq<(Seq<char>, Option<Seq<char>>)>>;

/// The unpacked contents of the entry at `index` of the archive `bytes`;
/// none when it cannot be read.
pub uninterp spec fn zip_entry_data(bytes: Seq<u8>, index: int) -> Option<Seq<u8>>;

/// Opens `bytes` with `zip::ZipArchive::new` and opens every entry in order
/// with `ZipArchive::by_index`, taking its `name` and its `enclosed_name` as
/// text. Claimed: the result is the named list, none exactly when it is none.
/// Not claimed: how the crate parses the archive.
#[verifier::external_body]
fn read_zip_names(bytes: &[u8]) -> (r: Option<Vec<ZipEntry>>)
    ensures
        r is None <==> zip_entry_names(bytes@) is None,
        r matches Some(es) ==> zip_entry_names(bytes@) == Some(entries_view(es@)),
{
    let mut archive = zip::ZipArchive::new(std::io::Cursor::new(bytes)).ok()?;
    let mut out = Vec::new();
    for i in 0..archive.len() {
        let file = archive.by_index(i).ok()?;
        let enclosed = file.enclosed_name().map(|p| p.to_string_lossy().into_owned());
        out.push(ZipEntry { name: file.name().to_string(), enclosed });
    }
    Some(out)
}

/// Opens `bytes` with `zip::ZipArchive::new`, opens the entry at `index` with
/// `ZipArchive::by_index` and reads it to the end. Claimed: the result is the
/// named contents, none exactly when it is none. Not claimed: how the crate
/// unpacks.
#[verifier::external_body]
fn read_zip_data(bytes: &[u8], index: usize) -> (r: Option<Vec<u8>>)
    ensures
        r is None <==> zip_entry_data(bytes@, index as int) is None,
        r matches Some(d) ==> zip_entry_data(bytes@, index as int) == Some(d@),
{
    let mut archive = zip::ZipArchive::new(std::io::Cursor::new(bytes)).ok()?;
    let mut file = archive.by_index(index).ok()?;
    let mut data = Vec::new();
    std::io::Read::read_to_end(&mut file, &mut data).ok()?;
    Some(data)
}

/// The entries of the ZIP archive `bytes`, or none when it cannot be read.
pub fn archive_entries(bytes: &[u8]) -> (r: Option<Vec<ZipEntry>>)
    ensures
        r is None <==> zip_entry_names(bytes@) is None,
        r matches Some(es) ==> zip_entry_names(bytes@) == Some(entries_view(es@)),
{
    read_zip_names(bytes)
}

/// The contents of the entry at `index` of the archive `bytes`, or none when
/// it cannot be read.
pub fn entry_data(bytes: &[u8], index: usize) -> (r: Option<Vec<u8>>)
    ensures
        r is None <==> zip_entry_data(bytes@, index as int) is None,
        r matches Some(d) ==> zip_entry_data(bytes@, index as int) == Some(d@),
{
    read_zip_data(bytes, index)
}

/// The files that the first `n` entries of `bytes` give when the entry at `k`
/// is written under the name `picks[k]` if that is some, and skipped
/// otherwise: the written names with their contents, in order; none when the
/// contents of a written entry cannot be read.
pub open spec fn picked_files(bytes: Seq<u8>, picks: Seq<Option<Seq<char>>>, n: int) -> Option<
    Seq<(Seq<char>, Seq<u8>)>,
>
    decreases n,
{
    if n <= 0 {
        Some(Seq::empty())
    } else {
        match picked_files(bytes, picks, n - 1) {
            None => None,
            Some(init) => match picks[n - 1] {
                Some(name) => match zip_entry_data(bytes, n - 1) {
                    Some(d) => Some(init.push((name, d))),
                    None => None,
                },
                None => Some(init),
            },
        }
    }
}

/// Names as plain values.
pub open spec fn picks_view(picks: Seq<Option<String>>) -> Seq<Option<Seq<char>>> {
    picks.map_values(
        |p: Option<String>|
            match p {
                Some(s) => Some(s@),
                None => None,
            },
    )
}

/// Reads the entries of `bytes` that `picks` names (the entry at `k` under
/// the name `picks[k]`), in order; none when one of them cannot be read.
pub fn read_picked(bytes: &[u8], picks: &Vec<Option<String>>) -> (r: Option<Vec<(String, Vec<u8>)>>)
    ensures
        r is None <==> picked_files(bytes@, picks_view(picks@), picks@.len() as int) is None,
        r matches Some(fs) ==> picked_files(bytes@, picks_view(picks@), picks@.len() as int)
            == Some(files_view(fs@)),
{
    let ghost ps = picks_view(picks@);
    let mut r: Vec<(String, Vec<u8>)> = Vec::new();
    let mut i: usize = 0;
    assert(files_view(r@) =~= Seq::<(Seq<char>, Seq<u8>)>::empty());
    while i < picks.len()
        invariant
            i <= picks.len(),
            ps == picks_view(picks@),
            picked_files(bytes@, ps, i as int) == Some(files_view(r@)),
        decreases picks.len() - i,
    {
        let ghost before = r@;
        match &picks[i] {
            Some(name) => {
                assert(ps[i as int] == Some(name@));
                match entry_data(bytes, i) {
                    Some(d) => {
                        r.push((name.clone(), d));
                        assert(files_view(r@) =~= files_view(before).push((name@, d@)));
                    },
                    None => {
                        proof {
                            lemma_picked_fails(bytes@, ps, i as int + 1, picks.len() as int);
                        }
                        return None;
                    },
                }
            },
            None => {
                assert(ps[i as int] is None);
            },
        }
        i += 1;
    }
    Some(r)
}

/// Once one written entry cannot be read, no longer prefix can be either.
proof fn lemma_picked_fails(bytes: Seq<u8>, picks: Seq<Option<Seq<char>>>, m: int, n: int)
    requires
        0 < m <= n,
        picked_files(bytes, picks, m) is None,
    ensures
        picked_files(bytes, picks, n) is None,
    decreases n - m,
{
    if m < n {
        assert(picked_files(bytes, picks, m + 1) is None);
        lemma_picked_fails(bytes, picks, m + 1, n);
    }
}

} // verus!
