//! What deploying and removing the SmokeAPI proxy decides for each game:
//! which file names a binary and its backup get, which proxy replaces it,
//! what config goes beside it, and what Proton needs.
use vstd::prelude::*;
use crate::text::{chars_of, string_of, text_eq, trim, trim_exec};
use crate::scanner::{
    any_windows_target, backup_name_of, has_windows_target, target_kind_of, SteamGame, TargetFile,
};
use crate::json::{json_object_text, pretty_json, JsonField, JsonFieldView};

verus! {

/// Deploys and removes the proxy for games.
pub struct Injector {}

/// Why a deployment stopped.
#[derive(Debug, Clone, PartialEq, Eq)]
pub enum DeployError {
    /// The game has no Steam API binary to replace.
    NoTargets,
    /// A binary lies outside the game's folder (its path).
    OutsideGameDir(String),
    /// A binary's file name is not one the proxy can replace (the name).
    UnknownTarget(String),
}

/// What to do with a binary and its backup before the proxy is copied in.
#[derive(Debug, Clone, Copy, PartialEq, Eq, Structural)]
pub enum BackupStep {
    /// No backup yet: move the original binary to the backup name.
    MoveOriginalAside,
    /// A backup exists and a binary (an earlier proxy) is in place: delete it.
    RemoveStaleTarget,
    /// A backup exists and nothing is in place.
    KeepAsIs,
    /// Neither the binary nor a backup exists.
    OriginalMissing,
}

/// Whether `path` lies inside `base`, component by component (what
/// `std::path::Path::starts_with` says).
pub uninterp spec fn path_starts_with(path: Seq<char>, base: Seq<char>) -> bool;

/// The last component of `path` (what `Path::file_name` gives, empty when
/// there is none).
pub uninterp spec fn path_file_name(path: Seq<char>) -> Seq<char>;

/// `std::path::Path::starts_with`. Claimed: the result is the named relation
/// of the two paths. Not claimed: how paths split into components.
#[verifier::external_body]
fn path_is_within(path: &str, base: &str) -> (r: bool)
    ensures
        r == path_starts_with(path@, base@),
{
    std::path::Path::new(path).starts_with(base)
}

/// `std::path::Path::file_name`, empty when the path has no last component.
/// Claimed: the result is the named last component. Not claimed: how paths
/// split into components.
#[verifier::external_body]
pub(crate) fn file_name_of(path: &str) -> (r: String)
    ensures
        r@ == path_file_name(path@),
{
    std::path::Path::new(path).file_name().unwrap_or_default().to_string_lossy().into_owned()
}

/// The launch options that make Proton load the proxy.
pub const PROTON_LAUNCH_OPTIONS: &'static str =
    "WINEDLLOVERRIDES=\"steam_api64=n,b;steam_api=n,b\" %command%";

/// The SmokeAPI config written beside every deployed proxy: every DLC
/// unlocked, logging off.
pub const DEFAULT_SMOKEAPI_CONFIG: &'static str = "{\n  \"$version\": 4,\n  \"logging\": false,\n  \"default_app_status\": \"unlocked\",\n  \"override_dlc_status\": {}\n}";

/// The name of the SmokeAPI config file.
pub const SMOKEAPI_CONFIG_NAME: &'static str = "SmokeAPI.config.json";

/// `(backup name, proxy resource name)` for a binary with this file name.
pub open spec fn deploy_names_of(file_name: Seq<char>, is_64bit: bool) -> Option<(Seq<char>, Seq<char>)> {
    if file_name == "steam_api64.dll"@ {
        Some(("steam_api64_o.dll"@, "smoke_api64.dll"@))
    } else if file_name == "steam_api.dll"@ {
        Some(("steam_api_o.dll"@, "smoke_api32.dll"@))
    } else if file_name == "libsteam_api.so"@ {
        Some(("libsteam_api_o.so"@, if is_64bit { "libsmoke_api64.so"@ } else { "libsmoke_api32.so"@ }))
    } else {
        None
    }
}

/// The backup name for a binary with this file name.
pub open spec fn restore_name_of(file_name: Seq<char>) -> Option<Seq<char>> {
    match deploy_names_of(file_name, true) {
        Some((b, _)) => Some(b),
        None => None,
    }
}

/// `(backup name, proxy resource name)` for a binary with this file name.
pub fn deploy_names(file_name: &str, is_64bit: bool) -> (r: Option<(&'static str, &'static str)>)
    ensures
        r matches Some((b, p)) ==> deploy_names_of(file_name@, is_64bit) == Some((b@, p@)),
        r is None ==> deploy_names_of(file_name@, is_64bit) is None,
{
    if text_eq(file_name, "steam_api64.dll") {
        Some(("steam_api64_o.dll", "smoke_api64.dll"))
    } else if text_eq(file_name, "steam_api.dll") {
        Some(("steam_api_o.dll", "smoke_api32.dll"))
    } else if text_eq(file_name, "libsteam_api.so") {
        if is_64bit {
            Some(("libsteam_api_o.so", "libsmoke_api64.so"))
        } else {
            Some(("libsteam_api_o.so", "libsmoke_api32.so"))
        }
    } else {
        None
    }
}

/// What deploying to one binary needs: an error when the binary is outside
/// the game's folder or not a known Steam API binary, else the backup name
/// and the proxy resource to copy in.
pub open spec fn target_plan_of(path: Seq<char>, is_64bit: bool, install_dir: Seq<char>) -> Result<
    (Seq<char>, Seq<char>),
    (bool, Seq<char>),
> {
    if !path_starts_with(path, install_dir) {
        Err((true, path))
    } else {
        match deploy_names_of(path_file_name(path), is_64bit) {
            Some(names) => Ok(names),
            None => Err((false, path_file_name(path))),
        }
    }
}

impl Injector {
    /// A new injector.
    pub fn new() -> (r: Injector) {
        Injector {}
    }

    /// The launch options to paste into Steam for a game with Windows
    /// binaries; none for a game with only Linux binaries.
    pub fn get_proton_instructions(&self, game: &SteamGame) -> (r: Option<String>)
        ensures
            has_windows_target(game.targets@) ==> (r matches Some(t) && t@ == PROTON_LAUNCH_OPTIONS@),
            !has_windows_target(game.targets@) ==> r is None,
    {
        if any_windows_target(&game.targets) {
            Some(string_of(&chars_of(PROTON_LAUNCH_OPTIONS)))
        } else {
            None
        }
    }

    /// Checks that the game has something to deploy to.
    pub fn check_targets(&self, game: &SteamGame) -> (r: Result<(), DeployError>)
        ensures
            r is Err <==> game.targets.len() == 0,
            r matches Err(e) ==> e == DeployError::NoTargets,
    {
        if game.targets.len() == 0 {
            Err(DeployError::NoTargets)
        } else {
            Ok(())
        }
    }

    /// What deploying to `target` of a game installed in `install_dir`
    /// needs: the backup name and the proxy resource, or why it cannot.
    pub fn plan_target(&self, target: &TargetFile, install_dir: &str) -> (r: Result<
        (&'static str, &'static str),
        DeployError,
    >)
        ensures
            r matches Ok((b, p)) ==> target_plan_of(target.path@, target.is_64bit, install_dir@)
                == Ok::<_, (bool, Seq<char>)>((b@, p@)),
            r matches Err(DeployError::OutsideGameDir(q)) ==> target_plan_of(
                target.path@,
                target.is_64bit,
                install_dir@,
            ) == Err::<(Seq<char>, Seq<char>), _>((true, q@)),
            r matches Err(DeployError::UnknownTarget(n)) ==> target_plan_of(
                target.path@,
                target.is_64bit,
                install_dir@,
            ) == Err::<(Seq<char>, Seq<char>), _>((false, n@)),
            !(r matches Err(DeployError::NoTargets)),
    {
        if !path_is_within(target.path.as_str(), install_dir) {
            return Err(DeployError::OutsideGameDir(target.path.clone()));
        }
        let name = file_name_of(target.path.as_str());
        match deploy_names(name.as_str(), target.is_64bit) {
            Some(names) => Ok(names),
            None => Err(DeployError::UnknownTarget(name)),
        }
    }

    /// The backup name of `target` when restoring a game installed in
    /// `install_dir`; none (the binary is skipped) when it lies outside the
    /// folder or is not a known Steam API binary.
    pub fn restore_name(&self, target: &TargetFile, install_dir: &str) -> (r: Option<&'static str>)
        ensures
            r matches Some(b) ==> path_starts_with(target.path@, install_dir@) && restore_name_of(
                path_file_name(target.path@),
            ) == Some(b@),
            r is None ==> !path_starts_with(target.path@, install_dir@) || restore_name_of(
                path_file_name(target.path@),
            ) is None,
    {
        if !path_is_within(target.path.as_str(), install_dir) {
            return None;
        }
        let name = file_name_of(target.path.as_str());
        match deploy_names(name.as_str(), true) {
            Some((b, _)) => Some(b),
            None => None,
        }
    }

    /// What to do before the proxy is copied in, from whether the backup and
    /// the binary exist.
    pub fn backup_step(&self, backup_exists: bool, target_exists: bool) -> (r: BackupStep)
        ensures
            r == (if !backup_exists {
                if target_exists {
                    BackupStep::MoveOriginalAside
                } else {
                    BackupStep::OriginalMissing
                }
            } else if target_exists {
                BackupStep::RemoveStaleTarget
            } else {
                BackupStep::KeepAsIs
            }),
    {
        if !backup_exists {
            if target_exists {
                BackupStep::MoveOriginalAside
            } else {
                BackupStep::OriginalMissing
            }
        } else if target_exists {
            BackupStep::RemoveStaleTarget
        } else {
            BackupStep::KeepAsIs
        }
    }

    /// Whether deploying to `game` should also add the Proton launch
    /// options: it has Windows binaries.
    pub fn needs_proton_overrides(&self, game: &SteamGame) -> (r: bool)
        ensures
            r == has_windows_target(game.targets@),
    {
        any_windows_target(&game.targets)
    }

    /// The SmokeAPI config that unlocks the DLCs listed in `dlcs_csv`.
    pub fn custom_config_json(&self, dlcs_csv: &str) -> (r: String)
        ensures
            r@ == pretty_json(custom_config_fields(dlc_id_list(dlcs_csv@))),
    {
        let ids = parse_dlc_ids(dlcs_csv);
        let mut overrides: Vec<(String, String)> = Vec::new();
        let mut i: usize = 0;
        while i < ids.len()
            invariant
                i <= ids.len(),
                overrides@.len() == i,
                forall|k: int| 0 <= k < i ==> (#[trigger] overrides@[k]).0@ == ids@[k]@
                    && overrides@[k].1@ == "unlocked"@,
            decreases ids.len() - i,
        {
            overrides.push((ids[i].clone(), string_of(&chars_of("unlocked"))));
            i += 1;
        }
        let mut fields: Vec<(String, JsonField)> = Vec::new();
        fields.push((string_of(&chars_of("$version")), JsonField::Number(4)));
        fields.push((string_of(&chars_of("logging")), JsonField::Bool(false)));
        fields.push(
            (string_of(&chars_of("default_app_status")), JsonField::Text(string_of(&chars_of("unlocked")))),
        );
        fields.push((string_of(&chars_of("override_dlc_status")), JsonField::TextMap(overrides)));
        proof {
            assert(crate::json::fields_view(fields@) =~= custom_config_fields(dlc_id_list(dlcs_csv@))) by {
                assert(crate::json::pairs_view(overrides@) =~= dlc_id_list(dlcs_csv@).map_values(
                    |id: Seq<char>| (id, "unlocked"@),
                ));
            }
        }
        json_object_text(&fields)
    }
}

/// Restoring looks for the backup that deploying made: for a binary that
/// deploying accepts, restoring picks the same backup name, whatever the
/// binary's bitness; a binary that deploying refuses, restoring skips.
pub proof fn lemma_restore_finds_backup(path: Seq<char>, is_64bit: bool, install_dir: Seq<char>)
    ensures
        target_plan_of(path, is_64bit, install_dir) matches Ok((b, _)) ==> path_starts_with(
            path,
            install_dir,
        ) && restore_name_of(path_file_name(path)) == Some(b),
        target_plan_of(path, is_64bit, install_dir) is Err ==> !path_starts_with(path, install_dir)
            || restore_name_of(path_file_name(path)) is None,
{
}

/// The scan calls a game patched when a backup sits beside one of its
/// binaries; the name it looks for is the one deploying gives the backup.
pub proof fn lemma_scan_sees_deployed_backup(file_name: Seq<char>, is_64bit: bool)
    ensures
        target_kind_of(file_name) matches Some(k) ==> deploy_names_of(file_name, is_64bit) matches Some(
            (b, _),
        ) && b == backup_name_of(k),
        target_kind_of(file_name) is None ==> deploy_names_of(file_name, is_64bit) is None,
{
    reveal_strlit("steam_api.dll");
    reveal_strlit("steam_api64.dll");
    reveal_strlit("libsteam_api.so");
    assert("steam_api.dll"@.len() != "steam_api64.dll"@.len());
    assert("steam_api.dll"@.len() != "libsteam_api.so"@.len());
    assert("steam_api64.dll"@[0] != "libsteam_api.so"@[0]);
}

/// The fields of a SmokeAPI config that unlocks the DLCs `ids`.
pub open spec fn custom_config_fields(ids: Seq<Seq<char>>) -> Seq<(Seq<char>, JsonFieldView)> {
    seq![
        ("$version"@, JsonFieldView::Number(4)),
        ("logging"@, JsonFieldView::Bool(false)),
        ("default_app_status"@, JsonFieldView::Text("unlocked"@)),
        ("override_dlc_status"@, JsonFieldView::TextMap(ids.map_values(|id: Seq<char>| (id, "unlocked"@)))),
    ]
}

/// The pieces of `s` between commas, in order.
pub open spec fn split_commas(s: Seq<char>) -> Seq<Seq<char>>
    decreases s.len(),
{
    if s.len() == 0 {
        seq![Seq::empty()]
    } else {
        let rest = split_commas(s.drop_last());
        if s.last() == ',' {
            rest.push(Seq::empty())
        } else {
            rest.update(rest.len() - 1, rest.last().push(s.last()))
        }
    }
}

/// The DLC ids in a comma-separated list: each piece trimmed, empty pieces
/// dropped.
pub open spec fn dlc_id_list(csv: Seq<char>) -> Seq<Seq<char>> {
    split_commas(csv).map_values(|p: Seq<char>| trim(p)).filter(|p: Seq<char>| p.len() > 0)
}

proof fn lemma_split_commas_nonempty(s: Seq<char>)
    ensures
        split_commas(s).len() >= 1,
    decreases s.len(),
{
    if s.len() > 0 {
        lemma_split_commas_nonempty(s.drop_last());
    }
}

/// The DLC ids in a comma-separated list: each piece trimmed, empty pieces
/// dropped.
pub fn parse_dlc_ids(csv: &str) -> (r: Vec<String>)
    ensures
        r@.len() == dlc_id_list(csv@).len(),
        forall|i: int| 0 <= i < r@.len() ==> #[trigger] r@[i]@ == dlc_id_list(csv@)[i],
{
    let s = chars_of(csv);
    // Split into pieces.
    let mut pieces: Vec<Vec<char>> = Vec::new();
    let mut cur: Vec<char> = Vec::new();
    let mut i: usize = 0;
    assert(s@.take(0) =~= Seq::<char>::empty());
    while i < s.len()
        invariant
            i <= s.len(),
            split_commas(s@.take(i as int)) == pieces@.map_values(|v: Vec<char>| v@).push(cur@),
        decreases s.len() - i,
    {
        proof {
            lemma_split_commas_nonempty(s@.take(i as int));
        }
        assert(s@.take(i + 1).drop_last() =~= s@.take(i as int));
        if s[i] == ',' {
            let ghost old_pieces = pieces@;
            let done = cur;
            pieces.push(done);
            cur = Vec::new();
            assert(pieces@.map_values(|v: Vec<char>| v@) =~= old_pieces.map_values(|v: Vec<char>| v@).push(done@));
        } else {
            let ghost prev = cur@;
            cur.push(s[i]);
            assert(split_commas(s@.take(i + 1)) =~= pieces@.map_values(|v: Vec<char>| v@).push(cur@)) by {
                let m = pieces@.map_values(|v: Vec<char>| v@);
                assert(m.push(prev).update(m.len() as int, prev.push(s@[i as int])) =~= m.push(cur@));
            }
        }
        i += 1;
    }
    assert(s@.take(s.len() as int) =~= s@);
    pieces.push(cur);
    let ghost all = pieces@.map_values(|v: Vec<char>| v@);
    assert(all =~= split_commas(s@));
    // Trim each piece and keep the non-empty ones.
    let mut r: Vec<String> = Vec::new();
    let mut j: usize = 0;
    while j < pieces.len()
        invariant
            j <= pieces.len(),
            all == pieces@.map_values(|v: Vec<char>| v@),
            r@.map_values(|x: String| x@) == all.take(j as int).map_values(|p: Seq<char>| trim(p)).filter(
                |p: Seq<char>| p.len() > 0,
            ),
        decreases pieces.len() - j,
    {
        let t = trim_exec(&pieces[j]);
        let ghost before = r@.map_values(|x: String| x@);
        proof {
            let tk = all.take(j + 1).map_values(|p: Seq<char>| trim(p));
            assert(tk.drop_last() =~= all.take(j as int).map_values(|p: Seq<char>| trim(p)));
            assert(tk.last() == t@);
            reveal(Seq::filter);
            assert(tk =~= all.take(j as int).map_values(|p: Seq<char>| trim(p)).push(t@));
        }
        if t.len() > 0 {
            let st = string_of(&t);
            r.push(st);
            assert(r@.map_values(|x: String| x@) =~= before.push(t@));
        }
        j += 1;
    }
    assert(all.take(pieces.len() as int) =~= all);
    proof {
        assert forall|k: int| 0 <= k < r@.len() implies #[trigger] r@[k]@ == dlc_id_list(csv@)[k] by {
            assert(r@.map_values(|x: String| x@)[k] == r@[k]@);
        }
    }
    r
}

} // verus!
