use std::io::Write;
use vapordose::cache::{SteamCache, SteamCacheEntry, CACHE_TTL_SECS};
use vapordose::config::{AppConfig, Language};
use vapordose::injector::{BackupStep, DeployError, Injector, DEFAULT_SMOKEAPI_CONFIG, PROTON_LAUNCH_OPTIONS};
use vapordose::scanner::{
    acf_fields, add_if_new, anticheat_in, apply_store_details, categorize_known, category_for, detect_anticheat,
    best_icon, direct_icon_name, dlc_ids, game_type_for, icon_score, is_icon_candidate,
    lower_text, pick_cache_image, is_elf64_header, is_system_tool, library_folder_paths, new_game,
    target_for, target_kind, backup_name, AcfError, AppCategory, AppDetails, GameType, SteamGame,
    TargetFile, TargetKind,
};
use vapordose::smokeapi::{
    installed_version_from, is_directory_entry, is_resource_file, pick_zip_asset, update_status,
    AssetError, SmokeApiVersionInfo, BUNDLED_VERSION,
};
use vapordose::steam_api::{app_details_url, details_url, details_usable, dlc_chunks, dlc_name};
use vapordose::updater::{
    core_is_current, is_core_file, pick_core_asset, up_to_date_message,
    updated_message, CoreError,
};
use vapordose::ui::{
    batch_patch_eligible, batch_restore_eligible, can_patch, category_matches, copy_button_visible,
    dlc_text, group_visible, protondb_url, row_status, row_subtitle, row_tags, row_visible, store_url,
    RowStatus,
};

fn target(path: &str, is_64bit: bool, is_linux: bool) -> TargetFile {
    TargetFile { path: path.to_string(), is_64bit, is_linux }
}

fn game(appid: &str, name: &str, targets: Vec<TargetFile>) -> SteamGame {
    new_game(appid.to_string(), name.to_string(), "/g/Game".to_string(), targets, false, None)
}

#[test]
fn cache_read_after_write() {
    let mut c = SteamCache::new();
    c.insert_at("10".to_string(), true, vec![1, 2], 1000);
    let e = c.get_at("10", 1000 + CACHE_TTL_SECS - 1).unwrap();
    assert_eq!(e.timestamp, 1000);
    assert!(e.is_free);
    assert_eq!(e.dlc_list, vec![1, 2]);
    assert!(c.get_at("10", 1000 + CACHE_TTL_SECS).is_none());
    assert!(c.get_at("11", 1000).is_none());
    // An entry from the future counts as fresh.
    assert!(c.get_at("10", 10).is_some());
}

#[test]
fn cache_insert_replaces_entry() {
    let mut c = SteamCache::new();
    c.insert_at("10".to_string(), true, vec![1], 5);
    c.insert_at("20".to_string(), false, vec![], 5);
    c.insert_at("10".to_string(), false, vec![7], 6);
    assert_eq!(c.entries().len(), 2);
    let e = c.get_at("10", 6).unwrap();
    assert!(!e.is_free);
    assert_eq!(e.dlc_list, vec![7]);
    assert_eq!(c.get_at("20", 6).unwrap().dlc_list, Vec::<u32>::new());
}

#[test]
fn cache_uses_clock() {
    let mut c = SteamCache::new();
    c.insert("42".to_string(), false, vec![3]);
    let e = c.get("42").unwrap();
    assert!(e.timestamp > 1_600_000_000);
    assert_eq!(e.dlc_list, vec![3]);
    let old = SteamCacheEntry { timestamp: 0, is_free: true, dlc_list: vec![] };
    assert_eq!(old.duplicate().timestamp, 0);
    c.insert_at("1".to_string(), true, vec![], 0);
    assert!(c.get("1").is_none());
}

#[test]
fn system_tools_by_name_and_id() {
    assert!(is_system_tool("Proton 8.0", "1"));
    assert!(is_system_tool("Steam Linux Runtime - Soldier", "1"));
    assert!(is_system_tool("Steamworks Common Redistributables", "1"));
    assert!(is_system_tool("Some SDK", "1"));
    assert!(is_system_tool("Game", "228980"));
    assert!(is_system_tool("Game", "1391110"));
    assert!(!is_system_tool("Portal 2", "620"));
}

#[test]
fn categories_from_store_data() {
    assert_eq!(category_for(true, &vec![1]), AppCategory::FreeToPlay);
    assert_eq!(category_for(false, &vec![]), AppCategory::NoDLC);
    assert_eq!(category_for(false, &vec![5]), AppCategory::PaidWithDLC);
    assert_eq!(dlc_ids(&Some(vec![Some(1), None, Some(4_294_967_297)])), vec![1, 1]);
    assert_eq!(dlc_ids(&None), Vec::<u32>::new());
}

#[test]
fn categorize_from_cache_and_store() {
    let mut cache = SteamCache::new();
    let mut tool = game("1", "Proton Experimental", vec![]);
    assert!(categorize_known(&mut tool, &cache));
    assert_eq!(tool.category, AppCategory::SystemTool);

    let mut g = game("620", "Portal 2", vec![]);
    assert!(!categorize_known(&mut g, &cache));
    let details = AppDetails { is_free: None, dlc: Some(vec![Some(9), Some(8)]) };
    apply_store_details(&mut g, &details, &mut cache);
    assert_eq!(g.dlc_list, vec![9, 8]);
    assert_eq!(g.category, AppCategory::PaidWithDLC);

    let mut again = game("620", "Portal 2", vec![]);
    assert!(categorize_known(&mut again, &cache));
    assert_eq!(again.dlc_list, vec![9, 8]);
    assert_eq!(again.category, AppCategory::PaidWithDLC);
}

#[test]
fn anticheat_detection() {
    assert_eq!(anticheat_in("easyanticheat_x64.dll", "/g"), Some("EasyAntiCheat".to_string()));
    assert_eq!(anticheat_in("beclient.dll", "/g/battleye"), Some("BattlEye".to_string()));
    assert_eq!(anticheat_in("vgc", "/g/vanguard"), Some("Vanguard".to_string()));
    assert_eq!(anticheat_in("x", "/g/ricochet/x"), Some("Ricochet".to_string()));
    assert_eq!(anticheat_in("xigncode3.dll", "/g"), Some("XIGNCODE3".to_string()));
    assert_eq!(anticheat_in("mhyprot2.sys", "/g"), Some("Anti-Cheat".to_string()));
    assert_eq!(anticheat_in("denuvo-anticheat.dll", "/g"), Some("Denuvo Anti-Cheat".to_string()));
    assert_eq!(anticheat_in("game.exe", "/g"), None);
    assert_eq!(detect_anticheat("EasyAntiCheat.exe", "/G"), Some("EasyAntiCheat".to_string()));
}

#[test]
fn manifest_fields() {
    let acf = "\"AppState\"\n{\n\t\"appid\"\t\t\"620\"\n\t\"name\"\t\t\"Portal 2\"\n\t\"installdir\"\t\t\"Portal 2\"\n}";
    assert_eq!(
        acf_fields(acf),
        Ok(("620".to_string(), "Portal 2".to_string(), "Portal 2".to_string()))
    );
    assert_eq!(acf_fields("\"name\" \"x\""), Err(AcfError::MissingAppid));
    assert_eq!(acf_fields("\"appid\" \"1\""), Err(AcfError::MissingName));
    assert_eq!(acf_fields("\"appid\" \"1\" \"name\" \"n\""), Err(AcfError::MissingInstalldir));
}

#[test]
fn library_folders() {
    let vdf = "\"libraryfolders\"\n{\n\"0\"\n{\n\"path\"\t\t\"/home/u/.steam\"\n}\n\"1\"\n{\n\"path\"\t\t\"/mnt/games\"\n}\n}";
    assert_eq!(library_folder_paths(vdf), vec!["/home/u/.steam".to_string(), "/mnt/games".to_string()]);
    assert!(library_folder_paths("nothing").is_empty());
}

#[test]
fn binaries_and_types() {
    assert_eq!(target_kind("steam_api.dll"), Some(TargetKind::Windows32));
    assert_eq!(target_kind("steam_api64.dll"), Some(TargetKind::Windows64));
    assert_eq!(target_kind("libsteam_api.so"), Some(TargetKind::Linux));
    assert_eq!(target_kind("steam_api.so"), None);
    assert_eq!(backup_name(TargetKind::Windows64), "steam_api64_o.dll");
    assert_eq!(backup_name(TargetKind::Linux), "libsteam_api_o.so");
    assert!(is_elf64_header(Some([0x7f, b'E', b'L', b'F', 2])));
    assert!(!is_elf64_header(Some([0x7f, b'E', b'L', b'F', 1])));
    assert!(is_elf64_header(Some([0, 0, 0, 0, 1])));
    assert!(is_elf64_header(None));
    let t = target_for(TargetKind::Linux, "/g/libsteam_api.so".to_string(), false);
    assert!(t.is_linux && !t.is_64bit);
    let w = target_for(TargetKind::Windows64, "/g/steam_api64.dll".to_string(), false);
    assert!(!w.is_linux && w.is_64bit);
    assert_eq!(game_type_for(&vec![]), GameType::Unknown);
    assert_eq!(game_type_for(&vec![w.clone()]), GameType::Proton);
    assert_eq!(game_type_for(&vec![t.clone()]), GameType::Native);
    assert_eq!(game_type_for(&vec![t, w]), GameType::Mixed);
}

#[test]
fn proton_instructions() {
    let inj = Injector::new();
    let win = game("1", "G", vec![target("/g/Game/steam_api.dll", false, false)]);
    let lin = game("2", "G", vec![target("/g/Game/libsteam_api.so", true, true)]);
    assert_eq!(inj.get_proton_instructions(&win), Some(PROTON_LAUNCH_OPTIONS.to_string()));
    assert_eq!(
        inj.get_proton_instructions(&win).unwrap(),
        "WINEDLLOVERRIDES=\"steam_api64=n,b;steam_api=n,b\" %command%"
    );
    assert_eq!(inj.get_proton_instructions(&lin), None);
    assert!(inj.needs_proton_overrides(&win));
    assert!(!inj.needs_proton_overrides(&lin));
}

#[test]
fn deploy_plans() {
    let inj = Injector::new();
    assert_eq!(inj.check_targets(&game("1", "G", vec![])), Err(DeployError::NoTargets));
    assert_eq!(
        inj.plan_target(&target("/g/Game/bin/steam_api64.dll", true, false), "/g/Game"),
        Ok(("steam_api64_o.dll", "smoke_api64.dll"))
    );
    assert_eq!(
        inj.plan_target(&target("/g/Game/steam_api.dll", false, false), "/g/Game"),
        Ok(("steam_api_o.dll", "smoke_api32.dll"))
    );
    assert_eq!(
        inj.plan_target(&target("/g/Game/libsteam_api.so", false, true), "/g/Game"),
        Ok(("libsteam_api_o.so", "libsmoke_api32.so"))
    );
    assert_eq!(
        inj.plan_target(&target("/g/Game/libsteam_api.so", true, true), "/g/Game"),
        Ok(("libsteam_api_o.so", "libsmoke_api64.so"))
    );
    assert_eq!(
        inj.plan_target(&target("/g/GameX/steam_api.dll", false, false), "/g/Game"),
        Err(DeployError::OutsideGameDir("/g/GameX/steam_api.dll".to_string()))
    );
    assert_eq!(
        inj.plan_target(&target("/g/Game/other.dll", false, false), "/g/Game"),
        Err(DeployError::UnknownTarget("other.dll".to_string()))
    );
    assert_eq!(inj.restore_name(&target("/g/Game/steam_api.dll", false, false), "/g/Game"), Some("steam_api_o.dll"));
    assert_eq!(inj.restore_name(&target("/h/steam_api.dll", false, false), "/g/Game"), None);
    assert_eq!(inj.restore_name(&target("/g/Game/x.dll", false, false), "/g/Game"), None);
}

#[test]
fn backup_steps() {
    let inj = Injector::new();
    assert_eq!(inj.backup_step(false, true), BackupStep::MoveOriginalAside);
    assert_eq!(inj.backup_step(false, false), BackupStep::OriginalMissing);
    assert_eq!(inj.backup_step(true, true), BackupStep::RemoveStaleTarget);
    assert_eq!(inj.backup_step(true, false), BackupStep::KeepAsIs);
}

#[test]
fn custom_config() {
    let inj = Injector::new();
    assert_eq!(
        inj.custom_config_json(" 20, 3,,20 ,"),
        "{\n  \"$version\": 4,\n  \"default_app_status\": \"unlocked\",\n  \"logging\": false,\n  \"override_dlc_status\": {\n    \"20\": \"unlocked\",\n    \"3\": \"unlocked\"\n  }\n}"
    );
    assert_eq!(
        inj.custom_config_json(""),
        "{\n  \"$version\": 4,\n  \"default_app_status\": \"unlocked\",\n  \"logging\": false,\n  \"override_dlc_status\": {}\n}"
    );
    assert!(DEFAULT_SMOKEAPI_CONFIG.contains("\"default_app_status\": \"unlocked\""));
    assert_eq!(vapordose::injector::parse_dlc_ids(" a ,b,, c"), vec!["a", "b", "c"]);
}

#[test]
fn smokeapi_versions() {
    assert_eq!(installed_version_from(None), BUNDLED_VERSION);
    let info = SmokeApiVersionInfo { version: "v3.1.0".to_string(), updated_at: "t".to_string() };
    assert_eq!(installed_version_from(Some(info)), "v3.1.0");
    let s = update_status("v2.0.0 (Bundled)".to_string(), "v3.1.0".to_string());
    assert!(s.update_available);
    assert_eq!(s.latest_version, Some("v3.1.0".to_string()));
    let s = update_status("v3.1.0".to_string(), "v3.1.0".to_string());
    assert!(!s.update_available);
    let s = update_status("v3.1.0".to_string(), "".to_string());
    assert!(!s.update_available);
    assert_eq!(s.latest_version, None);
    assert_eq!(s.installed_version, "v3.1.0");
}

#[test]
fn smokeapi_assets() {
    let assets = vec![
        (Some("notes.txt".to_string()), Some("a".to_string())),
        (None, Some("b".to_string())),
        (Some("SmokeAPI.zip".to_string()), Some("c".to_string())),
        (Some("other.zip".to_string()), Some("d".to_string())),
    ];
    assert_eq!(pick_zip_asset(&assets), Ok("c".to_string()));
    assert_eq!(pick_zip_asset(&vec![(Some("x.zip".to_string()), None)]), Err(AssetError::NoDownloadUrl));
    assert_eq!(pick_zip_asset(&vec![]), Err(AssetError::NoZipAsset));
    assert!(is_resource_file("smoke_api64.dll"));
    assert!(is_resource_file("SmokeAPI.config.json"));
    assert!(is_resource_file("libfoo.so"));
    assert!(!is_resource_file("README.md"));
    assert!(is_directory_entry("linux/"));
    assert!(!is_directory_entry("linux"));
}

#[test]
fn store_requests() {
    assert!(details_usable(Some(true), true));
    assert!(!details_usable(Some(false), true));
    assert!(!details_usable(None, true));
    assert!(!details_usable(Some(true), false));
    let ids: Vec<u32> = (1..=23).collect();
    let chunks = dlc_chunks(&ids);
    assert_eq!(chunks.len(), 3);
    assert_eq!(chunks[0], (1..=10).collect::<Vec<u32>>());
    assert_eq!(chunks[2], vec![21, 22, 23]);
    assert!(dlc_chunks(&vec![]).is_empty());
    assert_eq!(
        details_url(&vec![10, 2005, 0]),
        "https://store.steampowered.com/api/appdetails?appids=10,2005,0"
    );
    assert_eq!(app_details_url("620"), "https://store.steampowered.com/api/appdetails?appids=620");
    assert_eq!(dlc_name(None), "DLC");
    assert_eq!(dlc_name(Some("Pack".to_string())), "Pack");
}

#[test]
fn core_updates() {
    assert!(core_is_current(" v3.1.0\n", "v3.1.0"));
    assert!(!core_is_current("v3.0.0", "v3.1.0"));
    let assets = vec![
        (Some("checksums.txt".to_string()), Some("a".to_string())),
        (Some("SmokeAPI-linux.tar".to_string()), Some("b".to_string())),
        (Some("x.zip".to_string()), Some("c".to_string())),
    ];
    assert_eq!(pick_core_asset(&assets), Some("b".to_string()));
    assert_eq!(pick_core_asset(&vec![(Some("win.zip".to_string()), None)]), None);
    assert!(is_core_file("smoke_api64.dll"));
    assert!(is_core_file("SmokeAPI.config.json"));
    assert!(!is_core_file("readme.txt"));
    assert_eq!(up_to_date_message("v1"), "Обновление не требуется. Текущая версия: v1");
    assert_eq!(updated_message("v2"), "Успешно обновлено до v2");
}

#[test]
fn game_rows() {
    let mut g = game("620", "Portal 2", vec![target("/g/Game/steam_api.dll", false, false)]);
    assert_eq!(row_tags(&g), Vec::<&str>::new());
    assert_eq!(row_subtitle(&g), "/g/Game ");
    g.is_patched = true;
    g.dlc_list = vec![1];
    g.has_anticheat = true;
    g.is_online_multiplayer = true;
    assert_eq!(row_tags(&g), vec!["[Patched]", "[DLC]", "[Anti-Cheat]", "[Online]"]);
    assert_eq!(row_subtitle(&g), "/g/Game [Patched] [DLC] [Anti-Cheat] [Online]");
    assert_eq!(row_status(&g), RowStatus::Risky);
    assert!(can_patch(RowStatus::Risky));
    assert!(!can_patch(RowStatus::SystemTool));
    g.category = AppCategory::SystemTool;
    assert_eq!(row_status(&g), RowStatus::SystemTool);
    assert!(copy_button_visible(true, GameType::Proton));
    assert!(!copy_button_visible(true, GameType::Native));
    assert_eq!(dlc_text(&vec![]), "None");
    assert_eq!(dlc_text(&vec![5, 17]), "5, 17");
    assert_eq!(store_url("620"), "https://store.steampowered.com/app/620");
    assert_eq!(protondb_url("620"), "https://www.protondb.com/app/620");
}

#[test]
fn filtering_rows() {
    assert!(row_visible("portal 2", "", "x", 0));
    assert!(row_visible("portal 2", "tal", "x [DLC]", 1));
    assert!(!row_visible("portal 2", "tal", "x", 1));
    assert!(!row_visible("portal 2", "doom", "x", 0));
    assert!(category_matches(2, "[Patched]"));
    assert!(category_matches(3, "[Online]"));
    assert!(category_matches(7, ""));
    assert!(group_visible(false, true, 0));
    assert!(!group_visible(false, false, 0));
    assert!(group_visible(true, false, 2));
}

#[test]
fn batch_eligibility() {
    let mut g = game("1", "G", vec![target("/g/Game/steam_api.dll", false, false)]);
    assert!(batch_patch_eligible(&g));
    assert!(!batch_restore_eligible(&g));
    g.is_patched = true;
    assert!(!batch_patch_eligible(&g));
    assert!(batch_restore_eligible(&g));
    let empty = game("2", "G", vec![]);
    assert!(!batch_patch_eligible(&empty));
}

#[test]
fn settings_default() {
    assert_eq!(AppConfig::unset().language, None);
    assert_ne!(Language::EN, Language::RU);
}

#[test]
fn icon_candidates() {
    assert!(is_icon_candidate("steam_icon_594650.png", "594650"));
    assert!(is_icon_candidate("steam_icon_594650.svg", "594650"));
    assert!(!is_icon_candidate("steam_icon_59465.png", "594650"));
    assert!(!is_icon_candidate("icon_594650.png", "594650"));
    assert_eq!(direct_icon_name("594650"), "594650_icon.jpg");
}

#[test]
fn icon_scores_and_choice() {
    assert_eq!(icon_score("/usr/share/icons/hicolor/256x256/apps/steam_icon_1.png"), 4);
    assert_eq!(icon_score("/usr/share/icons/hicolor/scalable/apps/steam_icon_1.svg"), 4);
    assert_eq!(icon_score("/icons/hicolor/128x128/apps/steam_icon_1.png"), 3);
    assert_eq!(icon_score("/icons/hicolor/64x64/apps/steam_icon_1.png"), 2);
    assert_eq!(icon_score("/icons/hicolor/48x48/apps/steam_icon_1.png"), 1);
    assert_eq!(icon_score("/icons/hicolor/32x32/apps/steam_icon_1.png"), 1);
    assert_eq!(icon_score("/pixmaps/steam_icon_1.png"), 0);
    let paths: Vec<String> = vec![
        "/a/32x32/steam_icon_1.png".to_string(),
        "/a/256x256/steam_icon_1.png".to_string(),
        "/a/64x64/steam_icon_1.png".to_string(),
        "/a/scalable/steam_icon_1.svg".to_string(),
    ];
    // Equal best scores: the last one wins.
    assert_eq!(best_icon(&paths), Some(3));
    assert_eq!(best_icon(&Vec::new()), None);
    assert_eq!(best_icon(&vec!["/x/steam_icon_1.png".to_string()]), Some(0));
}

#[test]
fn library_cache_images() {
    let hash = "0123456789abcdef0123456789abcdef0123.jpg".to_string();
    assert_eq!(hash.len(), 40);
    let names = vec![hash.clone(), "header.jpg".to_string(), "logo.png".to_string(), "x.txt".to_string()];
    assert_eq!(pick_cache_image(&names), Some(2));
    let names = vec![hash.clone(), "library_header.jpg".to_string(), "header.jpg".to_string()];
    assert_eq!(pick_cache_image(&names), Some(2));
    let names = vec!["short.jpg".to_string(), hash.clone(), "x.png".to_string()];
    assert_eq!(pick_cache_image(&names), Some(1));
    let names = vec!["short.jpg".to_string(), "header.png".to_string()];
    assert_eq!(pick_cache_image(&names), None);
}

#[test]
fn lower_case_titles() {
    assert_eq!(lower_text("Cities: Skylines"), "cities: skylines");
    assert_eq!(lower_text("ÄÖ"), "äö");
}

#[test]
fn games_listed_once_per_appid() {
    let mut games: Vec<SteamGame> = Vec::new();
    assert!(add_if_new(&mut games, game("10", "First", Vec::new())));
    assert!(add_if_new(&mut games, game("20", "Other", Vec::new())));
    assert!(!add_if_new(&mut games, game("10", "Second copy", Vec::new())));
    assert_eq!(games.len(), 2);
    assert_eq!(games[0].name, "First");
    assert_eq!(games[1].appid, "20");
}

#[test]
fn manifest_fields_skip_empty_values() {
    let acf = "\"appid\" \"\" \"appid\"\t\"5\"\n\"name\"\n\"Two\nLines\"\n\"installdir\" \"D\"";
    assert_eq!(
        acf_fields(acf),
        Ok(("5".to_string(), "Two\nLines".to_string(), "D".to_string()))
    );
}

#[test]
fn library_folders_resume_after_each_path() {
    let vdf = "\"path\" \"/a\" \"path\" \"\" \"path\"\t\"/b\" \"path\"\"/c\"";
    assert_eq!(library_folder_paths(vdf), vec!["/a".to_string(), "/b".to_string()]);
}

#[test]
fn restore_and_scan_use_deploy_backup_names() {
    let inj = Injector::new();
    for (name, kind) in [
        ("steam_api.dll", TargetKind::Windows32),
        ("steam_api64.dll", TargetKind::Windows64),
        ("libsteam_api.so", TargetKind::Linux),
    ] {
        let path = format!("/g/Game/bin/{}", name);
        for is_64bit in [false, true] {
            let t = target(&path, is_64bit, kind == TargetKind::Linux);
            let (b, _) = inj.plan_target(&t, "/g/Game").unwrap();
            assert_eq!(inj.restore_name(&t, "/g/Game"), Some(b));
            assert_eq!(target_kind(name), Some(kind));
            assert_eq!(backup_name(kind), b);
        }
    }
}

fn zip_of(files: &[(&str, &[u8])], dirs: &[&str]) -> Vec<u8> {
    let options = zip::write::SimpleFileOptions::default()
        .compression_method(zip::CompressionMethod::Stored);
    let mut w = zip::ZipWriter::new(std::io::Cursor::new(Vec::new()));
    for d in dirs {
        w.add_directory(d.to_string(), options).unwrap();
    }
    for (name, data) in files {
        w.start_file(name.to_string(), options).unwrap();
        w.write_all(data).unwrap();
    }
    w.finish().unwrap().into_inner()
}

#[test]
fn release_archive_resources() {
    let bytes = zip_of(
        &[
            ("linux64/libsmoke_api64.so", b"so64"),
            ("readme.txt", b"hi"),
            ("win/smoke_api32.dll", b"dll"),
            ("../evil.dll", b"x"),
        ],
        &["linux64/"],
    );
    let entries = vapordose::archive::archive_entries(&bytes).unwrap();
    assert_eq!(entries.len(), 5);
    assert_eq!(
        vapordose::smokeapi::resource_files(&bytes),
        Some(vec![
            ("libsmoke_api64.so".to_string(), b"so64".to_vec()),
            ("smoke_api32.dll".to_string(), b"dll".to_vec()),
        ])
    );
    assert_eq!(vapordose::smokeapi::resource_dirs(&entries), vec!["linux64/".to_string()]);
    assert!(vapordose::archive::archive_entries(b"not a zip").is_none());
    assert_eq!(vapordose::smokeapi::resource_files(b"not a zip"), None);
    assert_eq!(vapordose::archive::entry_data(&bytes, 2), Some(b"hi".to_vec()));
    assert_eq!(vapordose::archive::entry_data(&bytes, 9), None);
}

#[test]
fn core_archive_files() {
    let bytes = zip_of(&[("smoke_api64.dll", b"a"), ("x/smoke_api32.dll", b"b"), ("SmokeAPI.config.json", b"{}")], &[]);
    assert_eq!(
        vapordose::updater::core_files(&bytes),
        Ok(vec![
            ("smoke_api64.dll".to_string(), b"a".to_vec()),
            ("SmokeAPI.config.json".to_string(), b"{}".to_vec()),
        ])
    );
    let none = zip_of(&[("other.txt", b"a")], &[]);
    assert_eq!(vapordose::updater::core_files(&none), Err(CoreError::NothingExtracted));
    assert_eq!(vapordose::updater::core_files(b"junk"), Err(CoreError::ArchiveUnreadable));
}

#[test]
fn dlc_batch_results() {
    let chunk = vec![7u32, 8, 9];
    assert!(vapordose::steam_api::batch_results(&chunk, None).is_empty());
    let names = vec![Some("Soundtrack".to_string()), None];
    assert_eq!(
        vapordose::steam_api::batch_results(&chunk, Some(names)),
        vec![(7, "Soundtrack".to_string()), (8, "DLC".to_string()), (9, "DLC".to_string())]
    );
}

#[test]
fn unwanted_unreadable_entry_is_skipped() {
    let mut bytes = zip_of(&[("readme.txt", b"CORRUPTME"), ("smoke_api64.dll", b"a")], &[]);
    let at = bytes.windows(9).position(|w| w == b"CORRUPTME").unwrap();
    bytes[at] = b'X';
    assert_eq!(vapordose::archive::entry_data(&bytes, 0), None);
    assert_eq!(
        vapordose::updater::core_files(&bytes),
        Ok(vec![("smoke_api64.dll".to_string(), b"a".to_vec())])
    );
    assert_eq!(
        vapordose::smokeapi::resource_files(&bytes),
        Some(vec![("smoke_api64.dll".to_string(), b"a".to_vec())])
    );
}
