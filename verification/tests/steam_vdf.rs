use vapordose::vdf::{
    build_combined_launch_options, find_app_block_range, inject_launch_option_into_vdf,
    remove_launch_option_from_vdf, PROTON_OVERRIDE_STR,
};

#[test]
fn test_inject_new_appid() {
    let sample_vdf = r#"
"UserLocalConfigStore"
{
	"Software"
	{
		"Valve"
		{
			"Steam"
			{
				"apps"
				{
				}
			}
		}
	}
}
"#;
    let res = inject_launch_option_into_vdf(sample_vdf, "594650", PROTON_OVERRIDE_STR);
    assert!(res.contains("\"594650\""));
    assert!(res.contains("WINEDLLOVERRIDES="));
    assert!(res.contains("%command%"));
}

#[test]
fn test_inject_existing_appid_without_launch_options() {
    let sample_vdf = r#"
"UserLocalConfigStore"
{
	"Software"
	{
		"Valve"
		{
			"Steam"
			{
				"apps"
				{
					"594650"
					{
						"LastPlayed"		"1700000000"
					}
				}
			}
		}
	}
}
"#;
    let res = inject_launch_option_into_vdf(sample_vdf, "594650", PROTON_OVERRIDE_STR);
    assert!(res.contains("\"LaunchOptions\""));
    assert!(res.contains("WINEDLLOVERRIDES="));
}

#[test]
fn test_remove_launch_options() {
    let sample_vdf = r#"
"UserLocalConfigStore"
{
	"Software"
	{
		"Valve"
		{
			"Steam"
			{
				"apps"
				{
					"594650"
					{
						"LaunchOptions"		"WINEDLLOVERRIDES=\"steam_api64=n,b;steam_api=n,b\" %command%"
					}
				}
			}
		}
	}
}
"#;
    let res = remove_launch_option_from_vdf(sample_vdf, "594650", PROTON_OVERRIDE_STR);
    assert!(!res.contains("WINEDLLOVERRIDES"));
}

const APPS_ONLY: &str = "\"apps\"\n{\n}\n";

#[test]
fn inject_inserts_exact_app_block() {
    let res = inject_launch_option_into_vdf(APPS_ONLY, "10", "X");
    assert_eq!(
        res,
        "\"apps\"\n{\n\t\t\t\t\"10\"\n\t\t\t\t{\n\t\t\t\t\t\"LaunchOptions\"\t\t\"X %command%\"\n\t\t\t\t}\n}\n"
    );
}

#[test]
fn inject_twice_changes_nothing_more() {
    let once = inject_launch_option_into_vdf(APPS_ONLY, "10", PROTON_OVERRIDE_STR);
    let twice = inject_launch_option_into_vdf(&once, "10", PROTON_OVERRIDE_STR);
    assert_eq!(once, twice);
}

#[test]
fn inject_prepends_to_existing_options() {
    let vdf = "\"apps\"\n{\n\"7\"\n{\n\"LaunchOptions\"\t\t\"-novid\"\n}\n}";
    let res = inject_launch_option_into_vdf(vdf, "7", "OV");
    assert_eq!(res, "\"apps\"\n{\n\"7\"\n{\n\"LaunchOptions\"\t\t\"OV -novid %command%\"\n}\n}");
}

#[test]
fn inject_keeps_existing_command_placeholder() {
    let vdf = "\"7\" { \"LaunchOptions\" \"  gamemoderun %command%  \" }";
    let res = inject_launch_option_into_vdf(vdf, "7", "OV");
    assert_eq!(res, "\"7\" { \"LaunchOptions\"\t\t\"OV gamemoderun %command%\" }");
}

#[test]
fn inject_without_apps_block_is_unchanged() {
    let vdf = "\"Software\" { }";
    assert_eq!(inject_launch_option_into_vdf(vdf, "7", "OV"), vdf);
}

#[test]
fn inject_with_marker_already_present_is_unchanged() {
    let vdf = "\"7\" { \"LaunchOptions\" \"WINEDLLOVERRIDES=x\" }";
    assert_eq!(inject_launch_option_into_vdf(vdf, "7", "OV"), vdf);
}

#[test]
fn remove_keeps_other_options() {
    let vdf = "\"7\"\n{\n\"LaunchOptions\"\t\t\"OV -novid %command%\"\n}";
    let res = remove_launch_option_from_vdf(vdf, "7", "OV");
    assert_eq!(res, "\"7\"\n{\n\"LaunchOptions\"\t\t\"-novid %command%\"\n}");
}

#[test]
fn remove_drops_entry_when_nothing_left() {
    let vdf = "\"7\"\n{\n\"LaunchOptions\"\t\t\"OV %command%\"\n}";
    let res = remove_launch_option_from_vdf(vdf, "7", "OV");
    assert_eq!(res, "\"7\"\n{\n\n}");
}

#[test]
fn remove_without_app_is_unchanged() {
    let vdf = "\"8\" { \"LaunchOptions\" \"OV\" }";
    assert_eq!(remove_launch_option_from_vdf(vdf, "7", "OV"), vdf);
}

#[test]
fn block_range_of_nested_blocks() {
    let vdf = "\"7\" {a{b}c}";
    assert_eq!(find_app_block_range(vdf, "7"), Some((5, 10)));
    assert_eq!(find_app_block_range("\"7\" {a{b}c", "7"), None);
    assert_eq!(find_app_block_range("\"8\" {}", "7"), None);
}

#[test]
fn combined_options_cases() {
    assert_eq!(build_combined_launch_options("   ", "OV"), "OV %command%");
    assert_eq!(build_combined_launch_options(" a %command% ", "OV"), "OV a %command%");
    assert_eq!(build_combined_launch_options("-x", "OV"), "OV -x %command%");
    assert_eq!(build_combined_launch_options("\u{3000}-x\u{a0}", "OV"), "OV -x %command%");
}

#[test]
fn dollar_references_are_kept_literally() {
    let vdf = "\"7\"{\"LaunchOptions\" \"$HOME/run.sh %command%\"}";
    let res = inject_launch_option_into_vdf(vdf, "7", "X=1");
    assert_eq!(res, "\"7\"{\"LaunchOptions\"\t\t\"X=1 $HOME/run.sh %command%\"}");
    let back = remove_launch_option_from_vdf(&res, "7", "X=1");
    assert_eq!(back, "\"7\"{\"LaunchOptions\"\t\t\"$HOME/run.sh %command%\"}");
}

#[test]
fn remove_keeps_placeholder_in_place() {
    let vdf = "\"7\"{\"LaunchOptions\" \"X=1 -a %command% -b\"}";
    let res = remove_launch_option_from_vdf(vdf, "7", "X=1");
    assert_eq!(res, "\"7\"{\"LaunchOptions\"\t\t\"-a %command% -b\"}");
}

#[test]
fn remove_keeps_options_without_placeholder() {
    let vdf = "\"7\"{\"LaunchOptions\" \"X=1 -novid\"}";
    let res = remove_launch_option_from_vdf(vdf, "7", "X=1");
    assert_eq!(res, "\"7\"{\"LaunchOptions\"\t\t\"-novid\"}");
}

#[test]
fn roundtrip_gives_back_other_options() {
    let vdf = "\"apps\"\n{\n\"7\"\n{\n\"LaunchOptions\"\t\t\"-novid\"\n}\n}";
    let patched = inject_launch_option_into_vdf(vdf, "7", PROTON_OVERRIDE_STR);
    assert_eq!(
        patched,
        "\"apps\"\n{\n\"7\"\n{\n\"LaunchOptions\"\t\t\"WINEDLLOVERRIDES=\\\"steam_api64=n,b;steam_api=n,b\\\" -novid %command%\"\n}\n}"
    );
    let restored = remove_launch_option_from_vdf(&patched, "7", PROTON_OVERRIDE_STR);
    assert_eq!(restored, "\"apps\"\n{\n\"7\"\n{\n\"LaunchOptions\"\t\t\"-novid %command%\"\n}\n}");
}

#[test]
fn roundtrip_keeps_placeholder_options() {
    let vdf = "\"7\"\n{\n\"LaunchOptions\"\t\t\"gamemoderun %command%\"\n}";
    let patched = inject_launch_option_into_vdf(vdf, "7", PROTON_OVERRIDE_STR);
    let restored = remove_launch_option_from_vdf(&patched, "7", PROTON_OVERRIDE_STR);
    assert_eq!(restored, vdf);
}

#[test]
fn roundtrip_block_without_options() {
    let vdf = "\"apps\"\n{\n\"7\"\n{\n\"LastPlayed\"\t\t\"1\"\n}\n}";
    let patched = inject_launch_option_into_vdf(vdf, "7", PROTON_OVERRIDE_STR);
    let restored = remove_launch_option_from_vdf(&patched, "7", PROTON_OVERRIDE_STR);
    assert_eq!(restored, "\"apps\"\n{\n\"7\"\n{\n\"LastPlayed\"\t\t\"1\"\n\n\t\t\t\t\t\n\t\t\t\t}\n}");
}

#[test]
fn roundtrip_new_app_block() {
    let patched = inject_launch_option_into_vdf(APPS_ONLY, "10", PROTON_OVERRIDE_STR);
    let restored = remove_launch_option_from_vdf(&patched, "10", PROTON_OVERRIDE_STR);
    assert_eq!(restored, "\"apps\"\n{\n\t\t\t\t\"10\"\n\t\t\t\t{\n\t\t\t\t\t\n\t\t\t\t}\n}\n");
    assert!(!restored.contains("WINEDLLOVERRIDES"));
}

#[test]
fn entry_value_keeps_escaped_quotes() {
    let vdf = "\"7\" { \"LaunchOptions\" \"-a \\\"x y\\\" %command%\" }";
    let res = inject_launch_option_into_vdf(vdf, "7", "OV");
    assert_eq!(res, "\"7\" { \"LaunchOptions\"\t\t\"OV -a \\\"x y\\\" %command%\" }");
}

#[test]
fn entry_value_after_line_break() {
    let vdf = "\"7\"\n{\n\t\"LaunchOptions\"\n\t\t\"-x\"\n}";
    let res = inject_launch_option_into_vdf(vdf, "7", "OV");
    assert_eq!(res, "\"7\"\n{\n\t\"LaunchOptions\"\t\t\"OV -x %command%\"\n}");
}

#[test]
fn entry_is_the_leftmost_complete_one() {
    let vdf = "\"7\" { \"LaunchOptions\" 5 \"LaunchOptions\" \"-y\" }";
    let res = inject_launch_option_into_vdf(vdf, "7", "OV");
    assert_eq!(res, "\"7\" { \"LaunchOptions\" 5 \"LaunchOptions\"\t\t\"OV -y %command%\" }");
}

#[test]
fn escaped_backslash_ends_value() {
    let vdf = "\"7\" { \"LaunchOptions\" \"a\\\\\" }";
    let res = inject_launch_option_into_vdf(vdf, "7", "OV");
    assert_eq!(res, "\"7\" { \"LaunchOptions\"\t\t\"OV a\\\\ %command%\" }");
}

#[test]
fn backslash_before_line_break_is_no_value() {
    let vdf = "\"7\" { \"LaunchOptions\" \"a\\\n\" }";
    let res = inject_launch_option_into_vdf(vdf, "7", "OV");
    assert_eq!(
        res,
        "\"7\" { \"LaunchOptions\" \"a\\\n\" \n\t\t\t\t\t\"LaunchOptions\"\t\t\"OV %command%\"\n\t\t\t\t}"
    );
}

#[test]
fn inject_twice_with_braces_in_options() {
    let vdf = "\"7\"\n{\n\"LaunchOptions\"\t\t\"-x {a} }\"\n}";
    let once = inject_launch_option_into_vdf(vdf, "7", PROTON_OVERRIDE_STR);
    assert!(once.contains("WINEDLLOVERRIDES"));
    assert_eq!(inject_launch_option_into_vdf(&once, "7", PROTON_OVERRIDE_STR), once);
}

#[test]
fn block_range_is_in_bytes() {
    let vdf = "\"7\" {ä€}";
    assert_eq!(find_app_block_range(vdf, "7"), Some((5, 10)));
    let (a, b) = find_app_block_range(vdf, "7").unwrap();
    assert_eq!(&vdf[a..b], "ä€");
    let vdf = "\"ü\" \"7\" {x}";
    assert_eq!(find_app_block_range(vdf, "7"), Some((10, 11)));
}
