use proton_game_saves::compatdata::{
    collect_candidates, is_ignored_dir, list_game_ids, save_paths, sort_game_ids, DirEntryInfo,
    PrefixCandidate, PrefixData,
};
use proton_game_saves::config::{Config, ConfigData};
use proton_game_saves::strutil::parse_u64;
use proton_game_saves::SaveError;

fn test_config(steam: &str) -> Config {
    Config::from_parts(
        ConfigData {
            steam_path: steam.to_string(),
            manifest_url: "https://example.invalid/manifest.yaml".to_string(),
            first_run: false,
        },
        "/tmp/config.json".to_string(),
        "/tmp/manifest.yaml".to_string(),
    )
}

fn cand(name: &str, is_dir: bool, has_pfx: bool) -> PrefixCandidate {
    PrefixCandidate { name: name.to_string(), is_dir, has_pfx }
}

fn child(name: &str, is_dir: bool) -> DirEntryInfo {
    DirEntryInfo { name: name.to_string(), is_dir }
}

fn names(ids: &[String]) -> Vec<&str> {
    ids.iter().map(|s| s.as_str()).collect()
}

#[test]
fn missing_root_is_not_found() {
    assert_eq!(list_game_ids(None).unwrap_err(), SaveError::NotFound);
}

#[test]
fn only_directories_with_pfx_are_listed() {
    let listing = vec![
        cand("100", true, true),
        cand("stray_file", false, false),
        cand("200", true, false),
        cand("300", true, true),
        cand("400", false, true),
    ];
    let ids = list_game_ids(Some(listing)).unwrap();
    assert_eq!(names(&ids), ["100", "300"]);
}

#[test]
fn numeric_identifiers_sort_by_value() {
    let listing = vec![cand("9", true, true), cand("10", true, true), cand("2", true, true)];
    let ids = list_game_ids(Some(listing)).unwrap();
    assert_eq!(names(&ids), ["2", "9", "10"]);
}

#[test]
fn non_numeric_identifiers_sort_lexicographically() {
    let ids = sort_game_ids(vec!["delta".to_string(), "alpha".to_string(), "charlie".to_string()]);
    assert_eq!(names(&ids), ["alpha", "charlie", "delta"]);
}

#[test]
fn mixed_identifiers_are_all_kept() {
    let mut ids =
        sort_game_ids(vec!["beta".to_string(), "10".to_string(), "2".to_string()]);
    ids.sort();
    assert_eq!(names(&ids), ["10", "2", "beta"]);
}

#[test]
fn empty_root_lists_nothing() {
    let ids = list_game_ids(Some(Vec::new())).unwrap();
    assert!(ids.is_empty());
}

#[test]
fn parse_u64_accepts_digit_strings_only() {
    assert_eq!(parse_u64("0"), Some(0));
    assert_eq!(parse_u64("007"), Some(7));
    assert_eq!(parse_u64("18446744073709551615"), Some(u64::MAX));
    assert_eq!(parse_u64("18446744073709551616"), None);
    assert_eq!(parse_u64(""), None);
    assert_eq!(parse_u64("12a"), None);
    assert_eq!(parse_u64("-1"), None);
    assert_eq!(parse_u64("+1"), None);
}

#[test]
fn deny_list_is_exact_and_case_sensitive() {
    for name in ["Microsoft", "Temp", "Packages", "ConnectedDevicesPlatform", "Comms", "Apps"] {
        assert!(is_ignored_dir(name));
    }
    assert!(!is_ignored_dir("microsoft"));
    assert!(!is_ignored_dir("MyGame"));
}

#[test]
fn deny_listed_folder_is_excluded() {
    let children = vec![child("Microsoft", true), child("MyGame", true)];
    let entries = collect_candidates("/p", &children);
    assert_eq!(entries.len(), 1);
    assert_eq!(entries[0].name, "MyGame");
    assert_eq!(entries[0].path, "/p/MyGame");
}

#[test]
fn files_are_not_candidates() {
    let children = vec![child("notes.txt", false), child("Game", true)];
    let entries = collect_candidates("/p", &children);
    assert_eq!(entries.len(), 1);
    assert_eq!(entries[0].name, "Game");
}

#[test]
fn candidates_sort_case_insensitively() {
    // Case-sensitive code-point order would put `B` (66) before `a` (97).
    let children = vec![child("B", true), child("a", true)];
    let entries = collect_candidates("/p", &children);
    let got: Vec<&str> = entries.iter().map(|e| e.name.as_str()).collect();
    assert_eq!(got, ["a", "B"]);
}

#[test]
fn fixed_save_paths() {
    let got = save_paths();
    let got: Vec<&str> = got.iter().map(|s| s.as_str()).collect();
    assert_eq!(got, ["AppData/Local", "AppData/LocalLow", "AppData/Roaming", "Saved Games"]);
}

#[test]
fn prefix_data_paths() {
    let cfg = test_config("/s");
    let p = PrefixData::new(&cfg, "77");
    assert_eq!(p.game_id, "77");
    assert_eq!(p.path, "/s/steam/steamapps/compatdata/77");
    assert_eq!(p.drive_c_path, "/s/steam/steamapps/compatdata/77/pfx/drive_c");
    assert_eq!(p.user_path, "/s/steam/steamapps/compatdata/77/pfx/drive_c/users/steamuser");
    assert!(p.save_locations.is_empty());
}

#[test]
fn missing_save_root_is_omitted() {
    let cfg = test_config("/s");
    let mut p = PrefixData::new(&cfg, "77");
    let listings = vec![
        Some(vec![child("GameA", true)]),
        None,
        Some(vec![child("GameB", true), child("Temp", true)]),
        None,
    ];
    p.scan_save_locations(listings);
    assert_eq!(p.save_locations.len(), 2);
    assert_eq!(p.save_locations[0].relative_path, "AppData/Local");
    assert_eq!(p.save_locations[0].path, format!("{}/AppData/Local", p.user_path));
    assert_eq!(p.save_locations[0].entries.len(), 1);
    assert_eq!(p.save_locations[0].entries[0].name, "GameA");
    assert_eq!(p.save_locations[1].relative_path, "AppData/Roaming");
    assert_eq!(p.save_locations[1].entries.len(), 1);
    assert_eq!(p.save_locations[1].entries[0].name, "GameB");
}

#[test]
fn present_empty_save_root_is_reported_empty() {
    let cfg = test_config("/s");
    let mut p = PrefixData::new(&cfg, "77");
    p.scan_save_locations(vec![Some(Vec::new()), None, None, None]);
    assert_eq!(p.save_locations.len(), 1);
    assert!(p.save_locations[0].entries.is_empty());
}
