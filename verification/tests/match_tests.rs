use proton_game_saves::compatdata::{DirEntryInfo, PrefixData, SaveEntry, SaveLocation};
use proton_game_saves::config::{Config, ConfigData};
use proton_game_saves::manifest::{FileEntry, GameEntry, GameFileRule, ManifestData};
use proton_game_saves::matcher::find_game_for_prefix_by_path;

fn test_config(steam: &str) -> Config {
    Config::from_parts(
        ConfigData {
            steam_path: steam.to_string(),
            manifest_url: "https://example.invalid/manifest.yaml".to_string(),
            first_run: false,
        },
        "/tmp/config.json".to_string(),
        "/tmp/manifest.yaml".to_string(),
    )
}

fn entry_with_templates(templates: &[&str]) -> GameEntry {
    GameEntry {
        files: Some(
            templates
                .iter()
                .map(|t| FileEntry {
                    path: t.to_string(),
                    rule: GameFileRule { tags: None, when: None },
                })
                .collect(),
        ),
        steam: None,
        gog: None,
        id: None,
        alias: None,
    }
}

fn scanned_prefix(cfg: &Config, game_id: &str, roaming_children: &[&str]) -> PrefixData {
    let mut p = PrefixData::new(cfg, game_id);
    let children: Vec<DirEntryInfo> = roaming_children
        .iter()
        .map(|n| DirEntryInfo { name: n.to_string(), is_dir: true })
        .collect();
    // The third fixed save root is AppData/Roaming.
    p.scan_save_locations(vec![None, None, Some(children), None]);
    p
}

#[test]
fn identifies_game_by_path_prefix() {
    let cfg = test_config("/s");
    let mut manifest = ManifestData::new();
    assert!(manifest.push_game("Foo".to_string(), entry_with_templates(&["<winAppData>/Foo/saves"])));
    let prefix = scanned_prefix(&cfg, "100", &["Foo"]);
    let (title, entry) = find_game_for_prefix_by_path(&manifest, &prefix, &cfg).unwrap();
    assert_eq!(title, "Foo");
    assert_eq!(entry.files.as_ref().unwrap()[0].path, "<winAppData>/Foo/saves");
}

#[test]
fn match_is_case_insensitive() {
    // The folder on disk is upper-cased; normalization lower-cases both sides.
    let cfg = test_config("/s");
    let mut manifest = ManifestData::new();
    assert!(manifest.push_game("Foo".to_string(), entry_with_templates(&["<winAppData>/Foo/saves"])));
    let prefix = scanned_prefix(&cfg, "100", &["FOO"]);
    let found = find_game_for_prefix_by_path(&manifest, &prefix, &cfg);
    assert_eq!(found.map(|(t, _)| t).as_deref(), Some("Foo"));
}

#[test]
fn no_match_yields_none() {
    let cfg = test_config("/s");
    let mut manifest = ManifestData::new();
    assert!(manifest.push_game("Foo".to_string(), entry_with_templates(&["<winAppData>/Foo/saves"])));
    let prefix = scanned_prefix(&cfg, "100", &["Bar"]);
    assert!(find_game_for_prefix_by_path(&manifest, &prefix, &cfg).is_none());
}

#[test]
fn unresolvable_templates_never_match() {
    let cfg = test_config("/s");
    let mut manifest = ManifestData::new();
    assert!(manifest.push_game("Foo".to_string(), entry_with_templates(&["<base>/Foo"])));
    let prefix = scanned_prefix(&cfg, "100", &["Foo"]);
    assert!(find_game_for_prefix_by_path(&manifest, &prefix, &cfg).is_none());
}

#[test]
fn game_without_rules_never_matches() {
    let cfg = test_config("/s");
    let mut manifest = ManifestData::new();
    let entry = GameEntry { files: None, steam: None, gog: None, id: None, alias: None };
    assert!(manifest.push_game("Foo".to_string(), entry));
    let prefix = scanned_prefix(&cfg, "100", &["Foo"]);
    assert!(find_game_for_prefix_by_path(&manifest, &prefix, &cfg).is_none());
}

#[test]
fn candidate_must_be_a_path_prefix_of_the_resolved_path() {
    // The resolved template points outside the discovered folder: no match.
    let cfg = test_config("/s");
    let mut manifest = ManifestData::new();
    assert!(manifest.push_game("Foo".to_string(), entry_with_templates(&["<winDocuments>/Foo"])));
    let prefix = scanned_prefix(&cfg, "100", &["Foo"]);
    assert!(find_game_for_prefix_by_path(&manifest, &prefix, &cfg).is_none());
}

#[test]
fn first_game_in_manifest_order_wins() {
    let cfg = test_config("/s");
    let mut manifest = ManifestData::new();
    assert!(manifest.push_game("Alpha".to_string(), entry_with_templates(&["<winAppData>/Shared"])));
    assert!(manifest.push_game("Beta".to_string(), entry_with_templates(&["<winAppData>/Shared"])));
    let prefix = scanned_prefix(&cfg, "100", &["Shared"]);
    let found = find_game_for_prefix_by_path(&manifest, &prefix, &cfg);
    assert_eq!(found.map(|(t, _)| t).as_deref(), Some("Alpha"));
}

#[test]
fn empty_candidate_path_never_matches() {
    let cfg = test_config("/s");
    let mut manifest = ManifestData::new();
    // `<home>` resolves for every prefix, but an empty candidate path must
    // not count as a prefix of it.
    assert!(manifest.push_game("Foo".to_string(), entry_with_templates(&["<home>"])));
    let mut prefix = PrefixData::new(&cfg, "100");
    prefix.save_locations = vec![SaveLocation {
        path: "whatever".to_string(),
        relative_path: "AppData/Roaming".to_string(),
        entries: vec![SaveEntry { name: "".to_string(), path: "".to_string() }],
    }];
    assert!(find_game_for_prefix_by_path(&manifest, &prefix, &cfg).is_none());
}

#[test]
fn single_trailing_separator_is_trimmed_before_matching() {
    let cfg = test_config("/s");
    let mut manifest = ManifestData::new();
    assert!(manifest.push_game("Foo".to_string(), entry_with_templates(&["<winAppData>/Foo/saves"])));
    let mut prefix = PrefixData::new(&cfg, "100");
    let cand_path = format!("{}/AppData/Roaming/Foo/", prefix.user_path);
    prefix.save_locations = vec![SaveLocation {
        path: format!("{}/AppData/Roaming", prefix.user_path),
        relative_path: "AppData/Roaming".to_string(),
        entries: vec![SaveEntry { name: "Foo".to_string(), path: cand_path }],
    }];
    let found = find_game_for_prefix_by_path(&manifest, &prefix, &cfg);
    assert_eq!(found.map(|(t, _)| t).as_deref(), Some("Foo"));
}

#[test]
fn duplicate_titles_are_rejected() {
    let mut manifest = ManifestData::new();
    assert!(manifest.push_game("Foo".to_string(), entry_with_templates(&["<home>/a"])));
    assert!(!manifest.push_game("Foo".to_string(), entry_with_templates(&["<home>/b"])));
    assert_eq!(manifest.games.len(), 1);
    assert!(manifest.has_title("Foo"));
    assert!(!manifest.has_title("Bar"));
}
