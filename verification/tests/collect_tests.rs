use proton_game_saves::collect::{collect_save_locations, resolved_save_paths};
use proton_game_saves::config::{Config, ConfigData};
use proton_game_saves::fstree::{calculate_path_size, FsNode};
use proton_game_saves::manifest::{FileEntry, GameEntry, GameFileRule};

fn test_config(steam: &str) -> Config {
    Config::from_parts(
        ConfigData {
            steam_path: steam.to_string(),
            manifest_url: "https://example.invalid/manifest.yaml".to_string(),
            first_run: false,
        },
        "/tmp/config.json".to_string(),
        "/tmp/manifest.yaml".to_string(),
    )
}

fn rule(tags: Option<Vec<&str>>) -> GameFileRule {
    GameFileRule {
        tags: tags.map(|ts| ts.into_iter().map(str::to_string).collect()),
        when: None,
    }
}

const USER: &str = "/s/steam/steamapps/compatdata/100/pfx/drive_c/users/steamuser";

#[test]
fn unresolvable_templates_are_omitted() {
    let cfg = test_config("/s");
    let entry = GameEntry {
        files: Some(vec![
            FileEntry { path: "<winAppData>/Foo".to_string(), rule: rule(Some(vec!["save"])) },
            FileEntry { path: "<base>/Foo".to_string(), rule: rule(None) },
            FileEntry { path: "<home>/.foo".to_string(), rule: rule(None) },
        ]),
        steam: None,
        gog: None,
        id: None,
        alias: None,
    };
    let resolved = resolved_save_paths(&entry, &cfg, "100");
    assert_eq!(resolved.len(), 2);
    assert_eq!(resolved[0].manifest_path, "<winAppData>/Foo");
    assert_eq!(resolved[0].resolved_path, format!("{}/AppData/Roaming/Foo", USER));
    assert_eq!(resolved[0].tags, Some(vec!["save".to_string()]));
    assert_eq!(resolved[1].manifest_path, "<home>/.foo");
    assert_eq!(resolved[1].resolved_path, format!("{}/.foo", USER));
    assert_eq!(resolved[1].tags, None);
}

#[test]
fn entry_without_rules_resolves_to_nothing() {
    let cfg = test_config("/s");
    let entry = GameEntry { files: None, steam: None, gog: None, id: None, alias: None };
    assert!(resolved_save_paths(&entry, &cfg, "100").is_empty());
}

#[test]
fn total_size_is_the_sum_of_existing_paths() {
    let cfg = test_config("/s");
    let entry = GameEntry {
        files: Some(vec![
            FileEntry { path: "<winAppData>/A".to_string(), rule: rule(None) },
            FileEntry { path: "<winAppData>/B".to_string(), rule: rule(None) },
            FileEntry { path: "<winAppData>/C".to_string(), rule: rule(None) },
        ]),
        steam: None,
        gog: None,
        id: None,
        alias: None,
    };
    let resolved = resolved_save_paths(&entry, &cfg, "100");
    let probes = vec![
        Some(FsNode::Dir {
            children: vec![FsNode::File { size: 40 }, FsNode::File { size: 2 }],
        }),
        None,
        Some(FsNode::File { size: 100 }),
    ];
    let (infos, total) = collect_save_locations(&resolved, &probes);
    assert_eq!(infos.len(), 3);
    assert_eq!(infos[0].size_bytes, 42);
    assert!(infos[0].exists);
    assert_eq!(infos[1].size_bytes, 0);
    assert!(!infos[1].exists);
    assert_eq!(infos[2].size_bytes, 100);
    assert!(infos[2].exists);
    assert_eq!(total, 142);
    assert_eq!(total, infos.iter().map(|i| i.size_bytes).sum::<u64>());
}

#[test]
fn size_of_a_file_is_its_length() {
    assert_eq!(calculate_path_size(&FsNode::File { size: 7 }), 7);
}

#[test]
fn size_of_a_tree_sums_its_files() {
    let tree = FsNode::Dir {
        children: vec![
            FsNode::File { size: 10 },
            FsNode::Dir { children: vec![FsNode::File { size: 5 }, FsNode::Other] },
            FsNode::File { size: 1 },
        ],
    };
    assert_eq!(calculate_path_size(&tree), 16);
}

#[test]
fn symlinked_subtree_contributes_nothing() {
    // A link back up the tree would make the on-disk structure cyclic; in the
    // snapshot the link is a leaf and whatever stands behind it is ignored.
    let linked_away = FsNode::Dir {
        children: vec![FsNode::File { size: 1000 }, FsNode::File { size: 2000 }],
    };
    let tree = FsNode::Dir {
        children: vec![
            FsNode::File { size: 10 },
            FsNode::Symlink { target: Box::new(linked_away) },
            FsNode::Dir { children: vec![FsNode::File { size: 5 }] },
        ],
    };
    assert_eq!(calculate_path_size(&tree), 15);
}

#[test]
fn size_saturates_instead_of_wrapping() {
    let tree = FsNode::Dir {
        children: vec![FsNode::File { size: u64::MAX }, FsNode::File { size: 1 }],
    };
    assert_eq!(calculate_path_size(&tree), u64::MAX);
}

#[test]
fn empty_directory_has_size_zero() {
    assert_eq!(calculate_path_size(&FsNode::Dir { children: Vec::new() }), 0);
}
