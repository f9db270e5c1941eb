use proton_game_saves::config::{default_manifest_url, Config, ConfigData};
use proton_game_saves::SaveError;

fn test_config(steam: &str) -> Config {
    Config::from_parts(
        ConfigData {
            steam_path: steam.to_string(),
            manifest_url: "https://example.invalid/manifest.yaml".to_string(),
            first_run: true,
        },
        "/tmp/config.json".to_string(),
        "/tmp/manifest.yaml".to_string(),
    )
}

#[test]
fn initial_defaults() {
    let data = ConfigData::initial("/home/someone");
    assert_eq!(data.steam_path, "/home/someone/.steam");
    assert_eq!(data.manifest_url, default_manifest_url());
    assert!(data.first_run);
}

#[test]
fn getters_reflect_the_parts() {
    let cfg = test_config("/s");
    assert_eq!(cfg.steam_path(), "/s");
    assert_eq!(cfg.manifest_url(), "https://example.invalid/manifest.yaml");
    assert_eq!(cfg.manifest_cache_path(), "/tmp/manifest.yaml");
    assert!(cfg.is_first_run());
}

#[test]
fn derived_paths() {
    let cfg = test_config("/s");
    assert_eq!(cfg.compatdata_path(), "/s/steam/steamapps/compatdata");
    assert_eq!(cfg.drive_c_path("9"), "/s/steam/steamapps/compatdata/9/pfx/drive_c");
    assert_eq!(
        cfg.user_path("9"),
        "/s/steam/steamapps/compatdata/9/pfx/drive_c/users/steamuser"
    );
}

#[test]
fn set_steam_path_rejects_a_missing_path() {
    let mut cfg = test_config("/s");
    let err = cfg.set_steam_path("/elsewhere".to_string(), false).unwrap_err();
    assert_eq!(err, SaveError::NotFound);
    assert_eq!(cfg.steam_path(), "/s");
    cfg.set_steam_path("/elsewhere".to_string(), true).unwrap();
    assert_eq!(cfg.steam_path(), "/elsewhere");
}

#[test]
fn set_manifest_url_requires_http_or_https() {
    let mut cfg = test_config("/s");
    let err = cfg.set_manifest_url("ftp://example.invalid/m.yaml".to_string()).unwrap_err();
    assert_eq!(err, SaveError::InvalidUrl);
    assert_eq!(cfg.manifest_url(), "https://example.invalid/manifest.yaml");
    cfg.set_manifest_url("http://example.invalid/m.yaml".to_string()).unwrap();
    assert_eq!(cfg.manifest_url(), "http://example.invalid/m.yaml");
    cfg.set_manifest_url("https://example.invalid/n.yaml".to_string()).unwrap();
    assert_eq!(cfg.manifest_url(), "https://example.invalid/n.yaml");
}

#[test]
fn first_run_can_be_completed() {
    let mut cfg = test_config("/s");
    assert!(cfg.is_first_run());
    cfg.mark_first_run_complete();
    assert!(!cfg.is_first_run());
}

#[test]
fn error_kinds_are_distinct() {
    let kinds = [
        SaveError::NotFound,
        SaveError::ParseError { line: 3, column: 7 },
        SaveError::NetworkError,
        SaveError::HttpError { status: 404 },
        SaveError::IoError,
        SaveError::InvalidUrl,
    ];
    for (i, a) in kinds.iter().enumerate() {
        for (j, b) in kinds.iter().enumerate() {
            assert_eq!(i == j, a == b);
        }
    }
    assert_ne!(SaveError::HttpError { status: 404 }, SaveError::HttpError { status: 500 });
    assert_ne!(
        SaveError::ParseError { line: 3, column: 7 },
        SaveError::ParseError { line: 0, column: 0 }
    );
}
