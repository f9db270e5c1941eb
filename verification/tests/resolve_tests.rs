use proton_game_saves::config::{Config, ConfigData};
use proton_game_saves::resolve::{get_proton_drive_c, get_proton_steamuser, resolve_manifest_path};

fn test_config(steam: &str) -> Config {
    Config::from_parts(
        ConfigData {
            steam_path: steam.to_string(),
            manifest_url: "https://example.invalid/manifest.yaml".to_string(),
            first_run: false,
        },
        "/tmp/config.json".to_string(),
        "/tmp/manifest.yaml".to_string(),
    )
}

const USER: &str = "/s/steam/steamapps/compatdata/100/pfx/drive_c/users/steamuser";
const DRIVE: &str = "/s/steam/steamapps/compatdata/100/pfx/drive_c";

#[test]
fn derived_roots() {
    let cfg = test_config("/s");
    assert_eq!(get_proton_drive_c(&cfg, "100"), DRIVE);
    assert_eq!(get_proton_steamuser(&cfg, "100"), USER);
}

#[test]
fn resolves_win_app_data() {
    let cfg = test_config("/s");
    let r = resolve_manifest_path("<winAppData>/Save", &cfg, "100");
    assert_eq!(r, Some(format!("{}/AppData/Roaming/Save", USER)));
}

#[test]
fn resolves_every_token() {
    let cfg = test_config("/s");
    let cases = [
        ("<winAppData>", format!("{}/AppData/Roaming", USER)),
        ("<winLocalAppData>", format!("{}/AppData/Local", USER)),
        ("<winLocalAppDataLow>", format!("{}/AppData/LocalLow", USER)),
        ("<winDocuments>", format!("{}/Documents", USER)),
        ("<winPublic>", format!("{}/users/Public", DRIVE)),
        ("<winProgramData>", format!("{}/ProgramData", DRIVE)),
        ("<winDir>", format!("{}/windows", DRIVE)),
        ("<home>", USER.to_string()),
        ("<osUserName>", "steamuser".to_string()),
        ("<storeGameId>", "100".to_string()),
        ("<xdgData>", format!("{}/.local/share", USER)),
        ("<xdgConfig>", format!("{}/.config", USER)),
    ];
    for (template, expected) in cases {
        assert_eq!(
            resolve_manifest_path(template, &cfg, "100").as_deref(),
            Some(expected.as_str()),
            "template {template}"
        );
    }
}

#[test]
fn resolves_mixed_template() {
    let cfg = test_config("/s");
    let r = resolve_manifest_path("<winAppData>/<osUserName>/saves", &cfg, "100");
    assert_eq!(r, Some(format!("{}/AppData/Roaming/steamuser/saves", USER)));
}

#[test]
fn base_token_never_resolves() {
    let cfg = test_config("/s");
    assert_eq!(resolve_manifest_path("<base>/Save", &cfg, "100"), None);
}

#[test]
fn ungrounded_tokens_never_resolve() {
    let cfg = test_config("/s");
    for template in ["<root>/x", "<game>/saves", "<storeUserId>/remote"] {
        assert_eq!(resolve_manifest_path(template, &cfg, "100"), None, "template {template}");
    }
}

#[test]
fn unknown_token_fails() {
    let cfg = test_config("/s");
    assert_eq!(resolve_manifest_path("<mystery>/Save", &cfg, "100"), None);
}

#[test]
fn bare_angle_bracket_fails() {
    let cfg = test_config("/s");
    assert_eq!(resolve_manifest_path("saves/a<b", &cfg, "100"), None);
}

#[test]
fn leftover_angle_bracket_in_substitution_fails() {
    // The identifier itself carries a `<`: the substituted result still holds
    // one, so resolution yields nothing rather than a partial path.
    let cfg = test_config("/s");
    assert_eq!(resolve_manifest_path("<storeGameId>/Save", &cfg, "1<2"), None);
}

#[test]
fn plain_template_resolves_to_itself() {
    let cfg = test_config("/s");
    let r = resolve_manifest_path("no/tokens/here", &cfg, "100");
    assert_eq!(r.as_deref(), Some("no/tokens/here"));
}

#[test]
fn empty_template_resolves_empty() {
    let cfg = test_config("/s");
    assert_eq!(resolve_manifest_path("", &cfg, "100").as_deref(), Some(""));
}

#[test]
fn resolution_is_deterministic() {
    let cfg = test_config("/s");
    let a = resolve_manifest_path("<winAppData>/Game/saves", &cfg, "42");
    let b = resolve_manifest_path("<winAppData>/Game/saves", &cfg, "42");
    assert_eq!(a, b);
    let c = resolve_manifest_path("<base>/x", &cfg, "42");
    let d = resolve_manifest_path("<base>/x", &cfg, "42");
    assert_eq!(c, d);
}
