use coderouter_proxy::paths::{
    app_config_path, config_dir, db_path, detect_opencode_config, groups_path, opencode_cache_path,
    providers_path, resolve_opencode_config_path,
};

#[test]
fn config_dir_under_system_config() {
    assert_eq!(config_dir(Some("/home/u/.config")), "/home/u/.config/coderouter");
    assert_eq!(config_dir(Some("/home/u/.config/")), "/home/u/.config/coderouter");
}

#[test]
fn config_dir_falls_back_to_current_dir() {
    assert_eq!(config_dir(None), "./coderouter");
}

#[test]
fn config_file_paths() {
    let c = Some("/etc/xdg");
    assert_eq!(providers_path(c), "/etc/xdg/coderouter/providers.json");
    assert_eq!(groups_path(c), "/etc/xdg/coderouter/groups.json");
    assert_eq!(app_config_path(c), "/etc/xdg/coderouter/config.json");
    assert_eq!(providers_path(None), "./coderouter/providers.json");
}

#[test]
fn db_path_under_data_dir_or_tmp() {
    assert_eq!(db_path(Some("/home/u/.local/share")), "/home/u/.local/share/coderouter/metrics.db");
    assert_eq!(db_path(None), "/tmp/coderouter/metrics.db");
}

#[test]
fn opencode_paths() {
    assert_eq!(
        detect_opencode_config(Some("/home/u")),
        Some("/home/u/.config/opencode/opencode.json".to_string())
    );
    assert_eq!(detect_opencode_config(None), None);
    assert_eq!(
        opencode_cache_path(Some("/home/u/.config")),
        Some("/home/u/.config/coderouter/opencode.json".to_string())
    );
    assert_eq!(opencode_cache_path(None), None);
}

#[test]
fn resolve_prefers_usable_stored_path() {
    assert_eq!(
        resolve_opencode_config_path(Some("/srv/oc.json"), true, Some("/home/u")),
        Some("/srv/oc.json".to_string())
    );
    assert_eq!(
        resolve_opencode_config_path(Some("/srv/oc.json"), false, Some("/home/u")),
        Some("/home/u/.config/opencode/opencode.json".to_string())
    );
    assert_eq!(
        resolve_opencode_config_path(Some(""), true, Some("/home/u")),
        Some("/home/u/.config/opencode/opencode.json".to_string())
    );
    assert_eq!(resolve_opencode_config_path(None, true, None), None);
}

#[test]
fn test_detect_opencode_config_returns_path() {
    let home = dirs::home_dir();
    let result = detect_opencode_config(home.as_ref().and_then(|h| h.to_str()));
    assert!(result.is_some());
    let path = result.unwrap();
    assert!(path.ends_with(".config/opencode/opencode.json"));
}
