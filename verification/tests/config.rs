use appimage_auto::config::Config;

#[test]
fn test_default_config() {
    let config = Config::default();
    assert_eq!(config.watch.directories.len(), 3);
    assert!(config.watch.directories.contains(&"~/Downloads".to_string()));
}

#[test]
fn test_expand_paths() {
    let config = Config::default();
    let expanded = config.expand_paths();

    // Should not contain ~ after expansion
    for dir in &expanded.watch.directories {
        assert!(!dir.starts_with("~"));
    }
}

#[test]
fn test_expand_keeps_plain_paths() {
    let mut config = Config::default();
    config.watch.directories = vec!["/opt/bundles".to_string()];
    config.integration.desktop_dir = "/srv/apps".to_string();
    let expanded = config.expand_paths();
    assert_eq!(expanded.watch.directories, vec!["/opt/bundles".to_string()]);
    assert_eq!(expanded.integration.desktop_dir, "/srv/apps");
    assert_eq!(expanded.watch.debounce_ms, config.watch.debounce_ms);
    assert_eq!(expanded.watch.patterns, config.watch.patterns);
}

#[test]
fn test_default_integration() {
    let config = Config::default();
    assert_eq!(config.integration.desktop_dir, "~/.local/share/applications");
    assert_eq!(config.integration.icon_dir, "~/.local/share/icons/hicolor");
    assert!(config.integration.update_database);
    assert!(config.integration.scan_on_startup);
    assert_eq!(config.watch.debounce_ms, 1000);
}
