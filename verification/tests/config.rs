use atriumd::config::Config;

#[test]
fn defaults_start_disconnected_with_areas_visible() {
    let config = Config::default();
    assert!(config.base_url.is_empty());
    assert!(config.favorites.is_empty());
    assert!(!config.show_favorites);
    assert!(config.areas.hide_empty_areas);
}

#[test]
fn sensitive_ipc_is_off_until_asked_for() {
    assert!(!Config::default().allow_sensitive_ipc);
}

#[test]
fn defaults_import_the_dashboard_once_and_pin_nothing() {
    let config = Config::default();
    assert!(!config.imported_dashboard_prefs);
    assert!(config.pinned_tabs.is_empty());
    assert!(config.selected_tab.is_empty());
    assert!(config.display_name_overrides.is_empty());
    assert!(config.areas.order.is_empty());
    assert!(config.areas.hidden.is_empty());
    assert!(!config.areas.hide_entities_without_area);
}
