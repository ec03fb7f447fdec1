use fm_application::error::ApplicationError;
use fm_application::plugins::{
    DiscoveredPlugin, PluginManifestSummary, contains_text, describe_plugin,
    find_valid_plugin, icon_asset_declared, icon_theme_plugin, plugin_log_access,
    update_enabled_plugins,
};

fn strings(items: &[&str]) -> Vec<String> {
    items.iter().map(|s| (*s).to_owned()).collect()
}

#[test]
fn enabling_adds_the_plugin_once_and_keeps_the_list_sorted() {
    let list = strings(&["zeta", "alpha", "test.plugin", "beta", "test.plugin"]);
    assert_eq!(
        update_enabled_plugins(&list, "test.plugin", true),
        strings(&["alpha", "beta", "test.plugin", "zeta"])
    );
    assert_eq!(
        update_enabled_plugins(&list, "test.plugin", false),
        strings(&["zeta", "alpha", "beta"])
    );
    assert_eq!(update_enabled_plugins(&Vec::new(), "a", true), strings(&["a"]));
    assert!(contains_text(&update_enabled_plugins(&list, "new", true), "new"));
}

#[test]
fn set_plugin_enabled_persists_to_settings() {
    let enabled = update_enabled_plugins(&Vec::new(), "test.plugin", true);
    let description = describe_plugin(
        DiscoveredPlugin {
            id: "test.plugin".to_owned(),
            manifest: Some(PluginManifestSummary {
                name: "Test".to_owned(),
                version: "1".to_owned(),
                description: "Test plugin".to_owned(),
            }),
            valid: true,
            diagnostic: None,
        },
        &enabled,
        None,
    );
    assert!(description.enabled && description.id == "test.plugin");
    assert!(description.load_columns && description.show_icon_theme);
}

#[test]
fn malformed_plugins_are_listed_as_disabled_records() {
    let description = describe_plugin(
        DiscoveredPlugin {
            id: "broken".to_owned(),
            manifest: None,
            valid: false,
            diagnostic: Some("manifest is invalid".to_owned()),
        },
        &strings(&["broken"]),
        Some("runtime refused".to_owned()),
    );
    assert_eq!(description.name, "broken");
    assert_eq!(description.version, "");
    assert!(!description.enabled);
    assert!(!description.load_columns);
    assert!(!description.show_icon_theme);
    assert_eq!(description.diagnostic, Some("manifest is invalid".to_owned()));

    let isolated = describe_plugin(
        DiscoveredPlugin {
            id: "ok".to_owned(),
            manifest: None,
            valid: true,
            diagnostic: None,
        },
        &strings(&["ok"]),
        Some("runtime refused".to_owned()),
    );
    assert!(!isolated.enabled);
    assert!(isolated.load_columns);
    assert_eq!(isolated.diagnostic, Some("runtime refused".to_owned()));
}

#[test]
fn undeclared_icon_assets_are_not_found() {
    let declared = strings(&["icons/a.svg"]);
    assert_eq!(icon_asset_declared(&declared, "icons/a.svg"), Ok(()));
    assert_eq!(
        icon_asset_declared(&declared, "../secret"),
        Err(ApplicationError::NotFound)
    );
}

fn found(id: &str, valid: bool) -> DiscoveredPlugin {
    DiscoveredPlugin {
        id: id.to_owned(),
        manifest: None,
        valid,
        diagnostic: if valid { None } else { Some("missing manifest".to_owned()) },
    }
}

#[test]
fn plugin_logs_reports_not_found_for_undiscovered_plugin() {
    let error = plugin_log_access(&Vec::new(), "unknown.plugin")
        .expect_err("unknown plugin must be reported as not found");
    assert!(matches!(error, ApplicationError::NotFound));
}

#[test]
fn plugin_icon_theme_asset_reports_not_found_for_unknown_plugin() {
    let error = icon_theme_plugin(&Vec::new(), &Vec::new(), "unknown.plugin")
        .expect_err("unknown plugin must be reported as not found");
    assert!(matches!(error, ApplicationError::NotFound));
}

#[test]
fn plugin_lookups_use_the_first_valid_plugin_with_the_identifier() {
    let plugins = vec![found("a.plugin", false), found("b.plugin", true), found("a.plugin", true)];
    assert_eq!(find_valid_plugin(&plugins, "a.plugin"), Some(2));
    assert_eq!(find_valid_plugin(&plugins, "c.plugin"), None);
    assert_eq!(icon_theme_plugin(&plugins, &strings(&["a.plugin"]), "a.plugin"), Ok(2));
    assert_eq!(
        icon_theme_plugin(&plugins, &strings(&["b.plugin"]), "a.plugin"),
        Err(ApplicationError::NotFound)
    );
    assert_eq!(plugin_log_access(&plugins, "a.plugin"), Ok(()));
    assert_eq!(plugin_log_access(&vec![found("broken.plugin", false)], "broken.plugin"), Ok(()));
}
