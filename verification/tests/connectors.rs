use nidex::connectors::{
    accessible_connectors_from_mcp_tools, codex_apps_mcp_server_name, collect_accessible_connectors,
    connector_display_label, connector_install_url, connector_mention_slug, connector_name_slug,
    merge_connectors, normalize_connector_value, AppInfo, ToolInfo,
};

fn app(id: &str, name: &str) -> AppInfo {
    AppInfo {
        id: id.to_string(),
        name: name.to_string(),
        description: None,
        logo_url: None,
        logo_url_dark: None,
        distribution_channel: None,
        install_url: None,
        is_accessible: false,
    }
}

#[test]
fn slugs_and_install_urls() {
    assert_eq!(connector_name_slug("Google Drive"), "google-drive");
    assert_eq!(connector_name_slug("--Hi!--"), "hi");
    assert_eq!(connector_name_slug("!!!"), "app");
    assert_eq!(connector_name_slug(""), "app");
    assert_eq!(connector_install_url("Google Drive", "gdrive"), "https://chatgpt.com/apps/google-drive/gdrive");
    let a = app("x1", "My App");
    assert_eq!(connector_display_label(&a), "My App");
    assert_eq!(connector_mention_slug(&a), "my-app");
}

#[test]
fn connector_values_are_trimmed() {
    assert_eq!(normalize_connector_value(Some("  Slack ")), Some("Slack".to_string()));
    assert_eq!(normalize_connector_value(Some("   ")), None);
    assert_eq!(normalize_connector_value(None), None);
}

#[test]
fn reachable_connectors_from_tools() {
    let server = codex_apps_mcp_server_name().to_string();
    let tools = vec![
        ToolInfo { server_name: server.clone(), connector_id: Some("b".to_string()), connector_name: Some(" Beta ".to_string()) },
        ToolInfo { server_name: "other".to_string(), connector_id: Some("z".to_string()), connector_name: None },
        ToolInfo { server_name: server.clone(), connector_id: None, connector_name: Some("none".to_string()) },
        ToolInfo { server_name: server.clone(), connector_id: Some("a".to_string()), connector_name: None },
        ToolInfo { server_name: server, connector_id: Some("a".to_string()), connector_name: Some("Alpha".to_string()) },
    ];
    let r = accessible_connectors_from_mcp_tools(&tools);
    let ids: Vec<&str> = r.iter().map(|c| c.id.as_str()).collect();
    assert_eq!(ids, vec!["a", "b"]);
    assert_eq!(r[0].name, "Alpha");
    assert_eq!(r[1].name, "Beta");
    assert!(r.iter().all(|c| c.is_accessible));
    assert_eq!(r[0].install_url.as_deref(), Some("https://chatgpt.com/apps/alpha/a"));
}

#[test]
fn collecting_keeps_one_entry_per_id() {
    let r = collect_accessible_connectors(vec![
        ("c".to_string(), None),
        ("c".to_string(), Some("Calendar".to_string())),
        ("c".to_string(), Some("Later".to_string())),
    ]);
    assert_eq!(r.len(), 1);
    assert_eq!(r[0].name, "Calendar");
}

#[test]
fn merging_marks_reachable_connectors() {
    let mut described = app("d", "d");
    described.description = Some("Docs".to_string());
    let directory = vec![app("b", "Beta"), described, app("a", "Alpha")];
    let mut reach = app("d", "Docs App");
    reach.logo_url = Some("logo".to_string());
    let extra = app("e", "Extra");
    let merged = merge_connectors(directory, vec![reach, extra]);
    let order: Vec<(&str, bool)> = merged.iter().map(|c| (c.id.as_str(), c.is_accessible)).collect();
    assert_eq!(order, vec![("d", true), ("e", true), ("a", false), ("b", false)]);
    assert_eq!(merged[0].name, "Docs App");
    assert_eq!(merged[0].description.as_deref(), Some("Docs"));
    assert_eq!(merged[0].logo_url.as_deref(), Some("logo"));
    assert!(merged.iter().all(|c| c.install_url.is_some()));
    assert_eq!(merged[2].install_url.as_deref(), Some("https://chatgpt.com/apps/alpha/a"));
}
