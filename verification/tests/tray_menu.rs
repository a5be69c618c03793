use nodenet::config::ServerConfig;
use nodenet::tray::{tray_action, tray_entries, TrayAction};

fn server(id: &str, name: &str) -> ServerConfig {
    ServerConfig {
        id: id.to_string(),
        name: name.to_string(),
        host: "h".to_string(),
        ssh_port: 22,
        ssh_user: "root".to_string(),
        country: "DE".to_string(),
        panel_url: None,
        panel_user: None,
        ssh_key_path: None,
        bastion_host: None,
        bastion_port: None,
        bastion_user: None,
        bastion_ssh_key_path: None,
        ssh_key_passphrase: None,
        ssl_verify: false,
    }
}

fn pair(id: &str, label: &str) -> Option<(String, String)> {
    Some((id.to_string(), label.to_string()))
}

#[test]
fn tray_lists_servers_between_show_and_quit() {
    let entries = tray_entries(&vec![server("a", "Alpha"), server("b", "Beta")]);
    assert_eq!(
        entries,
        vec![
            pair("show", "Show NodeNet"),
            None,
            pair("server-a", "* Alpha"),
            pair("server-b", "* Beta"),
            None,
            pair("quit", "Quit"),
        ]
    );
    assert_eq!(tray_entries(&vec![]).len(), 4);
}

#[test]
fn tray_entries_lead_to_actions() {
    assert_eq!(tray_action("show"), TrayAction::ShowWindow);
    assert_eq!(tray_action("server-a"), TrayAction::ShowWindow);
    assert_eq!(tray_action("quit"), TrayAction::Quit);
    assert_eq!(tray_action("other"), TrayAction::Ignore);
}
