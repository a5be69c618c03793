use nodenet::commands::{
    connection_check, expand_public_key_path, free_key_file_name, key_file_candidate, key_pair_paths, logs_command,
    logs_target_server, panel_login_user, public_key_path_for_private, restore_action,
    restore_failure, restore_report, sanitize_ssh_key_name, LogsTargetError, Restore, SecretKind,
    TrialSecrets, TrialStep,
};
use nodenet::config::{
    backup_path, config_path, delete_bastion, delete_server, metrics_cache_path, find_bastion, find_server, legacy_config_path,
    set_monitor_server, set_monitor_target, set_poll_interval, set_theme, upsert_bastion,
    upsert_server, AppConfig, BastionConfig, ConfigError, ServerConfig,
};
use nodenet::panel_setup::{
    apply_database_values, apply_panel_setup, finish_with_fallback, first_nonblank_line,
    merge_panel_setup_info, parse_panel_setup_info, sqlite_setting_command, usable_password,
    xui_available, panel_setup_next, xui_probe_command, PanelDatabaseValues, PanelSetupInfo, SetupAction,
    SetupStep, XUI_MENU_COMMAND, XUI_PASSWORD_QUERY, XUI_SETTINGS_COMMAND, XUI_USER_QUERY,
};

fn server(id: &str, host: &str) -> ServerConfig {
    ServerConfig {
        id: id.to_string(),
        name: format!("Server {id}"),
        host: host.to_string(),
        ssh_port: 22,
        ssh_user: "root".to_string(),
        country: "DE".to_string(),
        panel_url: None,
        panel_user: None,
        ssh_key_path: None,
        bastion_host: None,
        bastion_port: None,
        bastion_user: None,
        bastion_ssh_key_path: None,
        ssh_key_passphrase: None,
        ssl_verify: false,
    }
}

fn bastion(id: &str) -> BastionConfig {
    BastionConfig {
        id: id.to_string(),
        name: "Jump".to_string(),
        host: "jump.example.com".to_string(),
        port: 2222,
        user: "admin".to_string(),
        ssh_key_path: Some("~/.ssh/jump".to_string()),
    }
}

fn config() -> AppConfig {
    AppConfig {
        theme: "dark".to_string(),
        poll_interval_sec: 10,
        servers: vec![server("a", "a.example.com"), server("b", "b.example.com")],
        bastions: vec![bastion("j")],
        monitor_server_id: None,
        monitor_bastion_id: None,
    }
}

#[test]
fn default_config_is_dark_with_ten_second_polls() {
    let c = AppConfig::default();
    assert_eq!(c.theme, "dark");
    assert!(c.servers.is_empty());
    assert!(c.monitor_server_id.is_none());
}

#[test]
fn upsert_then_find_gives_the_server_back() {
    let mut s = server("c", "c.example.com");
    s.name = "Third".to_string();
    let c = upsert_server(config(), s);
    assert_eq!(c.servers.len(), 3);
    assert_eq!(find_server(&c, "c").unwrap().name, "Third");
    assert_eq!(find_server(&c, "a").unwrap().host, "a.example.com");
}

#[test]
fn upsert_replaces_the_server_of_the_same_id_in_place() {
    let mut s = server("a", "new.example.com");
    s.ssh_port = 2200;
    let c = upsert_server(config(), s);
    assert_eq!(c.servers.len(), 2);
    assert_eq!(c.servers[0].host, "new.example.com");
    assert_eq!(c.servers[0].ssh_port, 2200);
    assert_eq!(c.servers[1].id, "b");
}

#[test]
fn blank_server_id_gets_a_fresh_simple_id() {
    let c = upsert_server(config(), server("  ", "new.example.com"));
    let id = &c.servers[2].id;
    assert_eq!(id.len(), 32);
    assert!(id.chars().all(|ch| ch.is_ascii_hexdigit() && !ch.is_ascii_uppercase()));
    let again = upsert_server(config(), server("", "new.example.com"));
    assert_ne!(&again.servers[2].id, id);
}

#[test]
fn delete_then_find_reports_not_found() {
    let mut c = config();
    c.monitor_server_id = Some("a".to_string());
    let c = delete_server(c, "a");
    assert_eq!(c.servers.len(), 1);
    assert!(c.monitor_server_id.is_none());
    match find_server(&c, "a") {
        Err(e) => assert_eq!(e.message(), "server 'a' was not found"),
        Ok(_) => panic!("the server was deleted"),
    }
    assert!(find_server(&c, "b").is_ok());
}

#[test]
fn bastions_are_upserted_and_deleted() {
    let mut b = bastion("k");
    b.port = 22;
    let c = upsert_bastion(config(), b);
    assert_eq!(c.bastions.len(), 2);
    assert_eq!(find_bastion(&c, "k").unwrap().port, 22);
    let mut c = c;
    c.monitor_bastion_id = Some("k".to_string());
    let c = delete_bastion(c, "k");
    assert!(find_bastion(&c, "k").is_none());
    assert!(c.monitor_bastion_id.is_none());
}

#[test]
fn poll_interval_is_held_between_two_and_one_hundred_twenty() {
    assert_eq!(set_poll_interval(config(), 0).poll_interval_sec, 2);
    assert_eq!(set_poll_interval(config(), 500).poll_interval_sec, 120);
    assert_eq!(set_poll_interval(config(), 60).poll_interval_sec, 60);
}

#[test]
fn unknown_theme_is_refused() {
    assert_eq!(set_theme(config(), "contrast".to_string()).unwrap().theme, "contrast");
    match set_theme(config(), "neon".to_string()) {
        Err(e) => assert_eq!(
            e.message(),
            "unknown theme 'neon', allowed: dark, purple-dark, green-dark, full-dark, system, contrast"
        ),
        Ok(_) => panic!("neon is not a theme"),
    }
}

#[test]
fn monitor_target_is_one_known_host() {
    match set_monitor_target(config(), Some("a".to_string()), Some("j".to_string())) {
        Err(ConfigError::BothMonitorTargets) => {}
        other => panic!("both targets must be refused: {other:?}"),
    }
    match set_monitor_target(config(), Some(" x ".to_string()), None) {
        Err(e) => assert_eq!(e.message(), "monitor server 'x' was not found"),
        Ok(_) => panic!("x is not a server"),
    }
    match set_monitor_target(config(), None, Some("nope".to_string())) {
        Err(e) => assert_eq!(e.message(), "monitor bastion 'nope' was not found"),
        Ok(_) => panic!("nope is not a bastion"),
    }
    let c = set_monitor_target(config(), Some(" ".to_string()), Some(" j ".to_string())).unwrap();
    assert_eq!(c.monitor_server_id, None);
    assert_eq!(c.monitor_bastion_id.as_deref(), Some("j"));
    let c = set_monitor_server(c, Some("b".to_string())).unwrap();
    assert_eq!(c.monitor_server_id.as_deref(), Some("b"));
    assert_eq!(c.monitor_bastion_id, None);
}

#[test]
fn configuration_files_live_in_the_application_directory() {
    assert_eq!(config_path("/Users/me/Library/Application Support"), "/Users/me/Library/Application Support/NodeNet/config.json");
    assert_eq!(legacy_config_path("/data/"), "/data/vpnctrl/config.json");
}

#[test]
fn panel_setup_report_defaults() {
    let info = parse_panel_setup_info("nothing useful here", "cli");
    assert_eq!(info.port, 65333);
    assert_eq!(info.username, "admin");
    assert_eq!(info.password, "");
    assert_eq!(info.web_base_path, "");
}

fn info(port: u16, user: &str, pass: &str, path: &str, source: &str) -> PanelSetupInfo {
    PanelSetupInfo {
        port,
        username: user.to_string(),
        password: pass.to_string(),
        web_base_path: path.to_string(),
        source: source.to_string(),
    }
}

#[test]
fn merge_fills_in_only_what_is_missing() {
    let mut base = info(65333, "admin", "", "/keep", "cli");
    merge_panel_setup_info(&mut base, info(2053, "boss", "pw", "/other", "fallback"));
    assert_eq!(base.port, 2053);
    assert_eq!(base.username, "boss");
    assert_eq!(base.password, "pw");
    assert_eq!(base.web_base_path, "/keep");
    assert_eq!(base.source, "cli");
}

#[test]
fn database_password_ends_the_search() {
    let db = PanelDatabaseValues {
        username: Some("root".to_string()),
        password: Some("secret".to_string()),
        port: Some("not a port".to_string()),
        web_base_path: Some("'/xyz/'".to_string()),
    };
    match apply_database_values(info(65333, "admin", "", "", "cli"), db) {
        SetupStep::Done(i) => {
            assert_eq!(i.username, "root");
            assert_eq!(i.password, "secret");
            assert_eq!(i.port, 65333);
            assert_eq!(i.web_base_path, "/xyz");
            assert_eq!(i.source, "sqlite");
        }
        SetupStep::NeedsFallback(_) => panic!("a password was found"),
    }
}

#[test]
fn without_a_password_the_menu_is_read_and_sources_are_named() {
    let db = PanelDatabaseValues { username: None, password: None, port: Some("2096".to_string()), web_base_path: None };
    let partial = match apply_database_values(info(65333, "admin", "", "", "cli"), db) {
        SetupStep::NeedsFallback(i) => i,
        SetupStep::Done(_) => panic!("no password yet"),
    };
    assert_eq!(partial.port, 2096);
    assert_eq!(partial.source, "sqlite");
    let done = finish_with_fallback(partial, info(65333, "admin", "pw", "", "fallback"));
    assert_eq!(done.password, "pw");
    assert_eq!(done.source, "fallback");
    let nothing = finish_with_fallback(info(65333, "admin", "", "", "cli"), info(65333, "admin", "", "", "fallback"));
    assert_eq!(nothing.source, "default");
}

#[test]
fn database_values_are_read_and_hashes_skipped() {
    assert_eq!(first_nonblank_line("\n   \n  admin  \nother\n").as_deref(), Some("admin"));
    assert_eq!(first_nonblank_line("  \n"), None);
    assert_eq!(usable_password(Some("$2a$10$abc".to_string())), None);
    assert_eq!(usable_password(Some("plain".to_string())).as_deref(), Some("plain"));
    assert_eq!(
        sqlite_setting_command("web'Port"),
        "sqlite3 /etc/x-ui/x-ui.db \"SELECT value FROM settings WHERE key='web''Port' LIMIT 1;\" 2>/dev/null || true"
    );
}

#[test]
fn xui_probe_answer_is_read() {
    assert!(xui_available("noise\nxui_available= 0 \n"));
    assert!(!xui_available("xui_available=1\nxui_available=0\n"));
    assert!(!xui_available("nothing"));
}

#[test]
fn found_setup_is_recorded_on_the_server() {
    let (c, updated) = apply_panel_setup(config(), "b", &info(2053, "boss", "pw", "/base/", "cli"));
    let updated = updated.unwrap();
    assert_eq!(updated.panel_url.as_deref(), Some("http://b.example.com:2053/base"));
    assert_eq!(updated.panel_user.as_deref(), Some("boss"));
    assert_eq!(c.servers[1].panel_url.as_deref(), Some("http://b.example.com:2053/base"));
    let (c2, none) = apply_panel_setup(config(), "zzz", &info(2053, "boss", "pw", "", "cli"));
    assert!(none.is_none());
    assert_eq!(c2.servers.len(), 2);
}

#[test]
fn ssh_key_names_and_files() {
    assert_eq!(sanitize_ssh_key_name("  my key!!.pub- ").unwrap(), "my_key__.pub");
    assert_eq!(sanitize_ssh_key_name(" ..--__ ").unwrap_err(), "SSH key name is required");
    assert_eq!(key_file_candidate("id", 1), "id");
    assert_eq!(key_file_candidate("id", 3), "id_3");
    assert_eq!(public_key_path_for_private("/home/me/.ssh/id"), "/home/me/.ssh/id.pub");
    let pair = key_pair_paths("/k");
    assert_eq!(pair.public_key_path, "/k.pub");
}

#[test]
fn public_key_paths_are_expanded() {
    assert_eq!(expand_public_key_path("  ", Some("/home/me")).unwrap_err(), "SSH public key path is required");
    assert_eq!(expand_public_key_path(" ~/.ssh/id.pub ", Some("/home/me")).unwrap(), "/home/me/.ssh/id.pub");
    assert_eq!(expand_public_key_path("~/.ssh/id.pub", None).unwrap_err(), "unable to resolve user directories");
    assert_eq!(expand_public_key_path("/etc/key.pub", None).unwrap(), "/etc/key.pub");
}

#[test]
fn log_targets_and_commands() {
    let mut c = config();
    assert!(matches!(logs_target_server(&c, "monitor", None), Err(LogsTargetError::MonitorNotConfigured)));
    c.monitor_server_id = Some("b".to_string());
    assert_eq!(logs_target_server(&c, "monitor", None).unwrap().id, "b");
    assert!(matches!(logs_target_server(&c, "server", Some("  ")), Err(LogsTargetError::ServerNotSelected)));
    assert_eq!(logs_target_server(&c, "server", Some(" a ")).unwrap().host, "a.example.com");
    match logs_target_server(&c, "server", Some("q")) {
        Err(e) => assert_eq!(e.message(), "server 'q' was not found"),
        Ok(_) => panic!("q is not a server"),
    }
    let b = logs_target_server(&c, "bastion", Some("j")).unwrap();
    assert_eq!(b.id, "bastion:j");
    assert_eq!(b.ssh_port, 2222);
    assert_eq!(b.country, "US");
    assert!(matches!(logs_target_server(&c, "bastion", None), Err(LogsTargetError::BastionNotSelected)));
    match logs_target_server(&c, "disk", None) {
        Err(e) => assert_eq!(e.message(), "unknown logs target 'disk'"),
        Ok(_) => panic!("disk is not a target"),
    }
    assert!(logs_command("monitor").starts_with("journalctl -u nodenet-monitor.service"));
    assert!(logs_command("panel").contains("/var/log/x-ui.log"));
    assert!(logs_command("anything").contains("/var/log/syslog"));
}

#[test]
fn connection_tests_put_secrets_back() {
    let t = TrialSecrets::new(Some(String::new()), None, Some("b".to_string()), Some("p".to_string()));
    assert!(t.ssh_password.is_none());
    assert!(t.resets_connections());
    assert!(t.clears_panel_cache());
    let only_panel = TrialSecrets::new(None, None, None, Some("p".to_string()));
    assert!(!only_panel.resets_connections());
    assert_eq!(panel_login_user(&server("a", "h")), "admin");
    assert!(matches!(restore_action::<String>(None), Restore::Delete));
    assert!(matches!(restore_action(Some(1)), Restore::Save(1)));
    assert_eq!(restore_failure(SecretKind::KeyPassphrase, "boom"), "SSH key passphrase: boom");
    assert_eq!(restore_report(&vec![]), None);
    assert_eq!(
        restore_report(&vec!["SSH password: x".to_string(), "panel credentials: y".to_string()]).as_deref(),
        Some("credential restore failed after connection test: SSH password: x; panel credentials: y")
    );
    let check = connection_check(Ok(()), Some(Err("down".to_string())));
    assert!(check.ssh_ok);
    assert_eq!(check.ssh_message, "SSH OK");
    assert_eq!(check.panel_ok, Some(false));
    assert_eq!(check.panel_message.as_deref(), Some("down"));
    let none = connection_check(Err("refused".to_string()), None);
    assert!(!none.ssh_ok && none.panel_ok.is_none());
}

#[test]
fn user_files_live_in_the_application_directory() {
    assert_eq!(metrics_cache_path("/data"), "/data/NodeNet/metrics-cache.json");
    assert_eq!(
        backup_path("/data/", "s1", "20240101-120000"),
        "/data/NodeNet/backups/s1-3x-ui-config-20240101-120000.json"
    );
}

#[test]
fn a_connection_test_puts_back_what_it_tried() {
    let t = TrialSecrets::new(Some("pw".to_string()), Some("".to_string()), None, Some("panel".to_string()));
    assert_eq!(
        t.trial_plan(),
        vec![
            TrialStep::ReadPrevious(SecretKind::SshPassword),
            TrialStep::ReadPrevious(SecretKind::PanelCredentials),
            TrialStep::SaveTried(SecretKind::SshPassword),
            TrialStep::SaveTried(SecretKind::PanelCredentials),
            TrialStep::RunChecks,
            TrialStep::CloseConnections,
            TrialStep::ClearPanelCache,
            TrialStep::PutBack(SecretKind::SshPassword),
            TrialStep::PutBack(SecretKind::PanelCredentials),
        ]
    );
    assert_eq!(TrialSecrets::new(None, None, None, None).trial_plan(), vec![TrialStep::RunChecks]);
}

#[test]
fn a_missing_panel_install_is_refused() {
    assert_eq!(nodenet::panel_setup::xui_check("noise\nxui_available=0\n"), Ok(()));
    assert_eq!(
        nodenet::panel_setup::xui_check("xui_available=1\n"),
        Err("3x-ui is not installed or is not visible on this server".to_string())
    );
}

fn names(list: &[&str]) -> Vec<String> {
    list.iter().map(|s| s.to_string()).collect()
}

#[test]
fn a_new_key_takes_the_first_free_name() {
    assert_eq!(free_key_file_name("id", &names(&[])), "id");
    assert_eq!(free_key_file_name("id", &names(&["other", "known_hosts"])), "id");
    assert_eq!(free_key_file_name("id", &names(&["id"])), "id_2");
    assert_eq!(free_key_file_name("id", &names(&["id.pub"])), "id_2");
    assert_eq!(free_key_file_name("id", &names(&["id", "id_2.pub", "known_hosts"])), "id_3");
    assert_eq!(free_key_file_name("id", &names(&["id_2", "id"])), "id_3");
    assert_eq!(free_key_file_name("id", &names(&["id_3", "id.pub"])), "id_2");
}

fn next_command(outputs: &[&str]) -> String {
    match panel_setup_next(&names(outputs)) {
        SetupAction::Run(c) => c,
        SetupAction::Finish(_) => panic!("the search is not over"),
        SetupAction::Fail(m) => panic!("the search failed: {m}"),
    }
}

fn answer(outputs: &[&str]) -> PanelSetupInfo {
    match panel_setup_next(&names(outputs)) {
        SetupAction::Finish(info) => info,
        SetupAction::Run(c) => panic!("still running {c}"),
        SetupAction::Fail(m) => panic!("the search failed: {m}"),
    }
}

#[test]
fn the_panel_setup_search_runs_its_commands_in_order() {
    assert_eq!(next_command(&[]), xui_probe_command());
    match panel_setup_next(&names(&["xui_available=1"])) {
        SetupAction::Fail(m) => assert_eq!(m, "3x-ui is not installed or is not visible on this server"),
        _ => panic!("no 3x-ui here"),
    }
    let probe = "xui_available=0";
    let report = "Username: admin\nPort: 2053\n";
    assert_eq!(next_command(&[probe]), XUI_SETTINGS_COMMAND);
    assert_eq!(next_command(&[probe, report]), sqlite_setting_command("webUsername"));
    assert_eq!(next_command(&[probe, report, ""]), XUI_USER_QUERY);
    assert_eq!(next_command(&[probe, report, "", ""]), sqlite_setting_command("webPassword"));
    assert_eq!(next_command(&[probe, report, "", "", ""]), XUI_PASSWORD_QUERY);
    assert_eq!(next_command(&[probe, report, "", "", "", ""]), sqlite_setting_command("webPort"));
    assert_eq!(next_command(&[probe, report, "", "", "", "", ""]), sqlite_setting_command("webBasePath"));
    assert_eq!(next_command(&[probe, report, "", "", "", "", "", ""]), XUI_MENU_COMMAND);
    let found = answer(&[probe, report, "", "", "", "", "", "", "Password: menu-pw\n"]);
    assert_eq!(found.port, 2053);
    assert_eq!(found.username, "admin");
    assert_eq!(found.password, "menu-pw");
    assert_eq!(found.source, "fallback");
    let nothing = answer(&[probe, report, "", "", "", "", "", "", ""]);
    assert_eq!(nothing.password, "");
    assert_eq!(nothing.source, "default");
}

#[test]
fn the_panel_database_answers_the_search() {
    let probe = "xui_available=0";
    let report = "Username: admin\nPassword: cli-pw\nPort: 2053\n";
    let from_report = answer(&[probe, report, "", "", "", "", "", ""]);
    assert_eq!(from_report.password, "cli-pw");
    assert_eq!(from_report.source, "cli");
    let db = answer(&[probe, report, "", "root\n", "", "$2a$10$hash\n", " 8443 \n", "secret/\n"]);
    assert_eq!(db.username, "root");
    assert_eq!(db.password, "cli-pw");
    assert_eq!(db.port, 8443);
    assert_eq!(db.web_base_path, "/secret");
    assert_eq!(db.source, "cli");
    let stored = answer(&[probe, "", "web-user", "root", "db-pw", "other", "", ""]);
    assert_eq!(stored.username, "web-user");
    assert_eq!(stored.password, "db-pw");
    assert_eq!(stored.port, 65333);
    assert_eq!(stored.source, "sqlite");
}
