use nodenet::config::ServerConfig;
use nodenet::secrets::{
    keychain_delete_args, keychain_delete_outcome, keychain_read_args, keychain_read_outcome,
    keychain_save_args, keychain_write_outcome, legacy_file_holds_secrets, migrated_panel_user,
    migration_source, panel_secret_fields, ssh_key_secret_fields, ssh_secret_fields,
    server_secrets, take_first_string, MigrationSource, SecretField,
};
use nodenet::ssh::{
    bastion_keychain_account, bastion_proxy_command, bastion_proxy_jump, connection_pool_account,
    expand_tilde, final_output_event, is_auth_error, is_connection_reuse_error, keychain_account, legacy_bastion_keychain_account,
    legacy_keychain_account, retry_after_failure, ssh_control_path, RetryDecision,
};
use nodenet::ssh_args::{
    control_command_args, download_batch, failure_message, master_command_args, ping_outcome,
    run_command_args, run_outcome, transfer_command_args, tunnel_command_args, upload_batch,
    FailedRun, Keepalive, missing_local_file_message, plain_transfer_command_args, timed_out_message,
};

fn server() -> ServerConfig {
    ServerConfig {
        id: "s1".to_string(),
        name: "Frankfurt".to_string(),
        host: "10.0.0.5".to_string(),
        ssh_port: 2201,
        ssh_user: "root".to_string(),
        country: "DE".to_string(),
        panel_url: None,
        panel_user: None,
        ssh_key_path: None,
        bastion_host: None,
        bastion_port: None,
        bastion_user: None,
        bastion_ssh_key_path: None,
        ssh_key_passphrase: None,
        ssl_verify: false,
    }
}

fn strings(v: &[&str]) -> Vec<String> {
    v.iter().map(|s| s.to_string()).collect()
}

#[test]
fn keychain_accounts_name_user_host_and_port() {
    let s = server();
    assert_eq!(keychain_account(&s), "s1:root@10.0.0.5:2201");
    assert_eq!(legacy_keychain_account(&s), "root@10.0.0.5:2201");
    assert_eq!(bastion_keychain_account(&s), None);
    let mut b = server();
    b.bastion_host = Some("  jump.example.com ".to_string());
    b.bastion_user = Some(" ".to_string());
    assert_eq!(bastion_keychain_account(&b).as_deref(), Some("s1:root@jump.example.com:22"));
    assert_eq!(legacy_bastion_keychain_account(&b).as_deref(), Some("root@jump.example.com:22"));
    b.bastion_user = Some("ops".to_string());
    b.bastion_port = Some(2222);
    assert_eq!(bastion_proxy_jump(&b).as_deref(), Some("ops@jump.example.com:2222"));
}

#[test]
fn tilde_paths_expand_against_home() {
    assert_eq!(expand_tilde("~/.ssh/id", Some("/Users/me")), "/Users/me/.ssh/id");
    assert_eq!(expand_tilde("~/.ssh/id", None), "~/.ssh/id");
    assert_eq!(expand_tilde("/etc/key", Some("/Users/me")), "/etc/key");
}

#[test]
fn bastion_with_own_key_goes_through_proxy_command() {
    let mut b = server();
    b.bastion_host = Some("jump".to_string());
    b.bastion_ssh_key_path = Some("~/k".to_string());
    let cmd = bastion_proxy_command(&b, Some("/h")).unwrap();
    assert_eq!(
        cmd,
        "ssh -W %h:%p -p 22 -o BatchMode=no -o StrictHostKeyChecking=accept-new -o PreferredAuthentications=publickey,password -i '/h/k' -o IdentitiesOnly=yes 'root@jump'"
    );
    assert_eq!(connection_pool_account(&b, Some("/h")), format!("s1:root@10.0.0.5:2201 via {cmd}"));
    assert_eq!(connection_pool_account(&server(), None), "s1:root@10.0.0.5:2201");
    assert_eq!(bastion_proxy_command(&server(), None), None);
}

#[test]
fn control_paths_are_fresh_sockets() {
    let a = ssh_control_path();
    let b = ssh_control_path();
    assert!(a.starts_with("/tmp/nodenet-ssh/c-"));
    assert!(a.ends_with(".sock"));
    assert_ne!(a, b);
}

#[test]
fn failures_are_classified() {
    assert!(is_auth_error("Permission denied (publickey)"));
    assert!(!is_auth_error("Connection timed out"));
    assert!(is_connection_reuse_error("mux_client_request_session: read from master failed: Broken pipe"));
    assert!(!is_connection_reuse_error("command not found"));
    assert_eq!(retry_after_failure(0, 450, false), RetryDecision::Retry { wait_ms: 450, next_delay_ms: 900 });
    assert_eq!(retry_after_failure(1, 3000, false), RetryDecision::Retry { wait_ms: 3000, next_delay_ms: 4000 });
    assert_eq!(retry_after_failure(2, 900, false), RetryDecision::GiveUp);
    assert_eq!(retry_after_failure(0, 450, true), RetryDecision::AuthenticationFailed);
}

#[test]
fn master_arguments_hold_the_route() {
    let mut s = server();
    s.ssh_key_path = Some("~/.ssh/id".to_string());
    let args = master_command_args(&s, "/tmp/c.sock", Some("/home/me"));
    let expected = strings(&[
        "-M", "-N", "-f", "-p", "2201", "-o", "BatchMode=no", "-o", "ConnectTimeout=8", "-o",
        "ControlPath=/tmp/c.sock", "-o", "ControlPersist=120", "-o", "ExitOnForwardFailure=yes",
        "-o", "ServerAliveInterval=10", "-o", "ServerAliveCountMax=3", "-o",
        "StrictHostKeyChecking=accept-new", "-o", "PreferredAuthentications=publickey,password",
        "-i", "/home/me/.ssh/id", "-o", "IdentitiesOnly=yes", "root@10.0.0.5",
    ]);
    assert_eq!(args, expected);
}

#[test]
fn run_arguments_end_with_target_and_command() {
    let mut s = server();
    s.bastion_host = Some("jump".to_string());
    let args = run_command_args(&s, "/c", "uptime", Keepalive::Short, None);
    let n = args.len();
    assert_eq!(&args[n - 4..], &strings(&["-o", "ProxyJump=root@jump:22", "root@10.0.0.5", "uptime"])[..]);
    assert!(args.contains(&"ServerAliveInterval=5".to_string()));
    let long = run_command_args(&server(), "/c", "tail -f log", Keepalive::Long, None);
    assert!(long.contains(&"ServerAliveCountMax=6".to_string()));
    assert_eq!(long.last().unwrap(), "tail -f log");
}

#[test]
fn transfer_and_control_arguments() {
    let t = transfer_command_args(&server(), "/c", "/tmp/batch", None);
    assert_eq!(&t[..2], &strings(&["-P", "2201"])[..]);
    assert!(t.windows(2).any(|w| w[0] == "-b" && w[1] == "/tmp/batch"));
    assert_eq!(t.last().unwrap(), "root@10.0.0.5");
    let c = control_command_args(&server(), "/c", "check", None);
    assert_eq!(c, strings(&["-O", "check", "-p", "2201", "-o", "ControlPath=/c", "root@10.0.0.5"]));
}

#[test]
fn batch_files_quote_paths() {
    assert_eq!(download_batch("/var/log/a b", "/tmp/\"x\""), "get \"/var/log/a b\" \"/tmp/\\\"x\\\"\"\n");
    assert_eq!(upload_batch("C:\\f", "/r"), "put \"C:\\\\f\" \"/r\"\n");
}

#[test]
fn tunnel_needs_a_bastion() {
    assert_eq!(tunnel_command_args(&server(), 40000, "127.0.0.1", 2053, None), None);
    let mut s = server();
    s.bastion_host = Some("jump".to_string());
    s.bastion_port = Some(2222);
    s.bastion_user = Some("ops".to_string());
    let a = tunnel_command_args(&s, 40000, "10.0.0.5", 2053, None).unwrap();
    assert_eq!(&a[..5], &strings(&["-N", "-L", "127.0.0.1:40000:10.0.0.5:2053", "-p", "2222"])[..]);
    assert_eq!(a.last().unwrap(), "ops@jump");
}

#[test]
fn run_outcomes_and_failure_messages() {
    assert_eq!(run_outcome("out\n", "warn\n", true, true), (Ok("out\nwarn\n".to_string()), false));
    assert_eq!(run_outcome("out\n", "  ", true, true), (Ok("out\n".to_string()), false));
    assert_eq!(run_outcome("out\n", "warn", false, true), (Ok("out\n".to_string()), false));
    assert_eq!(
        run_outcome("", " boom \n", true, false),
        (Err("ssh command failed: boom".to_string()), false)
    );
    let (m, broken) = failure_message(FailedRun::Download, " No such file \n");
    assert_eq!(m, "sftp download failed: No such file");
    assert!(!broken);
    let (m, _) = failure_message(FailedRun::Master, "x");
    assert_eq!(m, "ssh master connection failed: x");
    assert_eq!(failure_message(FailedRun::Upload, "").0, "sftp upload failed: ");
}

#[test]
fn ping_outcome_reports_route() {
    let (ms, status, msg) = ping_outcome(Some((42, false)), &server());
    assert_eq!((ms, status.as_str(), msg.as_str()), (Some(42), "online", "SSH OK"));
    let (_, status, _) = ping_outcome(Some((1500, true)), &server());
    assert_eq!(status, "warning");
    let mut b = server();
    b.bastion_host = Some("jump".to_string());
    let (ms, status, msg) = ping_outcome(None, &b);
    assert_eq!((ms, status.as_str(), msg.as_str()), (None, "offline", "SSH route through bastion failed"));
}

#[test]
fn keychain_arguments_and_outcomes() {
    assert_eq!(
        keychain_save_args("svc", "acc", "pw"),
        strings(&["add-generic-password", "-U", "-s", "svc", "-a", "acc", "-w", "pw"])
    );
    assert_eq!(keychain_read_args("svc", "acc"), strings(&["find-generic-password", "-s", "svc", "-a", "acc", "-w"]));
    assert_eq!(keychain_delete_args("svc", "acc"), strings(&["delete-generic-password", "-s", "svc", "-a", "acc"]));
    assert_eq!(keychain_read_outcome(true, " secret\n"), Some("secret".to_string()));
    assert_eq!(keychain_read_outcome(true, " \n"), None);
    assert_eq!(keychain_read_outcome(false, "secret"), None);
    assert_eq!(keychain_write_outcome(true, "x"), Ok(()));
    assert_eq!(keychain_write_outcome(false, " denied\n"), Err("keychain write failed: denied".to_string()));
    assert_eq!(keychain_delete_outcome(false, "The specified item could not be found in the keychain."), Ok(()));
    assert_eq!(keychain_delete_outcome(false, "locked"), Err("keychain delete failed: locked".to_string()));
}

#[test]
fn legacy_secrets_are_found_and_migrated() {
    let values = vec![
        None,
        Some(SecretField::Other),
        Some(SecretField::Text("  ".to_string())),
        Some(SecretField::Text(" hunter2 ".to_string())),
        Some(SecretField::Text("later".to_string())),
    ];
    assert_eq!(take_first_string(&values), Some("hunter2".to_string()));
    assert_eq!(take_first_string(&vec![None, Some(SecretField::Other)]), None);
    assert_eq!(ssh_secret_fields(), strings(&["sshPassword", "sshPass", "ssh_password", "password"]));
    assert_eq!(ssh_key_secret_fields(), strings(&["sshKeyPassphrase", "ssh_key_passphrase"]));
    assert_eq!(panel_secret_fields().len(), 6);
    let mut s = server();
    assert_eq!(migrated_panel_user(&s), "admin");
    s.panel_user = Some(" ".to_string());
    assert_eq!(migrated_panel_user(&s), "admin");
    s.panel_user = Some("boss".to_string());
    assert_eq!(migrated_panel_user(&s), "boss");
    assert!(legacy_file_holds_secrets("{\"sshPassword\":\"x\"}"));
    assert!(legacy_file_holds_secrets("{\"password\":\"x\"}"));
    assert!(!legacy_file_holds_secrets("{\"servers\":[]}"));
    assert_eq!(migration_source(false, true), MigrationSource::Legacy);
    assert_eq!(migration_source(true, true), MigrationSource::Current);
    assert_eq!(migration_source(false, false), MigrationSource::Current);
}

#[test]
fn plain_text_secrets_of_a_server_are_found() {
    let text = |t: &str| Some(SecretField::Text(t.to_string()));
    let mut s = server();
    s.panel_user = Some("boss".to_string());
    let found = server_secrets(&s, &vec![None, text(" pw ")], &vec![], &vec![text(""), text("panel")]);
    assert_eq!(found.ssh_password.as_deref(), Some("pw"));
    assert_eq!(found.key_passphrase, None);
    assert_eq!(found.panel_login, Some(("boss".to_string(), "panel".to_string())));
    assert!(found.changes_file());
    assert!(!server_secrets(&server(), &vec![], &vec![Some(SecretField::Other)], &vec![]).changes_file());
}

#[test]
fn transfer_messages_and_plain_arguments() {
    assert_eq!(timed_out_message(FailedRun::Download), "sftp download timed out");
    assert_eq!(timed_out_message(FailedRun::Upload), "sftp upload timed out");
    assert_eq!(timed_out_message(FailedRun::Master), "ssh master connection timed out");
    assert_eq!(missing_local_file_message("/tmp/x"), "local file does not exist: /tmp/x");
    assert_eq!(
        plain_transfer_command_args(&server(), "/tmp/b", None),
        strings(&["-P", "2201", "-o", "BatchMode=no", "-o", "ConnectTimeout=8", "-o", "StrictHostKeyChecking=accept-new", "-b", "/tmp/b", "root@10.0.0.5"])
    );
}

#[test]
fn a_streamed_command_ends_with_a_done_event() {
    let ok = final_output_event("s1", "srv", &Ok(()));
    assert_eq!(ok.session_id, "s1");
    assert_eq!(ok.server_id, "srv");
    assert_eq!(ok.line, "");
    assert!(ok.done);
    let failed = final_output_event("s1", "srv", &Err("ssh command failed with status 1".to_string()));
    assert_eq!(failed.line, "ssh command failed with status 1");
    assert!(failed.done);
}
