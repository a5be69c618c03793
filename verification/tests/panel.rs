use nodenet::clients::{
    added_client_index, client_expiry, new_client_doc,
    bool_field, check_new_client, client_ids_with_status, find_client, map_clients, map_clients_at,
    map_inbound, number_field, string_field, ClientSecret, FieldValue, RawClient, RawClientTraffic,
    RawInbound,
};
use nodenet::config::ServerConfig;
use nodenet::panel_session::{
    answer_step, csrf_header, endpoint_csrf_token, failed_after_relogin, login_failure, reply_step,
    session_is_fresh, stored_credentials, tunnel_is_fresh, AnswerStep, CallKind, ReplyStep,
    StoredCredentials,
};
use nodenet::panel_url::{certificate_paths, local_tunnel_url, normalize_panel_url, LocalUrlError};
use nodenet::terminal::{
    host_key_fingerprint, known_hosts_path, terminal_host_key, terminal_session_id, terminal_size,
    verify_known_host, HostKeyCheck, KnownHost,
};
use nodenet::three_x_ui::{
    bastion_fingerprint, build_query, client_action_path, client_identifier, client_status_at,
    client_total_bytes, csv_cell, csv_header, csv_row, default_flow, encode_component,
    expiry_label, extended_expiry, file_name, format_expiry, generate_link_for_client,
    get_inbound_path, host_header_value, is_default_port, is_tls_error, is_xray_config,
    keychain_account, needs_relogin, outbound_test_url, panel_send_error_message, panel_tunnel_key,
    session_cache_key, should_retry_login, sort_params, update_client_path, used_bytes, ClientLink,
    ExtendError, LinkClient, LinkError, LinkStream,
};
use nodenet::three_x_ui::{check_xray_setting, xray_config_source, XrayConfigSource, XraySettingsError};

fn server() -> ServerConfig {
    ServerConfig {
        id: "s1".to_string(),
        name: "Frankfurt".to_string(),
        host: "10.0.0.5".to_string(),
        ssh_port: 2201,
        ssh_user: "root".to_string(),
        country: "DE".to_string(),
        panel_url: Some("https://p".to_string()),
        panel_user: None,
        ssh_key_path: None,
        bastion_host: None,
        bastion_port: None,
        bastion_user: None,
        bastion_ssh_key_path: None,
        ssh_key_passphrase: None,
        ssl_verify: false,
    }
}

fn text(s: &str) -> Option<FieldValue> {
    Some(FieldValue::Text(s.to_string()))
}

fn number(n: i64) -> Option<FieldValue> {
    Some(FieldValue::Number(n.to_string(), Some(n)))
}

fn stream() -> LinkStream {
    LinkStream {
        network: None,
        security: None,
        ws_host: None,
        ws_path: None,
        grpc_service_name: None,
        tls_server_name: None,
        reality_server_name: None,
        tls_fingerprint: None,
        reality_fingerprint: None,
        reality_public_key: None,
        reality_short_id: None,
        reality_spider_x: None,
    }
}

fn link_client() -> LinkClient {
    LinkClient { id: None, password: None, email: None, flow: None, alter_id: None }
}

fn inbound() -> RawInbound {
    RawInbound {
        id: 7,
        remark: "main".to_string(),
        port: 443,
        protocol: "vless".to_string(),
        enable: true,
        up: 10,
        down: 20,
        total: 0,
        clients: Some(vec![
            RawClient {
                id: text("uuid-1"),
                password: None,
                email: text("alice"),
                total_gb: number(5),
                expiry_time: number(1_704_067_200_000),
                enable: Some(FieldValue::Bool(true)),
            },
            RawClient {
                id: text("uuid-2"),
                password: None,
                email: None,
                total_gb: None,
                expiry_time: None,
                enable: text("false"),
            },
            RawClient {
                id: text("uuid-3"),
                password: None,
                email: text("carol"),
                total_gb: number(2000),
                expiry_time: None,
                enable: None,
            },
        ]),
        client_stats: vec![
            RawClientTraffic { email: "alice".to_string(), up: 1, down: 2, total: 999, expiry_time: 0, enable: Some(true) },
            RawClientTraffic { email: "carol".to_string(), up: 1500, down: 600, total: 0, expiry_time: 500, enable: None },
        ],
    }
}

#[test]
fn panel_urls_are_cut_to_their_base() {
    assert_eq!(
        normalize_panel_url(" https://example.com:2053/abc/panel/inbounds?x=1#f ").as_deref(),
        Ok("https://example.com:2053/abc")
    );
    assert_eq!(normalize_panel_url("example.com/").as_deref(), Ok("https://example.com"));
    assert_eq!(normalize_panel_url("http://h:8080/base/panel").as_deref(), Ok("http://h:8080/base"));
    assert_eq!(normalize_panel_url("  / "), Err("panelUrl is empty".to_string()));
    assert_eq!(normalize_panel_url("http://exa mple.com"), Err("panelUrl is invalid".to_string()));
}

#[test]
fn tunnel_urls_point_at_the_local_port() {
    assert_eq!(
        local_tunnel_url("https://example.com:2053/base/", 40001).as_deref(),
        Ok("https://127.0.0.1:40001/base")
    );
    assert_eq!(local_tunnel_url("not a url", 1), Err(LocalUrlError::InvalidUrl));
    assert_eq!(LocalUrlError::InvalidPort.message(), "Bastion tunnel failed: invalid local panel port");
}

#[test]
fn certificate_files_are_sorted_once() {
    let files = vec![
        Some(" /b.pem ".to_string()),
        None,
        Some("".to_string()),
        Some("/a.pem".to_string()),
        Some("/b.pem".to_string()),
    ];
    assert_eq!(certificate_paths(&files), vec!["/a.pem".to_string(), "/b.pem".to_string()]);
    assert!(certificate_paths(&vec![None]).is_empty());
}

#[test]
fn sessions_and_tunnels_expire() {
    assert!(session_is_fresh(1_000, 1_000 + 1_499_999));
    assert!(!session_is_fresh(1_000, 1_000 + 1_500_000));
    assert!(session_is_fresh(5_000, 1_000));
    assert!(tunnel_is_fresh(0, 1_799_999));
    assert!(!tunnel_is_fresh(0, 1_800_000));
}

#[test]
fn csrf_tokens_go_with_changing_requests() {
    let tok = Some("t".to_string());
    assert_eq!(csrf_header("POST", &tok), Some("t".to_string()));
    assert_eq!(csrf_header("GET", &tok), None);
    assert_eq!(csrf_header("OPTIONS", &tok), None);
    assert_eq!(csrf_header("DELETE", &None), None);
    assert_eq!(endpoint_csrf_token(Some(" ".to_string())), None);
    assert_eq!(endpoint_csrf_token(Some("tok".to_string())), Some("tok".to_string()));
}

#[test]
fn replies_lead_to_the_next_step() {
    assert!(matches!(reply_step(CallKind::Action, 0, 401, "401 Unauthorized", ""), ReplyStep::Relogin));
    match reply_step(CallKind::Action, 1, 401, "401 Unauthorized", "") {
        ReplyStep::Fail(m) => assert_eq!(m, "3x-ui action failed (401 Unauthorized): "),
        other => panic!("{other:?}"),
    }
    match reply_step(CallKind::Request, 0, 500, "500 Internal Server Error", " boom ") {
        ReplyStep::Fail(m) => assert_eq!(m, "3x-ui request failed (500 Internal Server Error): boom"),
        other => panic!("{other:?}"),
    }
    assert!(matches!(reply_step(CallKind::Action, 0, 200, "200 OK", " "), ReplyStep::Done));
    assert!(matches!(reply_step(CallKind::Request, 0, 200, "200 OK", " "), ReplyStep::Read));
    assert!(matches!(reply_step(CallKind::Request, 0, 200, "200 OK", "{\"msg\":\"login\"}"), ReplyStep::Relogin));
}

#[test]
fn answers_lead_to_the_next_step() {
    assert!(matches!(answer_step(CallKind::Request, 0, Some(false), Some("Session expired")), AnswerStep::Relogin));
    match answer_step(CallKind::Request, 1, Some(false), Some("Session expired")) {
        AnswerStep::Fail(m) => assert_eq!(m, "3x-ui request failed: Session expired"),
        other => panic!("{other:?}"),
    }
    match answer_step(CallKind::Action, 0, Some(false), None) {
        AnswerStep::Fail(m) => assert_eq!(m, "3x-ui action failed: unknown error"),
        other => panic!("{other:?}"),
    }
    assert!(matches!(answer_step(CallKind::Action, 0, Some(true), None), AnswerStep::Accept));
    assert!(matches!(answer_step(CallKind::Action, 0, None, Some("login")), AnswerStep::Accept));
    assert_eq!(failed_after_relogin(CallKind::Action), "3x-ui action failed after relogin");
}

#[test]
fn login_failures_name_the_route() {
    assert_eq!(
        login_failure(true, Some("401 Unauthorized"), " nope ", None),
        "3x-ui login failed through bastion (401 Unauthorized): nope"
    );
    assert_eq!(login_failure(false, None, "", None), "3x-ui login failed: invalid credentials");
    assert_eq!(login_failure(false, None, "", Some("bad")), "3x-ui login failed: bad");
}

#[test]
fn stored_credentials_are_json_or_a_password() {
    match stored_credentials("{\"username\":\"u\"}".to_string(), &server()) {
        StoredCredentials::Json(j) => assert_eq!(j, "{\"username\":\"u\"}"),
        other => panic!("{other:?}"),
    }
    let mut s = server();
    match stored_credentials("pw".to_string(), &s) {
        StoredCredentials::Password { username, password } => assert_eq!((username.as_str(), password.as_str()), ("admin", "pw")),
        other => panic!("{other:?}"),
    }
    s.panel_user = Some("boss".to_string());
    match stored_credentials("pw".to_string(), &s) {
        StoredCredentials::Password { username, .. } => assert_eq!(username, "boss"),
        other => panic!("{other:?}"),
    }
}

#[test]
fn client_fields_are_read_loosely() {
    assert_eq!(string_field(&number(42)), Some("42".to_string()));
    assert_eq!(string_field(&Some(FieldValue::Bool(true))), None);
    assert_eq!(number_field(&text("42")), Some(42));
    assert_eq!(number_field(&text("x")), None);
    assert_eq!(number_field(&Some(FieldValue::Number("1.5".to_string(), None))), None);
    assert_eq!(bool_field(&text("true")), Some(true));
    assert_eq!(bool_field(&text("yes")), None);
    assert_eq!(bool_field(&Some(FieldValue::Bool(false))), Some(false));
}

#[test]
fn clients_are_shown_with_their_traffic() {
    let inb = inbound();
    let shown = map_inbound(&inb);
    assert_eq!((shown.id, shown.client_count, shown.up, shown.down), (7, 3, 10, 20));
    let rows = map_clients_at(&inb, 1_000);
    assert_eq!(rows.len(), 3);
    let a = &rows[0];
    assert_eq!((a.id.as_str(), a.email.as_str()), ("uuid-1", "alice"));
    assert_eq!((a.up, a.down, a.total), (1, 2, 5 * 1_073_741_824));
    assert_eq!((a.status.as_str(), a.expiry.as_str()), ("active", "2024-01-01"));
    let b = &rows[1];
    assert_eq!((b.email.as_str(), b.status.as_str(), b.enable), ("unnamed", "disabled", false));
    assert_eq!((b.up, b.total, b.expiry.as_str()), (0, 0, "Never"));
    let c = &rows[2];
    assert_eq!((c.total, c.expiry_time, c.status.as_str()), (2000, 500, "expired"));
    let later = map_clients_at(&inb, 100);
    assert_eq!(later[2].status, "limited");
    assert_eq!(client_ids_with_status(&rows, "disabled"), vec!["uuid-2".to_string()]);
    assert_eq!(map_clients(&inb).len(), 3);
}

#[test]
fn clients_are_found_by_id() {
    let inb = inbound();
    assert_eq!(find_client(&inb, "uuid-2"), Ok(1));
    assert_eq!(find_client(&inb, "nope"), Err("client 'nope' was not found in inbound 7".to_string()));
    let mut none = inbound();
    none.clients = None;
    assert_eq!(map_inbound(&none).client_count, 2);
    assert!(map_clients_at(&none, 0).is_empty());
}

#[test]
fn new_clients_are_checked() {
    assert_eq!(check_new_client("Trojan", " bob "), Ok(("bob".to_string(), ClientSecret::Password)));
    assert_eq!(check_new_client("vmess", "a"), Ok(("a".to_string(), ClientSecret::Id)));
    assert_eq!(check_new_client("vless", "  "), Err("client name cannot be empty".to_string()));
    assert!(check_new_client("shadowsocks", "x").unwrap_err().starts_with("Adding clients to a Shadowsocks inbound"));
}

#[test]
fn client_status_limits_and_expiry() {
    assert_eq!(client_status_at(true, 0, 0, 0, 5), "active");
    assert_eq!(client_status_at(false, 0, 0, 0, 5), "disabled");
    assert_eq!(client_status_at(true, 10, 10, 0, 5), "limited");
    assert_eq!(client_status_at(true, 0, 0, 5, 5), "expired");
    assert_eq!(used_bytes(u64::MAX, 1), u64::MAX);
    assert_eq!(used_bytes(3, 4), 7);
    assert_eq!(client_total_bytes(Some(5), None), 5 * 1_073_741_824);
    assert_eq!(client_total_bytes(Some(-3), Some(9)), 0);
    assert_eq!(client_total_bytes(Some(5000), None), 5000);
    assert_eq!(client_total_bytes(None, Some(7)), 7);
    assert_eq!(client_total_bytes(None, None), 0);
}

#[test]
fn extending_counts_from_expiry_or_now() {
    assert_eq!(extended_expiry(Some(10_000), 5_000, 1), Ok(10_000 + 86_400_000));
    assert_eq!(extended_expiry(Some(1), 5_000, 2), Ok(5_000 + 172_800_000));
    assert_eq!(extended_expiry(None, 0, 0), Err(ExtendError::NotPositive));
    assert_eq!(extended_expiry(None, 0, i64::MAX), Err(ExtendError::TooLarge));
    assert_eq!(ExtendError::NotPositive.message(), "extend days must be positive");
}

#[test]
fn client_identifiers_follow_the_protocol() {
    let some = |s: &str| Some(s.to_string());
    assert_eq!(client_identifier("Trojan", &some("id"), &some("pw"), &some("e")), "pw");
    assert_eq!(client_identifier("shadowsocks", &some("id"), &None, &some("e")), "e");
    assert_eq!(client_identifier("vless", &None, &None, &some("e")), "e");
    assert_eq!(client_identifier("vless", &None, &None, &None), "");
    assert_eq!(default_flow(&vec![None, some(""), some("xtls-rprx-vision"), some("z")]), "xtls-rprx-vision");
    assert_eq!(default_flow(&vec![None]), "");
}

#[test]
fn panel_messages_and_keys() {
    assert_eq!(host_header_value(None, "https", "h", 443), "h");
    assert_eq!(host_header_value(None, "http", "h", 8080), "h:8080");
    assert_eq!(host_header_value(Some(2053), "https", "h", 443), "h:2053");
    assert!(is_default_port("http", 80));
    assert!(!is_default_port("http", 443));
    assert!(should_retry_login(Some("Please LOGIN")));
    assert!(!should_retry_login(None));
    assert!(!needs_relogin(200, "ok"));
    assert!(needs_relogin(403, ""));
    assert!(is_tls_error("invalid peer certificate: UnknownIssuer"));
    assert_eq!(panel_send_error_message("boom", false, "3x-ui login request"), "3x-ui login request: boom");
    assert_eq!(panel_send_error_message("x", true, "3x-ui login"), "3x-ui login failed through bastion: x");
    assert_eq!(
        panel_send_error_message("bad certificate", true, "x"),
        "Panel TLS verification failed through bastion: bad certificate"
    );
    assert_eq!(panel_send_error_message("y", true, "inbounds"), "Cannot reach 3x-ui panel through bastion: y");
    let s = server();
    assert_eq!(bastion_fingerprint(&s), "direct");
    assert_eq!(session_cache_key(&s), "s1|https://p|ssl:false|direct");
    assert_eq!(panel_tunnel_key(&s, "https://p", "127.0.0.1", 2053), "s1|https://p|127.0.0.1:2053|direct");
    assert_eq!(keychain_account(&s), "s1:https://p");
    let mut b = server();
    b.bastion_host = Some("jump".to_string());
    assert_eq!(bastion_fingerprint(&b), "root@jump:22|key:");
}

#[test]
fn csv_export_quotes_cells() {
    assert_eq!(csv_header(), "email,up,down,total,expiry,status\n");
    assert_eq!(csv_cell("a,b"), "\"a,b\"");
    assert_eq!(csv_cell("say \"hi\""), "\"say \"\"hi\"\"\"");
    assert_eq!(csv_cell("plain"), "plain");
    assert_eq!(csv_row("alice", 1, 2, 3, "Never", "active"), "alice,1,2,3,Never,active\n");
}

#[test]
fn urls_encode_components() {
    assert_eq!(encode_component("a b/é~"), "a%20b%2F%C3%A9~");
    assert_eq!(client_action_path(7, "delClient", "a b"), "/panel/api/inbounds/7/delClient/a%20b");
    assert_eq!(update_client_path("u-1"), "/panel/api/inbounds/updateClient/u-1");
    assert_eq!(get_inbound_path(12), "/panel/api/inbounds/get/12");
    let params = vec![
        ("type".to_string(), "tcp".to_string()),
        ("security".to_string(), "reality".to_string()),
        ("sni".to_string(), "a b".to_string()),
    ];
    assert_eq!(build_query(&params), "?security=reality&sni=a%20b&type=tcp");
    assert_eq!(build_query(&vec![]), "");
    let sorted = sort_params(&params);
    assert_eq!(sorted[0].0, "security");
    assert_eq!(sorted[2].0, "type");
}

#[test]
fn links_are_built_per_protocol() {
    let mut c = link_client();
    c.id = Some("uuid".to_string());
    c.email = Some("alice".to_string());
    c.flow = Some("xtls-rprx-vision".to_string());
    let mut st = stream();
    st.network = Some("tcp".to_string());
    st.security = Some("reality".to_string());
    st.reality_server_name = Some("sni.com".to_string());
    st.reality_fingerprint = Some("chrome".to_string());
    st.reality_public_key = Some("pk".to_string());
    st.reality_short_id = Some("ab".to_string());
    match generate_link_for_client("1.2.3.4", "VLESS", 443, "remark", &c, &st) {
        Ok(ClientLink::Url(u)) => assert_eq!(
            u,
            "vless://uuid@1.2.3.4:443?flow=xtls-rprx-vision&fp=chrome&pbk=pk&security=reality&sid=ab&sni=sni.com&type=tcp#alice"
        ),
        other => panic!("{other:?}"),
    }
    let mut t = link_client();
    t.password = Some("p@ss".to_string());
    match generate_link_for_client("h", "trojan", 443, "bob", &t, &stream()) {
        Ok(ClientLink::Url(u)) => assert_eq!(u, "trojan://p%40ss@h:443?security=none&type=tcp#bob"),
        other => panic!("{other:?}"),
    }
    let mut v = link_client();
    v.id = Some("u".to_string());
    let mut vs = stream();
    vs.security = Some("tls".to_string());
    vs.tls_server_name = Some("x.com".to_string());
    match generate_link_for_client("h", "vmess", 8443, "r", &v, &vs) {
        Ok(ClientLink::Vmess(f)) => {
            assert_eq!((f.ps.as_str(), f.add.as_str(), f.port.as_str(), f.id.as_str()), ("r", "h", "8443", "u"));
            assert_eq!((f.aid.as_str(), f.net.as_str(), f.tls.as_str(), f.sni.as_str()), ("0", "tcp", "tls", "x.com"));
        },
        other => panic!("{other:?}"),
    }
    assert!(matches!(generate_link_for_client("h", "vless", 1, "r", &link_client(), &stream()), Err(LinkError::MissingVlessId)));
    assert!(matches!(generate_link_for_client("h", "trojan", 1, "r", &link_client(), &stream()), Err(LinkError::MissingTrojanPassword)));
    match generate_link_for_client("h", "Socks", 1, "r", &link_client(), &stream()) {
        Err(e) => assert_eq!(e.message(), "link generation is not supported for protocol 'socks'"),
        other => panic!("{other:?}"),
    }
}

#[test]
fn xray_configs_and_expiry_labels() {
    assert_eq!(outbound_test_url(Some(" ")), "https://www.google.com/generate_204");
    assert_eq!(outbound_test_url(None), "https://www.google.com/generate_204");
    assert_eq!(outbound_test_url(Some("https://x")), "https://x");
    assert!(is_xray_config(Some(&vec!["foo".to_string(), "log".to_string()])));
    assert!(!is_xray_config(Some(&vec!["foo".to_string()])));
    assert!(!is_xray_config(None));
    assert_eq!(format_expiry(0), "Never");
    assert_eq!(format_expiry(1_704_067_200_000), "2024-01-01");
    assert_eq!(expiry_label(5, None), "Invalid");
    assert_eq!(file_name("/a/b/c.dat").as_deref(), Some("c.dat"));
    assert_eq!(file_name("/a/.."), None);
    assert_eq!(file_name("x/./").as_deref(), Some("x"));
}

#[test]
fn host_keys_are_trusted_on_first_use() {
    assert_eq!(host_key_fingerprint(&vec![0, 1, 2]), "AAEC");
    assert_eq!(terminal_host_key(&server()), "10.0.0.5:2201");
    assert_eq!(known_hosts_path("/cfg"), "/cfg/known_hosts.json");
    let learned = match verify_known_host(vec![], "h:22", "fp1") {
        HostKeyCheck::Learned(l) => l,
        other => panic!("{other:?}"),
    };
    assert_eq!(learned.len(), 1);
    assert_eq!((learned[0].host_key.as_str(), learned[0].fingerprint.as_str()), ("h:22", "fp1"));
    assert!(matches!(verify_known_host(learned.clone(), "h:22", "fp1"), HostKeyCheck::Trusted));
    match verify_known_host(learned.clone(), "h:22", "fp2") {
        HostKeyCheck::Changed(m) => assert_eq!(
            m,
            "SSH host key for 'h:22' has changed. If the server was reinstalled, remove it from Settings → Known Hosts."
        ),
        other => panic!("{other:?}"),
    }
    let other = KnownHost { host_key: "g:22".to_string(), fingerprint: "x".to_string() };
    match verify_known_host(vec![other], "h:22", "fp1") {
        HostKeyCheck::Learned(l) => assert_eq!(l.len(), 2),
        other => panic!("{other:?}"),
    }
}

#[test]
fn terminal_sessions_and_sizes() {
    assert_eq!(terminal_session_id(Some(" abc ")), "abc");
    let fresh = terminal_session_id(None);
    assert_eq!(fresh.len(), 36);
    assert_eq!(fresh.matches('-').count(), 4);
    assert_eq!(terminal_session_id(Some("  ")).len(), 36);
    assert_eq!(terminal_size(10, 2), (20, 5));
    assert_eq!(terminal_size(100, 40), (100, 40));
}

fn keys_of(json: &str) -> Option<Vec<String>> {
    let value: serde_json::Value = serde_json::from_str(json).unwrap();
    value.as_object().map(|o| o.keys().cloned().collect())
}

#[test]
fn xray_settings_come_from_the_answer_or_its_setting() {
    let wrapper = keys_of(r#"{"xraySetting": {"routing": {"rules": []}}, "inboundTags": [], "outboundTestUrl": "https://example.com/ping"}"#);
    assert_eq!(xray_config_source(wrapper.as_ref(), true), Ok(XrayConfigSource::XraySetting));
    let raw = keys_of(r#"{"routing": {"rules": []}, "outbounds": [{"tag": "proxy", "protocol": "socks"}]}"#);
    assert_eq!(xray_config_source(raw.as_ref(), false), Ok(XrayConfigSource::Answer));
    assert_eq!(xray_config_source(None, false), Err(XraySettingsError::MissingXraySetting));
    assert_eq!(
        XraySettingsError::MissingXraySetting.message(),
        "3x-ui Xray settings response did not include xraySetting"
    );
    assert_eq!(check_xray_setting(raw.as_ref()), Ok(()));
    assert_eq!(check_xray_setting(keys_of(r#"{"foo": 1}"#).as_ref()), Err(XraySettingsError::NotXrayConfig));
    assert_eq!(check_xray_setting(None), Err(XraySettingsError::NotXrayConfig));
}

fn vmess_fields() -> nodenet::three_x_ui::VmessFields {
    nodenet::three_x_ui::VmessFields {
        ps: "a\"b".to_string(),
        add: "h".to_string(),
        port: "443".to_string(),
        id: "u".to_string(),
        aid: "0".to_string(),
        net: "ws".to_string(),
        host: "x.com".to_string(),
        path: "/p".to_string(),
        tls: "tls".to_string(),
        sni: "x.com".to_string(),
    }
}

#[test]
fn vmess_links_encode_the_document() {
    let doc = nodenet::three_x_ui::vmess_document(&vmess_fields());
    assert_eq!(
        doc,
        r#"{"add":"h","aid":"0","host":"x.com","id":"u","net":"ws","path":"/p","port":"443","ps":"a\"b","scy":"auto","sni":"x.com","tls":"tls","type":"none","v":"2"}"#
    );
    let reparsed: serde_json::Value = serde_json::from_str(&doc).unwrap();
    assert_eq!(serde_json::to_string(&reparsed).unwrap(), doc);
    let link = nodenet::three_x_ui::vmess_link(&vmess_fields());
    assert_eq!(link, format!("vmess://{}", base64::Engine::encode(&base64::engine::general_purpose::STANDARD, doc.as_bytes())));
}

#[test]
fn new_clients_get_their_document() {
    assert_eq!(client_expiry(0, 5), 0);
    assert_eq!(client_expiry(2, 5), 5 + 172_800_000);
    let d = new_client_doc("VLESS", " bob ", 1024, 7, "cid".to_string(), "sid".to_string(), "xtls-rprx-vision".to_string()).unwrap();
    assert_eq!((d.email.as_str(), d.total_gb, d.expiry_time, d.enable), ("bob", 1024, 7, true));
    assert_eq!((d.id.as_deref(), d.password.as_deref(), d.alter_id, d.flow.as_str()), (Some("cid"), None, Some(0), "xtls-rprx-vision"));
    assert_eq!((d.sub_id.as_str(), d.tg_id.as_str(), d.comment.as_str(), d.limit_ip, d.reset), ("sid", "", "", 0, 0));
    let t = new_client_doc("trojan", "eve", 0, 0, "pw".to_string(), "s".to_string(), "f".to_string()).unwrap();
    assert_eq!((t.password.as_deref(), t.id.as_deref(), t.alter_id, t.flow.as_str()), (Some("pw"), None, None, ""));
    assert_eq!(new_client_doc("vless", " ", 0, 0, "c".to_string(), "s".to_string(), "f".to_string()).unwrap_err(), "client name cannot be empty");
    assert!(new_client_doc("shadowsocks", "x", 0, 0, "c".to_string(), "s".to_string(), "f".to_string()).is_err());
    let rows = map_clients_at(&inbound(), 1_000);
    assert_eq!(added_client_index(&rows, "uuid-3"), Ok(2));
    assert_eq!(added_client_index(&rows, "none"), Err("client was added but was not returned by 3x-ui".to_string()));
}
