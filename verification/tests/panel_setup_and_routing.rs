use nodenet::monitor::{stable_latest_metric, MetricSample};
use nodenet::three_x_ui::{check_xray_setting, outbound_test_url, xray_config_source, XrayConfigSource};
use serde_json::Value;
use nodenet::panel_setup::{panel_url_from_setup_info, parse_panel_setup_info, value_after_separator};
use nodenet::three_x_ui::{
    csrf_token_from_html, ensure_api_routing_rule, panel_base_path, validate_routing_filename,
    InboundTag, RoutingRule,
};

#[test]
fn parses_panel_setup_info_with_web_base_path() {
    let info = parse_panel_setup_info(
        "\nUsername: admin\nPassword: secret\nPort: 65333\nWebBasePath: abc123/\n",
        "cli",
    );

    assert_eq!(info.username, "admin");
    assert_eq!(info.password, "secret");
    assert_eq!(info.port, 65333);
    assert_eq!(info.web_base_path, "/abc123");
    assert_eq!(info.source, "cli");
}

#[test]
fn builds_panel_url_with_normalized_base_path() {
    assert_eq!(
        panel_url_from_setup_info("example.com", 65333, "/panel-base/"),
        "http://example.com:65333/panel-base"
    );
    assert_eq!(
        panel_url_from_setup_info("example.com", 65333, ""),
        "http://example.com:65333"
    );
}

#[test]
fn strips_ansi_codes_from_panel_values() {
    assert_eq!(
        value_after_separator("webBasePath: /abc/ \u{1b}[0m").as_deref(),
        Some("/abc/")
    );
}

fn now_nanos() -> i128 {
    chrono::Utc::now().timestamp_nanos_opt().expect("the clock is in range") as i128
}

fn metric(timestamp_nanos: i128, is_online: bool, ping_ms: u128) -> MetricSample {
    MetricSample { timestamp_nanos: Some(timestamp_nanos), is_online, ping_ms: Some(ping_ms) }
}

const SECOND: i128 = 1_000_000_000;

#[test]
fn stable_latest_metric_ignores_stale_history() {
    let now = now_nanos();
    let history = vec![metric(now - 600 * SECOND, true, 12)];

    assert!(stable_latest_metric(&history, now, 60).is_none());
}

#[test]
fn stable_latest_metric_softens_single_fresh_offline_sample() {
    let now = now_nanos();
    let history = vec![metric(now - 20 * SECOND, true, 12), metric(now, false, 0)];

    let selected = stable_latest_metric(&history, now, 60)
        .expect("fresh history should select a metric");

    assert_eq!(history[selected].ping_ms, Some(12));
}

#[test]
fn stable_latest_metric_keeps_repeated_fresh_offline_sample() {
    let now = now_nanos();
    let history = vec![
        metric(now - 30 * SECOND, true, 12),
        metric(now - 10 * SECOND, false, 0),
        metric(now, false, 0),
    ];

    let selected = stable_latest_metric(&history, now, 60)
        .expect("fresh history should select a metric");

    assert!(!history[selected].is_online);
}

#[test]
fn panel_base_path_strips_panel_routes() {
    assert_eq!(
        panel_base_path("/WgM5UTSqFEueUHYPxT/panel/xray"),
        "/WgM5UTSqFEueUHYPxT"
    );
    assert_eq!(
        panel_base_path("/WgM5UTSqFEueUHYPxT/panel/api/xray"),
        "/WgM5UTSqFEueUHYPxT"
    );
    assert_eq!(panel_base_path("/panel/xray"), "");
    assert_eq!(panel_base_path("/WgM5UTSqFEueUHYPxT"), "/WgM5UTSqFEueUHYPxT");
}

fn rule(outbound_tag: &str, inbound_tag: InboundTag) -> RoutingRule {
    RoutingRule { is_object: true, rule_type: Some("field".to_string()), outbound_tag: Some(outbound_tag.to_string()), inbound_tag }
}

#[test]
fn pins_api_routing_rule_before_user_rules() {
    let rules = vec![
        rule("blocked", InboundTag::Other),
        rule("api", InboundTag::List(vec![Some("api".to_string())])),
    ];

    let rules = ensure_api_routing_rule(rules);

    assert_eq!(rules[0].outbound_tag.as_deref(), Some("api"));
    assert_eq!(rules[1].outbound_tag.as_deref(), Some("blocked"));
}

#[test]
fn validates_custom_routing_dat_filename() {
    let local_path = "/tmp/geosite_custom.dat";

    assert_eq!(
        validate_routing_filename(None, local_path).expect("filename should be valid"),
        "geosite_custom.dat"
    );
    assert_eq!(
        validate_routing_filename(Some("custom-list.dat"), local_path)
            .expect("remote filename should be valid"),
        "custom-list.dat"
    );
    assert!(validate_routing_filename(Some("../bad.dat"), local_path).is_err());
    assert!(validate_routing_filename(Some("bad.txt"), local_path).is_err());
}

#[test]
fn extracts_csrf_token_from_login_page() {
    let html = r#"<meta name="csrf-token" content="abc123">"#;

    assert_eq!(csrf_token_from_html(html).as_deref(), Some("abc123"));
}

const DEFAULT_OUTBOUND_TEST_URL: &str = "https://www.google.com/generate_204";

fn decoded(value: Value) -> Result<Value, String> {
    match value {
        Value::String(raw) => serde_json::from_str(&raw).map_err(|e| e.to_string()),
        other => Ok(other),
    }
}

fn keys(value: &Value) -> Option<Vec<String>> {
    value.as_object().map(|o| o.keys().cloned().collect())
}

/// The panel's Xray settings answer read as the application reads it: the
/// JSON decoding here, the choices by the library.
fn parse_xray_panel_settings(response: Value) -> Result<(Value, String), String> {
    let value = decoded(response)?;
    let test_url = outbound_test_url(value.get("outboundTestUrl").and_then(Value::as_str));
    let config = match xray_config_source(keys(&value).as_ref(), value.get("xraySetting").is_some()) {
        Ok(XrayConfigSource::Answer) => value,
        Ok(XrayConfigSource::XraySetting) => {
            let config = decoded(value.get("xraySetting").cloned().unwrap_or(Value::Null))?;
            check_xray_setting(keys(&config).as_ref()).map_err(|e| e.message().to_string())?;
            config
        },
        Err(e) => return Err(e.message().to_string()),
    };
    Ok((config, test_url))
}

#[test]
fn parses_xray_panel_wrapper_with_string_obj() {
    let response = Value::String(
        r#"{
            "xraySetting": {
                "routing": { "rules": [] },
                "outbounds": [{ "tag": "direct", "protocol": "freedom" }]
            },
            "inboundTags": [],
            "clientReverseTags": [],
            "outboundTestUrl": "https://example.com/ping"
        }"#
        .to_string(),
    );

    let (config, outbound_test_url) = parse_xray_panel_settings(response).expect("settings should parse");

    assert_eq!(config["outbounds"][0]["tag"].as_str(), Some("direct"));
    assert_eq!(outbound_test_url, "https://example.com/ping");
}

#[test]
fn parses_xray_panel_wrapper_with_string_xray_setting() {
    let response: Value = serde_json::from_str(
        r#"{
            "xraySetting": "{\"routing\": { \"rules\": [{ \"type\": \"field\", \"outboundTag\": \"block\" }] }, \"outbounds\": [{ \"tag\": \"block\", \"protocol\": \"blackhole\" }]}",
            "outboundTestUrl": ""
        }"#,
    )
    .unwrap();

    let (config, outbound_test_url) = parse_xray_panel_settings(response).expect("settings should parse");

    assert_eq!(config["routing"]["rules"][0]["outboundTag"].as_str(), Some("block"));
    assert_eq!(outbound_test_url, DEFAULT_OUTBOUND_TEST_URL);
}

#[test]
fn accepts_raw_xray_config() {
    let response: Value = serde_json::from_str(
        r#"{
            "routing": { "rules": [] },
            "outbounds": [{ "tag": "proxy", "protocol": "socks" }]
        }"#,
    )
    .unwrap();

    let (config, _) = parse_xray_panel_settings(response).expect("settings should parse");

    assert_eq!(config["outbounds"][0]["protocol"].as_str(), Some("socks"));
}

#[test]
fn the_added_api_rule_is_a_field_rule() {
    let rules = ensure_api_routing_rule(vec![rule("blocked", InboundTag::Other)]);
    assert_eq!(rules.len(), 2);
    assert_eq!(rules[0].rule_type.as_deref(), Some("field"));
    assert_eq!(rules[0].outbound_tag.as_deref(), Some("api"));
    match &rules[0].inbound_tag {
        InboundTag::List(ts) => assert_eq!(ts, &vec![Some("api".to_string())]),
        other => panic!("{other:?}"),
    }
    assert_eq!(rules[1].outbound_tag.as_deref(), Some("blocked"));
}
