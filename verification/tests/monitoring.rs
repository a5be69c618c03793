use nodenet::alerts::{
    client_key, events_path, is_legacy_events_log, new_alert_event, notification_title,
    record_event, remove_events_for_server, server_down_message, AlertEvent, AlertsRuntime, IdSet,
    MAX_EVENTS, EventDraft, PollNext, push_event,
};
use nodenet::events_file::{new_events_key, open_events, open_events_file, seal_events, stored_events_key, EventsError};
use nodenet::metrics::{
    format_uptime, latest_timestamps, merge_cache_delta, metric_value, parse_metric_lines, parse_u64,
    ping_time_text, read_counted_metrics, remove_server_from_cache, CacheEntry, MetricError,
};
use nodenet::monitor::{
    agent_script, delete_saved_server_command, install_command, json_quote, json_slice,
    monitor_event, monitor_events, monitor_ping, monitor_saved_server, MetricSample,
    MonitorEventFields, PortField, SavedServerFields,
};
use nodenet::config::{AppConfig, ServerConfig};
use nodenet::ssl::{build_list_script, certificates_from_report, parse_openssl_date, status_at};

fn event(id: &str, server: Option<&str>) -> AlertEvent {
    AlertEvent {
        id: id.to_string(),
        level: "warn".to_string(),
        kind: "cpu_high".to_string(),
        server_id: server.map(str::to_string),
        server_name: None,
        message: "m".to_string(),
        timestamp_ms: 0,
    }
}

#[test]
fn id_sets_report_new_members() {
    let mut s = IdSet::new();
    assert!(s.insert("a"));
    assert!(!s.insert("a"));
    assert!(s.contains("a"));
    s.remove("a");
    assert!(!s.contains("a"));
    assert!(s.insert("a"));
}

#[test]
fn a_down_server_is_reported_once_per_outage() {
    let mut rt = AlertsRuntime::new();
    assert!(rt.note_ping("s1", true));
    assert!(!rt.note_ping("s1", true));
    assert!(!rt.note_ping("s1", false));
    assert!(rt.note_ping("s1", true));
    assert_eq!(server_down_message("Berlin", "SSH failed"), "Berlin is unavailable: SSH failed");
}

#[test]
fn high_cpu_is_reported_after_a_minute_once() {
    let mut rt = AlertsRuntime::new();
    assert!(!rt.note_cpu("s1", true, 1_000));
    assert!(!rt.note_cpu("s1", true, 30_000));
    assert!(rt.note_cpu("s1", true, 61_000));
    assert!(!rt.note_cpu("s1", true, 200_000));
    assert!(!rt.note_cpu("s1", false, 201_000));
    assert!(!rt.note_cpu("s1", true, 202_000));
    assert!(rt.note_cpu("s1", true, 262_000));
}

#[test]
fn traffic_limits_are_reported_once() {
    let mut rt = AlertsRuntime::new();
    let key = client_key("s1", -3, "c1");
    assert_eq!(key, "s1:-3:c1");
    assert!(rt.note_client_usage(&key, true));
    assert!(!rt.note_client_usage(&key, true));
    assert!(!rt.note_client_usage(&key, false));
    assert!(rt.note_client_usage(&key, true));
}

#[test]
fn the_event_log_keeps_the_newest_five_hundred() {
    let mut log: Vec<AlertEvent> = Vec::new();
    for i in 0..(MAX_EVENTS + 3) {
        log = record_event(log, event(&i.to_string(), None));
    }
    assert_eq!(log.len(), MAX_EVENTS);
    assert_eq!(log[0].id, (MAX_EVENTS + 2).to_string());
    assert_eq!(log[MAX_EVENTS - 1].id, "3");
}

#[test]
fn events_of_a_deleted_server_are_dropped() {
    let log = vec![event("1", Some("a")), event("2", None), event("3", Some("b")), event("4", Some("a"))];
    let kept = remove_events_for_server(log, "a");
    let ids: Vec<&str> = kept.iter().map(|e| e.id.as_str()).collect();
    assert_eq!(ids, vec!["2", "3"]);
}

#[test]
fn new_events_have_random_ids_and_titles_by_level() {
    let e = new_alert_event("error", "server_down", Some("s".to_string()), None, "x".to_string());
    assert_eq!(e.id.len(), 36);
    assert_eq!(e.id.chars().nth(14), Some('4'));
    assert!(e.timestamp_ms > 0);
    assert_eq!(notification_title("error"), "NodeNet error");
    assert_eq!(notification_title("warn"), "NodeNet warning");
    assert_eq!(notification_title("info"), "NodeNet");
    assert!(is_legacy_events_log("  \n[ {} ]"));
    assert!(!is_legacy_events_log("{\"version\":1}"));
    assert_eq!(events_path("/data"), "/data/NodeNet/events.json");
}

#[test]
fn sealed_events_open_to_what_was_sealed() {
    let (key, text) = new_events_key();
    assert_eq!(key.len(), 32);
    assert_eq!(stored_events_key(Some(&text)).unwrap().unwrap(), key);
    let log = b"[{\"id\":\"1\"}]".to_vec();
    let file = seal_events(&key, &log).unwrap();
    assert_eq!(file.version, 1);
    assert_eq!(file.cipher, "AES-256-GCM");
    assert_eq!(file.nonce.len(), 16);
    assert_eq!(open_events(&key, &file).unwrap(), log);
    let (other, _) = new_events_key();
    assert_eq!(open_events(&other, &file), Err(EventsError::Decrypt));
}

#[test]
fn damaged_event_files_are_refused() {
    let (key, _) = new_events_key();
    let mut file = seal_events(&key, &b"[]".to_vec()).unwrap();
    file.data = "***".to_string();
    assert_eq!(open_events(&key, &file), Err(EventsError::DecodeData));
    assert_eq!(EventsError::DecodeData.message(), "failed to decode events ciphertext");
    file.nonce = "AAAA".to_string();
    assert!(open_events_file(&key, &file).is_none());
    assert_eq!(stored_events_key(Some("!!")), Err(EventsError::DecodeKey));
    assert_eq!(stored_events_key(Some("AAAA")), Ok(None));
    assert_eq!(stored_events_key(None), Ok(None));
}

const REPORT: &str = "cpu_percent=12.5\nram_total_mb=2048\nram_used_mb=512\ndisk_total=20G\ndisk_used=5G\ndisk_percent=25\nload_average=0.1 0.2 0.3\nuptime_sec=90061\nrx_bytes=100\ntx_bytes=200\ntotal_rx_bytes=\ntotal_tx_bytes=18446744073709551615\n";

#[test]
fn metric_report_is_read() {
    let values = parse_metric_lines(REPORT);
    assert_eq!(values.len(), 12);
    assert_eq!(metric_value(&values, "disk_used").as_deref(), Some("5G"));
    assert_eq!(parse_u64(&values, "ram_total_mb").unwrap(), 2048);
    let m = read_counted_metrics(&values, true, true, true).unwrap();
    assert_eq!(m.uptime, "1d 1h");
    assert_eq!(m.total_rx_bytes, 100);
    assert_eq!(m.total_tx_bytes, u64::MAX);
    assert_eq!(m.total_traffic_bytes, u64::MAX);
    assert_eq!(m.disk_total, "20G");
}

#[test]
fn metric_errors_come_in_reading_order() {
    let values = parse_metric_lines("cpu_percent=x\n");
    let e = read_counted_metrics(&values, false, true, true).unwrap_err();
    assert!(matches!(e, MetricError::Invalid(_)));
    assert_eq!(e.message(), "invalid cpu_percent metric");
    let values = parse_metric_lines("cpu_percent=1\nram_total_mb=-1\n");
    assert_eq!(read_counted_metrics(&values, true, true, true).unwrap_err().message(), "invalid ram_total_mb metric");
    let values = parse_metric_lines("cpu_percent=1\nram_total_mb=1\nram_used_mb=1\ndisk_percent=1\nuptime_sec=1\nrx_bytes=1\ntx_bytes=1\n");
    assert_eq!(read_counted_metrics(&values, true, true, true).unwrap_err().message(), "missing load_average metric");
    let values = parse_metric_lines("cpu_percent=1\nram_total_mb=1\nram_used_mb=1\ndisk_percent=1\nuptime_sec=1\nrx_bytes=1\ntx_bytes=1\nload_average=a\n");
    assert_eq!(read_counted_metrics(&values, true, true, false).unwrap_err().message(), "invalid load average");
    assert_eq!(parse_u64(&values, "nope").unwrap_err().message(), "missing nope metric");
}

#[test]
fn uptime_and_ping_texts() {
    assert_eq!(format_uptime(59), "0m");
    assert_eq!(format_uptime(3_700), "1h 1m");
    assert_eq!(format_uptime(172_800), "2d 0h");
    assert_eq!(
        ping_time_text("64 bytes from 1.1.1.1: icmp_seq=1 ttl=57 time=12.3 ms").as_deref(),
        Some("12.3")
    );
    assert_eq!(ping_time_text("time=4.1msms").as_deref(), Some("4.1"));
    assert_eq!(ping_time_text("no reply"), None);
}

fn entry(id: &str, points: Option<Vec<u32>>) -> CacheEntry<u32> {
    CacheEntry { server_id: id.to_string(), history: points }
}

#[test]
fn cache_delta_is_appended() {
    let base = vec![entry("a", Some(vec![1, 2])), entry("b", None)];
    let delta = vec![entry("a", Some(vec![3])), entry("b", Some(vec![9])), entry("c", Some(vec![5])), entry("d", Some(vec![]))];
    let merged = merge_cache_delta(base, delta);
    assert_eq!(merged.len(), 3);
    assert_eq!(merged[0].history, Some(vec![1, 2, 3]));
    assert_eq!(merged[1].history, None);
    assert_eq!(merged[2].server_id, "c");
    assert_eq!(merged[2].history, Some(vec![5]));
    let rest = remove_server_from_cache(merged, "a");
    assert_eq!(rest.len(), 2);
}

#[test]
fn latest_time_stamps_per_server() {
    let cache = vec![
        ("a".to_string(), Some(vec![Some("2024-01-01T00:00:01Z".to_string()), None, Some("bad".to_string()), Some("2024-01-01T00:00:00Z".to_string())])),
        ("b".to_string(), None),
        ("c".to_string(), Some(vec![])),
    ];
    let stamps = latest_timestamps(&cache);
    assert_eq!(stamps, vec![("a".to_string(), 1_704_067_201_000), ("c".to_string(), 0)]);
}

#[test]
fn monitor_text_helpers() {
    assert_eq!(json_quote("a\"b\\c\n\u{1}"), "\"a\\\"b\\\\c\\n\\u0001\"");
    assert_eq!(json_slice("warning\n{\"servers\":[]}\ntrailer", '{', '}').as_deref(), Some("{\"servers\":[]}"));
    assert_eq!(json_slice("] nothing [", '[', ']'), None);
    let cmd = delete_saved_server_command("x\"y");
    assert!(cmd.contains("SERVER_ID = \"x\\\"y\"\n"));
    assert!(cmd.starts_with("set -e\n"));
    let install = install_command("u1");
    assert!(install.contains("$SUDO mv '/tmp/nodenet-monitor-agent-u1.py' /usr/local/bin/nodenet-monitor-agent\n"));
    assert!(install.contains("key_name=${key_name%.u1.tmp}"));
    assert!(agent_script().starts_with("#!/usr/bin/env python3\n"));
}

fn cfg() -> AppConfig {
    AppConfig {
        theme: "dark".to_string(),
        poll_interval_sec: 10,
        servers: vec![ServerConfig {
            id: "s1".to_string(),
            name: "n".to_string(),
            host: "h".to_string(),
            ssh_port: 22,
            ssh_user: "root".to_string(),
            country: "US".to_string(),
            panel_url: None,
            panel_user: None,
            ssh_key_path: None,
            bastion_host: None,
            bastion_port: None,
            bastion_user: None,
            bastion_ssh_key_path: None,
            ssh_key_passphrase: None,
            ssl_verify: false,
        }],
        bastions: vec![],
        monitor_server_id: None,
        monitor_bastion_id: None,
    }
}

#[test]
fn monitor_records_are_read() {
    let fields = SavedServerFields {
        id: Some(" s1 ".to_string()),
        name: None,
        host: Some("10.0.0.1".to_string()),
        ssh_user: Some("  ".to_string()),
        country: None,
        panel_url: None,
        ssh_key_path: Some("/var/lib/nodenet-monitor/keys/s1-target".to_string()),
        ssh_port: Some(PortField::Text("70000".to_string())),
    };
    let s = monitor_saved_server(&fields, &cfg()).unwrap();
    assert_eq!(s.id, "s1");
    assert_eq!(s.name, "s1");
    assert_eq!(s.ssh_user, "root");
    assert_eq!(s.ssh_port, 22);
    assert!(s.has_local_config);
    let none = SavedServerFields { id: None, name: None, host: None, ssh_user: None, country: None, panel_url: None, ssh_key_path: None, ssh_port: Some(PortField::Unsigned(2222)) };
    assert!(monitor_saved_server(&none, &cfg()).is_none());
    let events = monitor_events(&vec![
        MonitorEventFields { id: None, level: None, kind: None, server_id: Some("s1".to_string()), server_name: None, message: Some(" down ".to_string()), timestamp: Some("2024-01-01T00:00:00+00:00".to_string()) },
        MonitorEventFields { id: None, level: None, kind: None, server_id: None, server_name: None, message: Some("  ".to_string()), timestamp: None },
    ]);
    assert_eq!(events.len(), 1);
    assert_eq!(events[0].message, "down");
    assert_eq!(events[0].level, "info");
    assert_eq!(events[0].kind, "monitor");
    assert_eq!(events[0].timestamp_ms, 1_704_067_200_000);
    assert_eq!(events[0].id.len(), 36);
    assert!(monitor_event(&MonitorEventFields { id: None, level: None, kind: None, server_id: None, server_name: None, message: None, timestamp: None }).is_none());
}

#[test]
fn monitor_samples_give_a_ping() {
    let now: i128 = 1_700_000_000_000_000_000;
    let s = 1_000_000_000i128;
    let h = vec![
        MetricSample { timestamp_nanos: Some(now - 20 * s), is_online: true, ping_ms: Some(1500) },
        MetricSample { timestamp_nanos: Some(now), is_online: false, ping_ms: None },
    ];
    let p = monitor_ping(Some(&h), now, 60);
    assert_eq!(p.status, "warning");
    assert_eq!(p.latency_ms, Some(1500));
    assert_eq!(monitor_ping(None, now, 60).status, "unknown");
}

const CERT_REPORT: &str = "CERTBOT_INSTALLED=1\nCERT\tex\texample.com www.example.com\tLE\tJan  1 00:00:00 2024 GMT\tJan  1 00:00:00 2099 GMT\tcertbot\nCERT\tdup\twww.example.com example.com\tLE\tJan  1 00:00:00 2024 GMT\tJan  1 00:00:00 2099 GMT\tunknown\nCERT\tip\t\tSelf\tbad\tJun  1 00:00:00 2030 GMT\tacmeSh\nCERT\tshort\tonly\nCERT\tnodate\tn.example\tX\t\t\tweird\n";

#[test]
fn certificates_are_listed_once_soonest_first() {
    let now: i128 = 1_717_200_000 * 1_000_000_000;
    let listed = certificates_from_report(CERT_REPORT, now);
    assert!(listed.certbot_installed);
    let names: Vec<&str> = listed.certificates.iter().map(|c| c.cert_name.as_str()).collect();
    assert_eq!(names, vec!["nodate", "ip", "ex"]);
    assert_eq!(listed.certificates[0].status, "unknown");
    assert_eq!(listed.certificates[0].source, "unknown");
    assert_eq!(listed.certificates[1].domains, vec!["ip".to_string()]);
    assert_eq!(listed.certificates[1].issued_at, None);
    assert_eq!(listed.certificates[1].source, "acmeSh");
    assert_eq!(listed.certificates[2].domains.len(), 2);
    assert_eq!(listed.certificates[2].status, "valid");
}

#[test]
fn certificate_status_scales_with_lifetime() {
    assert_eq!(parse_openssl_date(" Jan  1 00:00:00 2024 GMT "), Some(1_704_067_200));
    assert_eq!(parse_openssl_date("garbage"), None);
    let day = 86_400i64;
    let now: i128 = 1_000 * (day as i128) * 1_000_000_000;
    let secs = |d: i64| Some(1_000 * day + d);
    assert_eq!(status_at(None, None, now), "unknown");
    assert_eq!(status_at(None, secs(0), now), "expired");
    assert_eq!(status_at(None, secs(29 * day), now), "expiring");
    assert_eq!(status_at(None, secs(31 * day), now), "valid");
    assert_eq!(status_at(secs(-4 * day), secs(2 * day), now), "expiring");
    assert_eq!(status_at(secs(-1 * day), secs(2 * day), now), "valid");
    assert_eq!(status_at(secs(10 * day), secs(2 * day), now), "valid");
    let script = build_list_script(&vec!["/etc/x'y/cert.pem".to_string()]);
    assert!(script.ends_with("report_cert \"$(basename \"$(dirname '/etc/x'\\''y/cert.pem')\")\" '/etc/x'\\''y/cert.pem'\n"));
    assert!(script.starts_with("\nif command -v certbot"));
}

#[test]
fn sealed_events_open_through_the_file_check() {
    let (key, _) = new_events_key();
    let log = b"[{\"id\":\"2\"}]".to_vec();
    let file = seal_events(&key, &log).unwrap();
    assert_eq!(open_events_file(&key, &file), Some(Ok(log)));
    assert_eq!(seal_events(&key, &Vec::new()).map(|f| f.version), Ok(1));
}

#[test]
fn the_metrics_script_reports_key_value_lines() {
    let script = nodenet::metrics::metrics_script();
    assert!(script.starts_with("\nread_cpu_stat() {"));
    assert!(script.contains("/proc/stat"));
}

#[test]
fn a_minimal_valid_report_is_read() {
    let values = parse_metric_lines("cpu_percent=1\nram_total_mb=1\nram_used_mb=1\ndisk_percent=1\nuptime_sec=1\nrx_bytes=1\ntx_bytes=1\nload_average=0.1\n");
    let m = read_counted_metrics(&values, true, true, true).unwrap();
    assert_eq!((m.ram_total_mb, m.total_rx_bytes, m.total_traffic_bytes, m.disk_used.as_str()), (1, 1, 2, "--"));
}

#[test]
fn an_offline_ping_ends_the_poll_round() {
    let mut rt = AlertsRuntime::new();
    let (draft, next) = rt.poll_after_ping("s1", "Alpha", true, "SSH failed");
    let d = draft.unwrap();
    assert_eq!((d.level.as_str(), d.kind.as_str(), d.message.as_str()), ("error", "server_down", "Alpha is unavailable: SSH failed"));
    assert_eq!(next, PollNext::EndRound);
    let (draft, next) = rt.poll_after_ping("s1", "Alpha", true, "SSH failed");
    assert!(draft.is_none());
    assert_eq!(next, PollNext::EndRound);
    let (draft, next) = rt.poll_after_ping("s1", "Alpha", false, "SSH OK");
    assert!(draft.is_none());
    assert_eq!(next, PollNext::CollectMetrics);
}

#[test]
fn metrics_and_clients_are_reported_once() {
    let mut rt = AlertsRuntime::new();
    assert_eq!(rt.poll_after_metrics("s1", "Alpha", Some((true, "95.0")), 0, true).1, PollNext::CheckPanel);
    let (draft, next) = rt.poll_after_metrics("s1", "Alpha", Some((true, "96.5")), 60_000, false);
    assert_eq!(draft.unwrap().message, "Alpha CPU has been above 90% for more than 60 sec (96.5%)");
    assert_eq!(next, PollNext::EndRound);
    assert!(rt.poll_after_metrics("s1", "Alpha", None, 70_000, false).0.is_none());
    let d = rt.poll_client("s1:1:c", true, "bob", "97.0", "Alpha").unwrap();
    assert_eq!((d.kind.as_str(), d.message.as_str()), ("client_traffic_limit", "bob used 97.0% of traffic limit on Alpha"));
    assert!(rt.poll_client("s1:1:c", true, "bob", "97.0", "Alpha").is_none());
}

#[test]
fn pushed_events_come_first() {
    let log = vec![event("old", None)];
    let draft = EventDraft { level: "warn".to_string(), kind: "cpu_high".to_string(), message: "hot".to_string() };
    let log = push_event(log, draft, Some("s1".to_string()), Some("Alpha".to_string()));
    assert_eq!(log.len(), 2);
    assert_eq!((log[0].level.as_str(), log[0].kind.as_str(), log[0].message.as_str()), ("warn", "cpu_high", "hot"));
    assert_eq!(log[0].id.len(), 36);
    assert_eq!(log[1].id, "old");
}
