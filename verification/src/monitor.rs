//! The remote monitor: which host runs it, how old its samples may be, how
//! the latest sample is chosen and read as a ping result, and the names and
//! commands used to install it. Talking to the monitor host is the caller's
//! part.
use vstd::prelude::*;
use crate::config::{
    clean_id, clean_opt, dup_opt, opt_view, AppConfig, BastionConfig, ConfigError, ServerConfig,
};
use crate::ids::{is_simple_id, new_simple_id};
use crate::registry::{lookup, lemma_lookup_first, lemma_lookup_none, find_index};
use crate::ssh::expand_tilde_spec;
use crate::alerts::AlertEvent;
use crate::ids::is_hyphenated_id;
use crate::ids::new_hyphenated_id;
use crate::registry::has_key;
use crate::text::{
    find_char, has_char, is_first_char, is_last_char, lemma_first_char_unique, lemma_last_char_unique,
    parse_u64_spec, parse_u64_str, push_char, rfind_char, string_of_range,
};
use crate::three_x_ui::now_millis;
use crate::text::{
    chars_of, copy_str, decimal, eq_ignore_case, lower_seq, name_chars, name_chars_exec, push_decimal,
    push_str, set_pred, shell_single_quote, single_quoted, starts_with, starts_with_str, str_eq, strip,
    strip_vec, trim, trim_str, CharSet,
};

verus! {

/// A server as the monitor's own configuration lists it.
#[derive(Clone, Debug)]
pub struct MonitorSavedServer {
    pub id: String,
    pub name: String,
    pub host: String,
    pub ssh_port: u16,
    pub ssh_user: String,
    pub country: String,
    pub panel_url: Option<String>,
    pub ssh_key_path: Option<String>,
    pub has_local_config: bool,
}

/// Is a monitor host chosen?
pub fn is_enabled(config: &AppConfig) -> (b: bool)
    ensures
        b == (clean_id(config.monitor_server_id) is Some || clean_id(config.monitor_bastion_id) is Some),
{
    clean_opt(&config.monitor_server_id).is_some() || clean_opt(&config.monitor_bastion_id).is_some()
}

/// `v` is the server record that stands for bastion `b`.
pub open spec fn is_bastion_server(v: ServerConfig, b: BastionConfig) -> bool {
    &&& v.id@ == "bastion:"@ + b.id@
    &&& v.name == b.name
    &&& v.host == b.host
    &&& v.ssh_port == b.port
    &&& v.ssh_user == b.user
    &&& v.country@ == "US"@
    &&& v.panel_url is None
    &&& v.panel_user is None
    &&& v.ssh_key_path == b.ssh_key_path
    &&& v.bastion_host is None
    &&& v.bastion_port is None
    &&& v.bastion_user is None
    &&& v.bastion_ssh_key_path is None
    &&& v.ssh_key_passphrase is None
    &&& !v.ssl_verify
}

/// The server record that stands for a bastion, so that commands can be run
/// on the bastion itself.
pub fn server_from_bastion(bastion: &BastionConfig) -> (r: ServerConfig)
    ensures
        is_bastion_server(r, *bastion),
{
    let mut id = copy_str("bastion:");
    push_str(&mut id, bastion.id.as_str());
    ServerConfig {
        id,
        name: bastion.name.clone(),
        host: bastion.host.clone(),
        ssh_port: bastion.port,
        ssh_user: bastion.user.clone(),
        country: copy_str("US"),
        panel_url: None,
        panel_user: None,
        ssh_key_path: dup_opt(&bastion.ssh_key_path),
        bastion_host: None,
        bastion_port: None,
        bastion_user: None,
        bastion_ssh_key_path: None,
        ssh_key_passphrase: None,
        ssl_verify: false,
    }
}

/// `r` is what choosing the monitor host gives: the chosen server, or the
/// chosen bastion as a server; none when nothing is chosen; an error when a
/// chosen id is not in the configuration. A chosen server wins over a
/// chosen bastion.
pub open spec fn is_monitor_server_result(config: AppConfig, r: Result<Option<ServerConfig>, ConfigError>) -> bool {
    let s = clean_id(config.monitor_server_id);
    let b = clean_id(config.monitor_bastion_id);
    if s is Some {
        match lookup(config.servers@, s->0) {
            Some(x) => r == Ok::<Option<ServerConfig>, ConfigError>(Some(x)),
            None => r matches Err(ConfigError::MonitorServerNotFound(m)) && m@ == s->0,
        }
    } else if b is Some {
        match lookup(config.bastions@, b->0) {
            Some(x) => r matches Ok(Some(v)) && is_bastion_server(v, x),
            None => r matches Err(ConfigError::MonitorBastionNotFound(m)) && m@ == b->0,
        }
    } else {
        r == Ok::<Option<ServerConfig>, ConfigError>(None)
    }
}

/// The host that runs the monitor: the chosen server, or the chosen bastion
/// as a server; none when nothing is chosen. A chosen id that the
/// configuration does not hold is an error.
pub fn monitor_server(config: &AppConfig) -> (r: Result<Option<ServerConfig>, ConfigError>)
    ensures
        is_monitor_server_result(*config, r),
{
    if let Some(id) = clean_opt(&config.monitor_server_id) {
        match find_index(&config.servers, id.as_str()) {
            Some(i) => {
                proof {
                    lemma_lookup_first(config.servers@, id@, i as int);
                }
                return Ok(Some(config.servers[i].duplicate()));
            },
            None => {
                proof {
                    lemma_lookup_none(config.servers@, id@);
                }
                return Err(ConfigError::MonitorServerNotFound(id));
            },
        }
    }
    if let Some(id) = clean_opt(&config.monitor_bastion_id) {
        match find_index(&config.bastions, id.as_str()) {
            Some(i) => {
                proof {
                    lemma_lookup_first(config.bastions@, id@, i as int);
                }
                return Ok(Some(server_from_bastion(&config.bastions[i])));
            },
            None => {
                proof {
                    lemma_lookup_none(config.bastions@, id@);
                }
                return Err(ConfigError::MonitorBastionNotFound(id));
            },
        }
    }
    Ok(None)
}

/// Do two servers name the same SSH endpoint: host (ignoring ASCII case),
/// port and user, hosts and users taken trimmed?
pub open spec fn same_endpoint_spec(left: ServerConfig, right: ServerConfig) -> bool {
    &&& lower_seq(trim(left.host@)) == lower_seq(trim(right.host@))
    &&& left.ssh_port == right.ssh_port
    &&& trim(left.ssh_user@) == trim(right.ssh_user@)
}

pub fn is_same_endpoint(left: &ServerConfig, right: &ServerConfig) -> (b: bool)
    ensures
        b == same_endpoint_spec(*left, *right),
{
    let lh = trim_str(left.host.as_str());
    let rh = trim_str(right.host.as_str());
    let lu = trim_str(left.ssh_user.as_str());
    let ru = trim_str(right.ssh_user.as_str());
    eq_ignore_case(lh.as_str(), rh.as_str()) && left.ssh_port == right.ssh_port && str_eq(
        lu.as_str(),
        ru.as_str(),
    )
}

/// Is the server's bastion the monitor host itself?
pub open spec fn bastion_is_monitor_spec(server: ServerConfig, monitor: ServerConfig) -> bool {
    match clean_id(server.bastion_host) {
        None => false,
        Some(host) => {
            let user = match clean_id(server.bastion_user) {
                Some(u) => u,
                None => server.ssh_user@,
            };
            let port = match server.bastion_port {
                Some(p) => p,
                None => 22,
            };
            &&& lower_seq(host) == lower_seq(trim(monitor.host@))
            &&& port == monitor.ssh_port
            &&& user == trim(monitor.ssh_user@)
        },
    }
}

pub fn bastion_is_monitor(server: &ServerConfig, monitor: &ServerConfig) -> (b: bool)
    ensures
        b == bastion_is_monitor_spec(*server, *monitor),
{
    let host = match clean_opt(&server.bastion_host) {
        Some(h) => h,
        None => {
            return false;
        },
    };
    let user = match clean_opt(&server.bastion_user) {
        Some(u) => u,
        None => server.ssh_user.clone(),
    };
    let port = match server.bastion_port {
        Some(p) => p,
        None => 22,
    };
    let mh = trim_str(monitor.host.as_str());
    let mu = trim_str(monitor.ssh_user.as_str());
    eq_ignore_case(host.as_str(), mh.as_str()) && port == monitor.ssh_port && str_eq(
        user.as_str(),
        mu.as_str(),
    )
}

/// A value made safe as a file name: characters other than ASCII letters,
/// digits, `.`, `_` and `-` become `_`, and `.`, `_` and `-` are stripped
/// from both ends.
pub open spec fn safe_file_name(value: Seq<char>) -> Seq<char> {
    strip(name_chars(value), set_pred(CharSet::NamePunct))
}

/// `safe_file_name`, or a fresh random name when nothing is left of it.
pub fn sanitize_filename(value: &str) -> (r: String)
    ensures
        safe_file_name(value@).len() > 0 ==> r@ == safe_file_name(value@),
        safe_file_name(value@).len() == 0 ==> is_simple_id(r@),
{
    let mapped = name_chars_exec(value);
    let s = strip_vec(&mapped, CharSet::NamePunct);
    if s.as_str().is_empty() {
        new_simple_id()
    } else {
        s
    }
}

/// How long a monitor sample counts as fresh, in seconds: four poll
/// intervals (of at least 5 seconds), between one and fifteen minutes.
pub open spec fn sample_max_age_spec(poll_interval_sec: u64) -> u64 {
    let p: int = if poll_interval_sec < 5 {
        5
    } else {
        poll_interval_sec as int
    };
    let m: int = p * 4;
    if m < 60 {
        60
    } else if m > 900 {
        900
    } else {
        m as u64
    }
}

pub fn monitor_sample_max_age(config: &AppConfig) -> (r: u64)
    ensures
        r == sample_max_age_spec(config.poll_interval_sec),
        60 <= r <= 900,
{
    let p = if config.poll_interval_sec < 5 {
        5
    } else {
        config.poll_interval_sec
    };
    let m = if p > u64::MAX / 4 { u64::MAX } else { p * 4 };
    if m < 60 {
        60
    } else if m > 900 {
        900
    } else {
        m
    }
}

/// What the application reads of one monitor sample: when it was taken, in
/// nanoseconds since the Unix epoch (absent when it has no readable
/// timestamp), whether the server was online (samples say so unless they
/// say otherwise), and the ping in whole milliseconds.
#[derive(Debug, Clone, Copy)]
pub struct MetricSample {
    pub timestamp_nanos: Option<i128>,
    pub is_online: bool,
    pub ping_ms: Option<u128>,
}

/// A sample is fresh when it is at most `max_age_secs` old and at most five
/// minutes in the future.
pub open spec fn is_fresh_spec(sample: MetricSample, now_nanos: i128, max_age_secs: u64) -> bool {
    match sample.timestamp_nanos {
        Some(t) => {
            let age = now_nanos - t;
            age <= max_age_secs * 1_000_000_000 && age >= -300_000_000_000
        },
        None => false,
    }
}

pub fn metric_is_fresh(sample: &MetricSample, now_nanos: i128, max_age_secs: u64) -> (b: bool)
    ensures
        b == is_fresh_spec(*sample, now_nanos, max_age_secs),
{
    match sample.timestamp_nanos {
        Some(t) => match now_nanos.checked_sub(t) {
            Some(age) => {
                let max: i128 = (max_age_secs as i128) * 1_000_000_000;
                age <= max && age >= -300_000_000_000
            },
            None => false,
        },
        None => false,
    }
}

/// `i` is the last fresh sample of the history.
pub open spec fn is_latest_fresh(h: Seq<MetricSample>, now: i128, max_age: u64, i: int) -> bool {
    0 <= i < h.len() && is_fresh_spec(h[i], now, max_age) && forall|j: int|
        i < j < h.len() ==> !is_fresh_spec(#[trigger] h[j], now, max_age)
}

pub open spec fn has_fresh(h: Seq<MetricSample>, now: i128, max_age: u64) -> bool {
    exists|i: int| 0 <= i < h.len() && is_fresh_spec(#[trigger] h[i], now, max_age)
}

/// The sample to report from a history: the last fresh one, unless it is
/// an offline sample right after a fresh online one, which is then taken
/// instead, so that a single failed check does not show the server down.
pub open spec fn stable_choice(h: Seq<MetricSample>, now: i128, max_age: u64, i: int) -> int {
    if h[i].is_online {
        i
    } else if i > 0 && h[i - 1].is_online && is_fresh_spec(h[i - 1], now, max_age) {
        i - 1
    } else {
        i
    }
}

/// The index of the sample to report from a history, if any sample is
/// fresh.
pub fn stable_latest_metric(history: &Vec<MetricSample>, now_nanos: i128, max_age_secs: u64) -> (r:
    Option<usize>)
    ensures
        match r {
            Some(k) => exists|i: int|
                is_latest_fresh(history@, now_nanos, max_age_secs, i) && k == stable_choice(
                    history@,
                    now_nanos,
                    max_age_secs,
                    i,
                ),
            None => !has_fresh(history@, now_nanos, max_age_secs),
        },
{
    let mut i: usize = history.len();
    while i > 0 && !metric_is_fresh(&history[i - 1], now_nanos, max_age_secs)
        invariant
            i <= history@.len(),
            forall|j: int| i <= j < history@.len() ==> !is_fresh_spec(
                #[trigger] history@[j],
                now_nanos,
                max_age_secs,
            ),
        decreases i,
    {
        i = i - 1;
    }
    if i == 0 {
        return None;
    }
    let latest = i - 1;
    assert(is_latest_fresh(history@, now_nanos, max_age_secs, latest as int));
    if history[latest].is_online {
        return Some(latest);
    }
    if latest > 0 {
        let prev = &history[latest - 1];
        if prev.is_online && metric_is_fresh(prev, now_nanos, max_age_secs) {
            return Some(latest - 1);
        }
    }
    Some(latest)
}

/// What the monitor's samples say of a server's reachability.
#[derive(Debug)]
pub struct MonitorPing {
    pub latency_ms: Option<u128>,
    pub status: String,
    pub message: String,
}

/// The status and message the monitor's samples give: `unknown` without
/// samples or without a fresh one; else `offline` when the reported sample
/// is offline, `warning` when the very last check failed once or the ping
/// is over a second, and `online` otherwise.
pub open spec fn monitor_ping_spec(
    history: Option<Seq<MetricSample>>,
    now: i128,
    max_age: u64,
) -> (Option<u128>, Seq<char>, Seq<char>) {
    match history {
        None => (None, "unknown"@, "No monitor sample yet"@),
        Some(h) => if !has_fresh(h, now, max_age) {
            (None, "unknown"@, "Monitor sample is stale"@)
        } else {
            let i = choose|i: int| is_latest_fresh(h, now, max_age, i);
            let latest = h[stable_choice(h, now, max_age, i)];
            let last = h.last();
            let transient = is_fresh_spec(last, now, max_age) && !last.is_online
                && latest.is_online;
            let slow = match latest.ping_ms {
                Some(p) => p > 1000,
                None => false,
            };
            (
                latest.ping_ms,
                if !latest.is_online {
                    "offline"@
                } else if transient || slow {
                    "warning"@
                } else {
                    "online"@
                },
                if transient {
                    "Monitor sample, last check failed once"@
                } else {
                    "Monitor sample"@
                },
            )
        },
    }
}

pub proof fn lemma_latest_fresh_unique(h: Seq<MetricSample>, now: i128, max_age: u64, i: int, j: int)
    requires
        is_latest_fresh(h, now, max_age, i),
        is_latest_fresh(h, now, max_age, j),
    ensures
        i == j,
{
    if i < j {
        assert(!is_fresh_spec(h[j], now, max_age));
    } else if j < i {
        assert(!is_fresh_spec(h[i], now, max_age));
    }
}

/// Reads a server's samples, as the monitor keeps them, as a ping result.
pub fn monitor_ping(history: Option<&Vec<MetricSample>>, now_nanos: i128, max_age_secs: u64) -> (r:
    MonitorPing)
    ensures
        (r.latency_ms, r.status@, r.message@) == monitor_ping_spec(
            match history {
                Some(h) => Some(h@),
                None => None,
            },
            now_nanos,
            max_age_secs,
        ),
{
    let h = match history {
        Some(h) => h,
        None => {
            return MonitorPing {
                latency_ms: None,
                status: copy_str("unknown"),
                message: copy_str("No monitor sample yet"),
            };
        },
    };
    let k = match stable_latest_metric(h, now_nanos, max_age_secs) {
        Some(k) => k,
        None => {
            return MonitorPing {
                latency_ms: None,
                status: copy_str("unknown"),
                message: copy_str("Monitor sample is stale"),
            };
        },
    };
    proof {
        let i = choose|i: int|
            is_latest_fresh(h@, now_nanos, max_age_secs, i) && k == stable_choice(
                h@,
                now_nanos,
                max_age_secs,
                i,
            );
        let c = choose|c: int| is_latest_fresh(h@, now_nanos, max_age_secs, c);
        lemma_latest_fresh_unique(h@, now_nanos, max_age_secs, i, c);
    }
    let latest = &h[k];
    let last = &h[h.len() - 1];
    let transient = metric_is_fresh(last, now_nanos, max_age_secs) && !last.is_online
        && latest.is_online;
    let slow = match latest.ping_ms {
        Some(p) => p > 1000,
        None => false,
    };
    let status = if !latest.is_online {
        copy_str("offline")
    } else if transient || slow {
        copy_str("warning")
    } else {
        copy_str("online")
    };
    let message = if transient {
        copy_str("Monitor sample, last check failed once")
    } else {
        copy_str("Monitor sample")
    };
    MonitorPing { latency_ms: latest.ping_ms, status, message }
}

/// The shell command that prints a remote file, or `fallback` when the file
/// does not exist.
pub open spec fn read_remote_file_command_spec(path: Seq<char>, fallback: Seq<char>) -> Seq<char> {
    "if [ -f "@ + single_quoted(path) + " ]; then cat "@ + single_quoted(path)
        + "; else printf %s "@ + single_quoted(fallback) + "; fi"@
}

pub fn read_remote_file_command(path: &str, fallback: &str) -> (r: String)
    ensures
        r@ == read_remote_file_command_spec(path@, fallback@),
{
    let qp = shell_single_quote(path);
    let qf = shell_single_quote(fallback);
    let mut r = copy_str("if [ -f ");
    push_str(&mut r, qp.as_str());
    push_str(&mut r, " ]; then cat ");
    push_str(&mut r, qp.as_str());
    push_str(&mut r, "; else printf %s ");
    push_str(&mut r, qf.as_str());
    push_str(&mut r, "; fi");
    r
}

/// The servers to hand to the monitor: those of the configuration that the
/// monitor already lists, in the configuration's order; all of them when
/// it lists none.
pub open spec fn listed_servers(servers: Seq<ServerConfig>, ids: Seq<Seq<char>>) -> Seq<ServerConfig>
    decreases servers.len(),
{
    if servers.len() == 0 {
        seq![]
    } else if ids.contains(servers[0].id@) {
        seq![servers[0]] + listed_servers(servers.drop_first(), ids)
    } else {
        listed_servers(servers.drop_first(), ids)
    }
}

pub open spec fn id_views(ids: Seq<String>) -> Seq<Seq<char>> {
    ids.map_values(|s: String| s@)
}

pub fn id_listed(ids: &Vec<String>, id: &str) -> (b: bool)
    ensures
        b == id_views(ids@).contains(id@),
{
    let mut i: usize = 0;
    while i < ids.len()
        invariant
            i <= ids@.len(),
            forall|j: int| 0 <= j < i ==> ids@[j]@ != id@,
        decreases ids.len() - i,
    {
        if str_eq(ids[i].as_str(), id) {
            assert(id_views(ids@)[i as int] == id@);
            return true;
        }
        i = i + 1;
    }
    assert forall|j: int| 0 <= j < id_views(ids@).len() implies id_views(ids@)[j] != id@ by {
        assert(id_views(ids@)[j] == ids@[j]@);
    }
    false
}

/// The servers of the configuration whose ids are listed, in order.
pub fn servers_listed(servers: &Vec<ServerConfig>, ids: &Vec<String>) -> (r: Vec<ServerConfig>)
    ensures
        r@ == listed_servers(servers@, id_views(ids@)),
{
    let mut r: Vec<ServerConfig> = Vec::new();
    let mut i: usize = 0;
    assert(servers@.subrange(0, servers@.len() as int) =~= servers@);
    while i < servers.len()
        invariant
            i <= servers@.len(),
            r@ + listed_servers(servers@.subrange(i as int, servers@.len() as int), id_views(ids@))
                == listed_servers(servers@, id_views(ids@)),
        decreases servers.len() - i,
    {
        let ghost rest = servers@.subrange(i as int, servers@.len() as int);
        assert(rest[0] == servers@[i as int]);
        assert(rest.drop_first() =~= servers@.subrange(i + 1, servers@.len() as int));
        if id_listed(ids, servers[i].id.as_str()) {
            let ghost r0 = r@;
            r.push(servers[i].duplicate());
            assert(r@ + listed_servers(rest.drop_first(), id_views(ids@)) =~= r0 + (seq![
                servers@[i as int],
            ] + listed_servers(rest.drop_first(), id_views(ids@))));
        }
        i = i + 1;
    }
    assert(r@ + listed_servers(servers@.subrange(i as int, servers@.len() as int), id_views(ids@))
        =~= r@);
    r
}

pub fn duplicate_all(servers: &Vec<ServerConfig>) -> (r: Vec<ServerConfig>)
    ensures
        r@ == servers@,
{
    let mut r: Vec<ServerConfig> = Vec::new();
    let mut i: usize = 0;
    while i < servers.len()
        invariant
            i <= servers@.len(),
            r@ == servers@.subrange(0, i as int),
        decreases servers.len() - i,
    {
        r.push(servers[i].duplicate());
        i = i + 1;
        assert(r@ =~= servers@.subrange(0, i as int));
    }
    assert(servers@.subrange(0, servers@.len() as int) =~= servers@);
    r
}

/// The servers to reinstall the monitor with: those it lists, or all of
/// them when it lists none.
pub fn servers_for_reinstall(servers: &Vec<ServerConfig>, monitor_ids: &Vec<String>) -> (r: Vec<
    ServerConfig,
>)
    ensures
        monitor_ids@.len() == 0 ==> r@ == servers@,
        monitor_ids@.len() > 0 ==> r@ == listed_servers(servers@, id_views(monitor_ids@)),
{
    if monitor_ids.len() == 0 {
        duplicate_all(servers)
    } else {
        servers_listed(servers, monitor_ids)
    }
}

/// The servers to install the monitor with after adding `selected`: those
/// the monitor lists and `selected`, in the configuration's order, with
/// `selected` appended if the configuration does not hold it.
pub fn servers_for_sync(
    servers: &Vec<ServerConfig>,
    monitor_ids: &Vec<String>,
    selected: ServerConfig,
) -> (r: Vec<ServerConfig>)
    ensures
        ({
            let ids = id_views(monitor_ids@).push(selected.id@);
            let listed = listed_servers(servers@, ids);
            if exists|i: int| 0 <= i < listed.len() && (#[trigger] listed[i]).id@ == selected.id@ {
                r@ == listed
            } else {
                r@ == listed.push(selected)
            }
        }),
{
    let mut ids: Vec<String> = Vec::new();
    let mut i: usize = 0;
    while i < monitor_ids.len()
        invariant
            i <= monitor_ids@.len(),
            ids@ == monitor_ids@.subrange(0, i as int),
        decreases monitor_ids.len() - i,
    {
        ids.push(monitor_ids[i].clone());
        i = i + 1;
        assert(ids@ =~= monitor_ids@.subrange(0, i as int));
    }
    assert(monitor_ids@.subrange(0, monitor_ids@.len() as int) =~= monitor_ids@);
    let ghost before = ids@;
    ids.push(selected.id.clone());
    assert(id_views(ids@) =~= id_views(monitor_ids@).push(selected.id@));
    let mut r = servers_listed(servers, &ids);
    let mut k: usize = 0;
    let mut present = false;
    while k < r.len()
        invariant
            k <= r@.len(),
            !present ==> forall|j: int| 0 <= j < k ==> (#[trigger] r@[j]).id@ != selected.id@,
            present ==> exists|j: int| 0 <= j < r@.len() && (#[trigger] r@[j]).id@ == selected.id@,
        decreases r.len() - k,
    {
        if str_eq(r[k].id.as_str(), selected.id.as_str()) {
            present = true;
        }
        k = k + 1;
    }
    if !present {
        r.push(selected);
    }
    r
}

/// Where a key is kept on the monitor host.
pub open spec fn monitor_keys_dir() -> Seq<char> {
    "/var/lib/nodenet-monitor/keys"@
}

/// What to do with a server's key file when installing the monitor.
#[derive(Debug)]
pub enum KeyUpload {
    /// No key is set.
    NoKey,
    /// The key already lives on the monitor host; this is its path.
    OnMonitor(String),
    /// Upload the local file to the temporary path; it ends up at the
    /// remote path.
    Upload { local_path: String, remote_path: String, remote_tmp_path: String },
}

/// The plan for one key: `suffix` is `target` or `bastion`, `upload_id`
/// the name of this installation, `home` the user's home directory.
pub fn key_upload_plan(
    local_path: Option<&str>,
    server_id: &str,
    suffix: &str,
    upload_id: &str,
    home: Option<&str>,
) -> (r: KeyUpload)
    ensures
        ({
            let p = match local_path {
                Some(p) => trim(p@),
                None => seq![],
            };
            if p.len() == 0 {
                r is NoKey
            } else if starts_with(p, monitor_keys_dir()) {
                r matches KeyUpload::OnMonitor(k) && k@ == p
            } else {
                r matches KeyUpload::Upload { local_path: l, remote_path: rp, remote_tmp_path: tp }
                    && l@ == expand_tilde_spec(
                    p,
                    match home {
                        Some(h) => Some(h@),
                        None => None,
                    },
                ) && exists|sid: Seq<char>, suf: Seq<char>|
                    (safe_file_name(server_id@).len() > 0 ==> sid == safe_file_name(server_id@))
                        && (safe_file_name(suffix@).len() > 0 ==> suf == safe_file_name(suffix@))
                        && rp@ == monitor_keys_dir() + "/"@ + sid + "-"@ + suf && tp@
                        == "/tmp/nodenet-monitor-key-"@ + sid + "-"@ + suf + "."@ + upload_id@
                        + ".tmp"@
            }
        }),
{
    let p = match local_path {
        Some(p) => trim_str(p),
        None => String::new(),
    };
    if p.as_str().is_empty() {
        return KeyUpload::NoKey;
    }
    let pv = chars_of(p.as_str());
    if starts_with_str(&pv, "/var/lib/nodenet-monitor/keys") {
        return KeyUpload::OnMonitor(p);
    }
    let local = crate::ssh::expand_tilde(p.as_str(), home);
    let sid = sanitize_filename(server_id);
    let suf = sanitize_filename(suffix);
    let mut key_name = sid.clone();
    push_str(&mut key_name, "-");
    push_str(&mut key_name, suf.as_str());
    let mut remote_path = copy_str("/var/lib/nodenet-monitor/keys/");
    push_str(&mut remote_path, key_name.as_str());
    let mut remote_tmp_path = copy_str("/tmp/nodenet-monitor-key-");
    push_str(&mut remote_tmp_path, key_name.as_str());
    push_str(&mut remote_tmp_path, ".");
    push_str(&mut remote_tmp_path, upload_id);
    push_str(&mut remote_tmp_path, ".tmp");
    proof {
        reveal_strlit("/var/lib/nodenet-monitor/keys/");
        reveal_strlit("/var/lib/nodenet-monitor/keys");
        reveal_strlit("/");
        assert("/var/lib/nodenet-monitor/keys/"@ =~= monitor_keys_dir() + "/"@);
    }
    assert(remote_path@ =~= monitor_keys_dir() + "/"@ + sid@ + "-"@ + suf@);
    assert(remote_tmp_path@ =~= "/tmp/nodenet-monitor-key-"@ + sid@ + "-"@ + suf@ + "."@
        + upload_id@ + ".tmp"@);
    KeyUpload::Upload { local_path: local, remote_path, remote_tmp_path }
}

/// The systemd service unit that runs the monitor agent.
pub fn service_unit() -> (r: &'static str)
    ensures
        r@ == "[Unit]\nDescription=NodeNet remote monitor agent\nAfter=network-online.target\nWants=network-online.target\n\n[Service]\nType=oneshot\nExecStart=/usr/local/bin/nodenet-monitor-agent\n"@,
{
    "[Unit]\nDescription=NodeNet remote monitor agent\nAfter=network-online.target\nWants=network-online.target\n\n[Service]\nType=oneshot\nExecStart=/usr/local/bin/nodenet-monitor-agent\n"
}

/// The systemd timer unit that runs the monitor agent every
/// `interval_sec` seconds.
pub fn timer_unit(interval_sec: u64) -> (r: String)
    ensures
        r@ == "[Unit]\nDescription=Run NodeNet remote monitor agent\n\n[Timer]\nOnBootSec=20\nOnUnitActiveSec="@
            + decimal(interval_sec as nat)
            + "\nAccuracySec=5\nPersistent=true\n\n[Install]\nWantedBy=timers.target\n"@,
{
    let mut r = copy_str(
        "[Unit]\nDescription=Run NodeNet remote monitor agent\n\n[Timer]\nOnBootSec=20\nOnUnitActiveSec=",
    );
    push_decimal(&mut r, interval_sec);
    push_str(&mut r, "\nAccuracySec=5\nPersistent=true\n\n[Install]\nWantedBy=timers.target\n");
    r
}


/// The monitor agent, a Python program run by the systemd service.
pub const AGENT_SCRIPT: &'static str = r#"#!/usr/bin/env python3
import json
import os
import pathlib
import shlex
import subprocess
import time
from datetime import datetime, timezone

CONFIG_PATH = "/etc/nodenet-monitor/config.json"
DATA_DIR = pathlib.Path("/var/lib/nodenet-monitor")
METRICS_PATH = DATA_DIR / "metrics-cache.json"
EVENTS_PATH = DATA_DIR / "events.json"
RUNTIME_PATH = DATA_DIR / "runtime.json"
MAX_EVENTS = 500
MAX_POINTS_PER_SERVER = 50000

METRICS_SCRIPT = r'''
export LC_ALL=C
export LANG=C
export LANGUAGE=C
export LC_NUMERIC=C
RAM_TOTAL=0
RAM_USED=0
if command -v free >/dev/null 2>&1; then
read RAM_TOTAL RAM_USED <<EOF
$(free -m | awk '/Mem:/ {print $2 + 0, $3 + 0; found = 1} END {if (!found) print "0 0"}')
EOF
elif [ -r /proc/meminfo ]; then
read RAM_TOTAL RAM_USED <<EOF
$(awk '
  /^MemTotal:/ { total = int($2 / 1024) }
  /^MemAvailable:/ { available = int($2 / 1024) }
  END {
    if (total < 0) total = 0;
    if (available < 0) available = 0;
    used = total - available;
    if (used < 0) used = 0;
    print total, used;
  }
' /proc/meminfo)
EOF
fi
DISK_TOTAL=--
DISK_USED=--
DISK_PERCENT=0
if command -v df >/dev/null 2>&1; then
read DISK_TOTAL DISK_USED DISK_PERCENT <<EOF
$(df -P -h / 2>/dev/null | awk 'NR==2 {gsub("%", "", $5); print $2, $3, $5 + 0; found = 1} END {if (!found) print "-- -- 0"}')
EOF
fi
LOAD_AVERAGE="0 0 0"
if [ -r /proc/loadavg ]; then
  LOAD_AVERAGE=$(awk '{print $1, $2, $3}' /proc/loadavg)
fi
LOAD1=$(printf '%s\n' "$LOAD_AVERAGE" | awk '{print $1}')
CPU_CORES=$(getconf _NPROCESSORS_ONLN 2>/dev/null || nproc 2>/dev/null || awk '/^processor[[:space:]]*:/ {count++} END {print count + 0}' /proc/cpuinfo 2>/dev/null)
CPU_CORES=$(printf '%s\n' "$CPU_CORES" | awk 'NR==1 && $1 ~ /^[0-9]+$/ && $1 > 0 {print $1}')
if [ -z "$CPU_CORES" ]; then CPU_CORES=1; fi
CPU=$(awk -v load_value="$LOAD1" -v cores="$CPU_CORES" 'BEGIN { if (cores <= 0 || load_value < 0) exit 1; printf "%.1f", (load_value / cores) * 100; }')
if ! printf '%s\n' "$CPU" | awk '/^[0-9]+([.][0-9]+)?$/ { ok = 1 } END { exit ok ? 0 : 1 }'; then CPU=; fi
UPTIME_SEC=0
if [ -r /proc/uptime ]; then
  UPTIME_SEC=$(awk '{printf "%.0f", $1}' /proc/uptime)
fi
RX_BYTES=0
TX_BYTES=0
if [ -r /proc/net/dev ]; then
read RX_BYTES TX_BYTES <<EOF
$(awk 'NR>2 {
  iface = $1; gsub(":", "", iface);
  if (iface == "lo") next;
  fallback_rx += $2; fallback_tx += $10;
  if (iface ~ /^(eth|ens|enp|eno|em|p[0-9]|en[0-9]|wl|wlan|wwan|venet|bond|team|tun|tap|wg)/) {
    rx += $2; tx += $10; matched += 1;
  }
} END { if (matched > 0) printf "%.0f %.0f\n", rx, tx; else printf "%.0f %.0f\n", fallback_rx, fallback_tx; }' /proc/net/dev)
EOF
fi
printf 'cpu_percent=%s\n' "$CPU"
printf 'cpu_cores=%s\n' "$CPU_CORES"
printf 'ram_total_mb=%s\n' "$RAM_TOTAL"
printf 'ram_used_mb=%s\n' "$RAM_USED"
printf 'disk_total=%s\n' "$DISK_TOTAL"
printf 'disk_used=%s\n' "$DISK_USED"
printf 'disk_percent=%s\n' "$DISK_PERCENT"
printf 'load_average=%s\n' "$LOAD_AVERAGE"
printf 'uptime_sec=%s\n' "$UPTIME_SEC"
printf 'rx_bytes=%s\n' "$RX_BYTES"
printf 'tx_bytes=%s\n' "$TX_BYTES"
printf 'total_rx_bytes=%s\n' "$RX_BYTES"
printf 'total_tx_bytes=%s\n' "$TX_BYTES"
GOOGLE_204_MS=
if command -v curl >/dev/null 2>&1; then
  GOOGLE_204_MS=$(curl -o /dev/null -s -w '%{time_total}' --max-time 8 https://www.google.com/generate_204 2>/dev/null | awk '{ if ($1 ~ /^[0-9]+([.][0-9]+)?$/) printf "%.1f", $1 * 1000 }')
elif command -v wget >/dev/null 2>&1; then
  GOOGLE_204_MS=$({ start=$(date +%s%3N 2>/dev/null || date +%s000); wget -q -T 8 -O /dev/null https://www.google.com/generate_204 >/dev/null 2>&1 && end=$(date +%s%3N 2>/dev/null || date +%s000) && awk -v start="$start" -v end="$end" 'BEGIN { printf "%.1f", end - start }'; } || true)
fi
printf 'google_204_ms=%s\n' "$GOOGLE_204_MS"
'''

def utc_now():
    return datetime.now(timezone.utc).isoformat().replace("+00:00", "Z")

def load_json(path, fallback):
    try:
        with open(path, "r", encoding="utf-8") as handle:
            return json.load(handle)
    except Exception:
        return fallback

def save_json(path, value):
    tmp = pathlib.Path(str(path) + ".tmp")
    with open(tmp, "w", encoding="utf-8") as handle:
        json.dump(value, handle, ensure_ascii=False, indent=2)
    os.replace(tmp, path)

def parse_float(value, default=0.0):
    try:
        return float(str(value).strip().replace(",", "."))
    except Exception:
        return default

def parse_int(value, default=0):
    try:
        return int(float(str(value).strip()))
    except Exception:
        return default

def round_one(value):
    return round(float(value), 1)

def format_uptime(seconds):
    seconds = int(seconds)
    days = seconds // 86400
    hours = (seconds % 86400) // 3600
    minutes = (seconds % 3600) // 60
    if days > 0:
        return f"{days}d {hours}h"
    if hours > 0:
        return f"{hours}h {minutes}m"
    return f"{minutes}m"

def parse_metrics(server_id, output, ping_ms):
    values = {}
    for line in output.splitlines():
        if "=" in line:
            key, value = line.split("=", 1)
            values[key.strip()] = value.strip()
    load = [parse_float(item) for item in values.get("load_average", "0 0 0").split()[:3]]
    while len(load) < 3:
        load.append(0.0)
    cores = max(1, parse_int(values.get("cpu_cores"), 1))
    cpu = parse_float(values.get("cpu_percent"), (load[0] / cores) * 100.0)
    ram_total = parse_int(values.get("ram_total_mb"))
    ram_used = parse_int(values.get("ram_used_mb"))
    ram_percent = (ram_used / ram_total * 100.0) if ram_total else 0.0
    rx = parse_int(values.get("rx_bytes"))
    tx = parse_int(values.get("tx_bytes"))
    total_rx = parse_int(values.get("total_rx_bytes"), rx)
    total_tx = parse_int(values.get("total_tx_bytes"), tx)
    uptime_sec = parse_int(values.get("uptime_sec"))
    return {
        "serverId": server_id,
        "timestamp": utc_now(),
        "cpuPercent": round_one(max(0.0, cpu)),
        "ramUsedMb": ram_used,
        "ramTotalMb": ram_total,
        "ramPercent": round_one(max(0.0, min(100.0, ram_percent))),
        "diskUsed": values.get("disk_used") or "--",
        "diskTotal": values.get("disk_total") or "--",
        "diskPercent": round_one(max(0.0, min(100.0, parse_float(values.get("disk_percent"))))),
        "loadAverage": [round_one(item) for item in load[:3]],
        "uptimeSec": uptime_sec,
        "uptime": format_uptime(uptime_sec),
        "rxBytes": rx,
        "txBytes": tx,
        "totalRxBytes": total_rx,
        "totalTxBytes": total_tx,
        "totalTrafficBytes": total_rx + total_tx,
        "pingMs": round_one(parse_float(values.get("google_204_ms"), ping_ms)) if values.get("google_204_ms") or ping_ms is not None else None,
        "isOnline": True,
    }

def same_endpoint(server, host, port, user):
    return (
        str(server.get("host", "")).strip().lower() == str(host or "").strip().lower()
        and int(server.get("sshPort") or 22) == int(port or 22)
        and str(server.get("sshUser", "")).strip() == str(user or "").strip()
    )

def is_monitor_server(config, server):
    return server.get("id") == config.get("monitorServerId") or same_endpoint(
        server,
        config.get("monitorHost"),
        config.get("monitorPort") or 22,
        config.get("monitorUser"),
    )

def bastion_is_monitor(config, server):
    host = (server.get("bastionHost") or "").strip()
    if not host:
        return False
    return (
        host.lower() == str(config.get("monitorHost") or "").strip().lower()
        and int(server.get("bastionPort") or 22) == int(config.get("monitorPort") or 22)
        and str(server.get("bastionUser") or server.get("sshUser") or "").strip() == str(config.get("monitorUser") or "").strip()
    )

def ssh_command(config, server):
    args = [
        "ssh",
        "-o", "BatchMode=yes",
        "-o", "StrictHostKeyChecking=accept-new",
        "-o", "ConnectTimeout=8",
        "-o", "ServerAliveInterval=5",
        "-o", "ServerAliveCountMax=1",
        "-p", str(server.get("sshPort") or 22),
    ]
    key_path = (server.get("sshKeyPath") or "").strip()
    if key_path:
        args += ["-i", key_path, "-o", "IdentitiesOnly=yes"]
    bastion_host = (server.get("bastionHost") or "").strip()
    if bastion_host and not bastion_is_monitor(config, server):
        bastion_user = (server.get("bastionUser") or server.get("sshUser") or "root").strip()
        bastion_port = int(server.get("bastionPort") or 22)
        bastion_key = (server.get("bastionSshKeyPath") or "").strip()
        if bastion_key:
            proxy = "ssh -W %h:%p -o BatchMode=yes -o StrictHostKeyChecking=accept-new -p {} -i {} -o IdentitiesOnly=yes {}".format(
                bastion_port,
                shlex.quote(bastion_key),
                shlex.quote(f"{bastion_user}@{bastion_host}"),
            )
            args += ["-o", f"ProxyCommand={proxy}"]
        else:
            args += ["-o", f"ProxyJump={bastion_user}@{bastion_host}:{bastion_port}"]
    args.append(f"{server.get('sshUser') or 'root'}@{server.get('host')}")
    return args

def run_metrics(config, server):
    started = time.monotonic()
    if is_monitor_server(config, server):
        result = subprocess.run(["/bin/sh", "-lc", METRICS_SCRIPT], capture_output=True, text=True, timeout=25)
    else:
        result = subprocess.run(ssh_command(config, server) + [METRICS_SCRIPT], capture_output=True, text=True, timeout=35)
    if result.returncode != 0:
        raise RuntimeError((result.stderr or result.stdout or "ssh failed").strip())
    return parse_metrics(server.get("id"), result.stdout, (time.monotonic() - started) * 1000.0)

def offline_point(server_id, previous=None):
    previous = previous or {}
    rx = int(previous.get("totalRxBytes") or previous.get("rxBytes") or 0)
    tx = int(previous.get("totalTxBytes") or previous.get("txBytes") or 0)
    return {
        "serverId": server_id,
        "timestamp": utc_now(),
        "cpuPercent": 0,
        "ramUsedMb": 0,
        "ramTotalMb": 0,
        "ramPercent": 0,
        "diskUsed": previous.get("diskUsed") or "--",
        "diskTotal": previous.get("diskTotal") or "--",
        "diskPercent": 0,
        "loadAverage": [0, 0, 0],
        "uptimeSec": 0,
        "uptime": "Offline",
        "rxBytes": rx,
        "txBytes": tx,
        "totalRxBytes": rx,
        "totalTxBytes": tx,
        "totalTrafficBytes": rx + tx,
        "pingMs": None,
        "isOnline": False,
    }

def push_event(events, level, kind, server, message):
    events.insert(0, {
        "id": f"{int(time.time() * 1000)}-{server.get('id')}-{kind}",
        "level": level,
        "kind": kind,
        "serverId": server.get("id"),
        "serverName": server.get("name"),
        "message": message,
        "timestamp": utc_now(),
    })
    del events[MAX_EVENTS:]

def main():
    DATA_DIR.mkdir(parents=True, exist_ok=True)
    config = load_json(CONFIG_PATH, {})
    cache = load_json(METRICS_PATH, {})
    events = load_json(EVENTS_PATH, [])
    runtime = load_json(RUNTIME_PATH, {"downServers": [], "highCpuSince": {}, "highCpuAlerted": [], "failCounts": {}})
    down = set(runtime.get("downServers") or [])
    high_since = dict(runtime.get("highCpuSince") or {})
    high_alerted = set(runtime.get("highCpuAlerted") or [])
    fail_counts = dict(runtime.get("failCounts") or {})
    now = time.time()

    for server in config.get("servers") or []:
        server_id = server.get("id")
        if not server_id:
            continue
        history = cache.get(server_id) or []
        previous = history[-1] if history else None
        try:
            point = run_metrics(config, server)
            fail_counts.pop(server_id, None)
            if server_id in down:
                down.remove(server_id)
            if point.get("cpuPercent", 0) > 90:
                high_since.setdefault(server_id, now)
                if now - float(high_since.get(server_id) or now) >= 60 and server_id not in high_alerted:
                    high_alerted.add(server_id)
                    push_event(events, "warn", "cpu_high", server, f"{server.get('name')} CPU has been above 90% for more than 60 sec ({point.get('cpuPercent'):.1f}%)")
            else:
                high_since.pop(server_id, None)
                high_alerted.discard(server_id)
        except Exception as error:
            fail_count = int(fail_counts.get(server_id) or 0) + 1
            fail_counts[server_id] = fail_count
            if fail_count < 2:
                continue
            point = offline_point(server_id, previous)
            if server_id not in down:
                down.add(server_id)
                push_event(events, "error", "server_down", server, f"{server.get('name')} is unavailable from monitor: {error}")
            high_since.pop(server_id, None)
            high_alerted.discard(server_id)
        history.append(point)
        cache[server_id] = history[-MAX_POINTS_PER_SERVER:]

    runtime = {
        "downServers": sorted(down),
        "highCpuSince": high_since,
        "highCpuAlerted": sorted(high_alerted),
        "failCounts": fail_counts,
    }
    save_json(METRICS_PATH, cache)
    save_json(EVENTS_PATH, events[:MAX_EVENTS])
    save_json(RUNTIME_PATH, runtime)

if __name__ == "__main__":
    main()
"#;

/// The monitor agent's program text.
pub fn agent_script() -> (r: &'static str)
    ensures
        r@ == AGENT_SCRIPT@,
{
    AGENT_SCRIPT
}

/// The Python program that removes a server from the monitor, up to the
/// place of the server's id.
pub const DELETE_SCRIPT_HEAD: &'static str = r#"
import json
import os
import pathlib

SERVER_ID = "#;

/// The rest of the program, after the server's id.
pub const DELETE_SCRIPT_TAIL: &'static str = r#"
CONFIG_PATH = pathlib.Path("/etc/nodenet-monitor/config.json")
DATA_DIR = pathlib.Path("/var/lib/nodenet-monitor")
METRICS_PATH = DATA_DIR / "metrics-cache.json"
EVENTS_PATH = DATA_DIR / "events.json"
RUNTIME_PATH = DATA_DIR / "runtime.json"
KEYS_DIR = DATA_DIR / "keys"

def load_json(path, fallback):
    try:
        with open(path, "r", encoding="utf-8") as handle:
            return json.load(handle)
    except Exception:
        return fallback

def save_json(path, value):
    path.parent.mkdir(parents=True, exist_ok=True)
    tmp = pathlib.Path(str(path) + ".tmp")
    with open(tmp, "w", encoding="utf-8") as handle:
        json.dump(value, handle, ensure_ascii=False, indent=2)
    os.replace(tmp, path)

def sanitize(value):
    cleaned = "".join(character if (character.isascii() and character.isalnum()) or character in "._-" else "_" for character in value)
    cleaned = cleaned.strip("._-")
    return cleaned or "server"

config = load_json(CONFIG_PATH, {"servers": []})
servers = config.get("servers") if isinstance(config.get("servers"), list) else []
before = len(servers)
config["servers"] = [server for server in servers if str(server.get("id") or "") != SERVER_ID]
removed = before - len(config["servers"])
save_json(CONFIG_PATH, config)

metrics = load_json(METRICS_PATH, {})
if isinstance(metrics, dict):
    metrics.pop(SERVER_ID, None)
    save_json(METRICS_PATH, metrics)

events = load_json(EVENTS_PATH, [])
if isinstance(events, list):
    events = [event for event in events if str(event.get("serverId") or "") != SERVER_ID]
    save_json(EVENTS_PATH, events)

runtime = load_json(RUNTIME_PATH, {})
if isinstance(runtime, dict):
    down = runtime.get("downServers")
    if isinstance(down, list):
        runtime["downServers"] = [item for item in down if str(item) != SERVER_ID]
    high_since = runtime.get("highCpuSince")
    if isinstance(high_since, dict):
        high_since.pop(SERVER_ID, None)
    high_alerted = runtime.get("highCpuAlerted")
    if isinstance(high_alerted, list):
        runtime["highCpuAlerted"] = [item for item in high_alerted if str(item) != SERVER_ID]
    fail_counts = runtime.get("failCounts")
    if isinstance(fail_counts, dict):
        fail_counts.pop(SERVER_ID, None)
    save_json(RUNTIME_PATH, runtime)

safe_id = sanitize(SERVER_ID)
for suffix in ("target", "bastion"):
    key_path = KEYS_DIR / f"{safe_id}-{suffix}"
    try:
        key_path.unlink()
    except FileNotFoundError:
        pass

print(f"Removed {removed} monitor server record(s) for {SERVER_ID}")
"#;


// ---------------------------------------------------------------------
// JSON text
// ---------------------------------------------------------------------

/// `c` escaped inside a JSON string, as `serde_json` writes it: `"` and
/// `\` with a backslash, the control characters with their short escapes
/// or as `\u00XX` in lower-case hexadecimal, everything else as it is.
pub open spec fn json_escape_char(c: char) -> Seq<char> {
    if c == '"' {
        seq!['\\', '"']
    } else if c == '\\' {
        seq!['\\', '\\']
    } else if c == '\u{8}' {
        seq!['\\', 'b']
    } else if c == '\u{c}' {
        seq!['\\', 'f']
    } else if c == '\n' {
        seq!['\\', 'n']
    } else if c == '\r' {
        seq!['\\', 'r']
    } else if c == '\t' {
        seq!['\\', 't']
    } else if (c as u32) < 0x20 {
        seq!['\\', 'u', '0', '0', hex_lower((c as u32) / 16), hex_lower((c as u32) % 16)]
    } else {
        seq![c]
    }
}

pub open spec fn hex_lower(d: u32) -> char {
    if d < 10 {
        (d + 48) as char
    } else {
        (d + 87) as char
    }
}

pub open spec fn json_escape(s: Seq<char>) -> Seq<char>
    decreases s.len(),
{
    if s.len() == 0 {
        seq![]
    } else {
        json_escape(s.drop_last()) + json_escape_char(s.last())
    }
}

/// A string as a JSON string literal.
pub open spec fn json_quoted(s: Seq<char>) -> Seq<char> {
    seq!['"'] + json_escape(s) + seq!['"']
}

fn hex_lower_exec(d: u32) -> (c: char)
    requires
        d < 16,
    ensures
        c == hex_lower(d),
{
    if d < 10 {
        ((d + 48) as u8) as char
    } else {
        ((d + 87) as u8) as char
    }
}

fn push_json_escaped_char(out: &mut String, c: char)
    ensures
        final(out)@ == old(out)@ + json_escape_char(c),
{
    let ghost o = out@;
    if c == '"' || c == '\\' {
        push_char(out, '\\');
        push_char(out, c);
        assert(out@ =~= o + json_escape_char(c));
    } else if c == '\u{8}' || c == '\u{c}' || c == '\n' || c == '\r' || c == '\t' {
        let e = if c == '\u{8}' {
            'b'
        } else if c == '\u{c}' {
            'f'
        } else if c == '\n' {
            'n'
        } else if c == '\r' {
            'r'
        } else {
            't'
        };
        push_char(out, '\\');
        push_char(out, e);
        assert(out@ =~= o + json_escape_char(c));
    } else if (c as u32) < 0x20 {
        let n = c as u32;
        push_char(out, '\\');
        push_char(out, 'u');
        push_char(out, '0');
        push_char(out, '0');
        push_char(out, hex_lower_exec(n / 16));
        push_char(out, hex_lower_exec(n % 16));
        assert(out@ =~= o + json_escape_char(c));
    } else {
        push_char(out, c);
        assert(out@ =~= o + json_escape_char(c));
    }
}

pub fn json_quote(s: &str) -> (r: String)
    ensures
        r@ == json_quoted(s@),
{
    let v = chars_of(s);
    let mut r = copy_str("\"");
    proof {
        reveal_strlit("\"");
        assert(v@.subrange(0, 0) =~= Seq::<char>::empty());
        assert(r@ =~= seq!['"'] + json_escape(v@.subrange(0, 0)));
    }
    let mut i: usize = 0;
    while i < v.len()
        invariant
            v@ == s@,
            i <= v@.len(),
            r@ == seq!['"'] + json_escape(v@.subrange(0, i as int)),
        decreases v.len() - i,
    {
        push_json_escaped_char(&mut r, v[i]);
        i = i + 1;
        assert(v@.subrange(0, i as int).drop_last() =~= v@.subrange(0, i - 1));
    }
    push_char(&mut r, '"');
    assert(v@.subrange(0, v@.len() as int) =~= v@);
    r
}

/// A JSON field as the monitor's files are read: a string, trimmed, and
/// none when blank.
pub open spec fn json_text(raw: Option<Seq<char>>) -> Option<Seq<char>> {
    match raw {
        Some(t) => if trim(t).len() > 0 {
            Some(trim(t))
        } else {
            None
        },
        None => None,
    }
}

pub fn json_text_exec(raw: Option<&str>) -> (r: Option<String>)
    ensures
        opt_view(r) == json_text(
            match raw {
                Some(t) => Some(t@),
                None => None,
            },
        ),
{
    match raw {
        Some(t) => {
            let s = trim_str(t);
            if s.as_str().is_empty() {
                None
            } else {
                Some(s)
            }
        },
        None => None,
    }
}

/// The JSON text in a command's output when the output is not JSON as a
/// whole: from the first `open` to the last `close` of the trimmed output;
/// none when there is no such span.
pub open spec fn json_slice_spec(raw: Seq<char>, open: char, close: char) -> Option<Seq<char>> {
    let t = trim(raw);
    if has_char(t, open) && has_char(t, close) {
        let start = choose|i: int| is_first_char(t, open, i);
        let end = choose|i: int| is_last_char(t, close, i);
        if end <= start {
            None
        } else {
            Some(t.subrange(start, end + 1))
        }
    } else {
        None
    }
}

pub fn json_slice(raw: &str, open: char, close: char) -> (r: Option<String>)
    ensures
        opt_view(r) == json_slice_spec(raw@, open, close),
{
    let t = trim_str(raw);
    let v = chars_of(t.as_str());
    let n = v.len();
    let start = match find_char(&v, open) {
        Some(i) => i,
        None => {
            return None;
        },
    };
    let end = match rfind_char(&v, close) {
        Some(i) => i,
        None => {
            return None;
        },
    };
    proof {
        let a = choose|i: int| is_first_char(v@, open, i);
        lemma_first_char_unique(v@, open, start as int, a);
        let b = choose|i: int| is_last_char(v@, close, i);
        lemma_last_char_unique(v@, close, end as int, b);
    }
    if end <= start {
        None
    } else {
        assert(end < n);
        Some(string_of_range(&v, start, end + 1))
    }
}

// ---------------------------------------------------------------------
// The monitor's own records
// ---------------------------------------------------------------------

/// The `sshPort` of a server in the monitor's configuration.
#[derive(Debug)]
pub enum PortField {
    /// A number that is a non-negative integer.
    Unsigned(u64),
    /// A string.
    Text(String),
    /// Anything else.
    Other,
}

/// The port: a number or a numeric string that fits a port, else 22.
pub open spec fn port_of(f: Option<PortField>) -> u16 {
    let n: Option<u64> = match f {
        Some(PortField::Unsigned(n)) => Some(n),
        Some(PortField::Text(t)) => parse_u64_spec(t@),
        _ => None,
    };
    match n {
        Some(v) => if v <= 65535 {
            v as u16
        } else {
            22
        },
        None => 22,
    }
}

pub fn saved_server_port(f: &Option<PortField>) -> (r: u16)
    ensures
        r == port_of(*f),
{
    let n: Option<u64> = match f {
        Some(PortField::Unsigned(n)) => Some(*n),
        Some(PortField::Text(t)) => parse_u64_str(t.as_str()),
        _ => None,
    };
    match n {
        Some(v) => if v <= 65535 {
            v as u16
        } else {
            22
        },
        None => 22,
    }
}

/// The string fields of a server in the monitor's configuration, as the
/// JSON holds them (none where a field is missing or not a string).
#[derive(Debug)]
pub struct SavedServerFields {
    pub id: Option<String>,
    pub name: Option<String>,
    pub host: Option<String>,
    pub ssh_user: Option<String>,
    pub country: Option<String>,
    pub panel_url: Option<String>,
    pub ssh_key_path: Option<String>,
    pub ssh_port: Option<PortField>,
}

pub open spec fn or_text(o: Option<Seq<char>>, d: Seq<char>) -> Seq<char> {
    match o {
        Some(v) => v,
        None => d,
    }
}

/// A server of the monitor's configuration as the application lists it:
/// none without an id; its name defaults to the id, its user to `root`,
/// its country to `US`; it is marked when the local configuration has a
/// server of the same id.
pub open spec fn is_saved_server(f: SavedServerFields, servers: Seq<ServerConfig>, r: Option<MonitorSavedServer>) -> bool {
    match json_text(opt_view(f.id)) {
        None => r is None,
        Some(id) => r matches Some(s) && {
            &&& s.id@ == id
            &&& s.name@ == or_text(json_text(opt_view(f.name)), id)
            &&& s.host@ == or_text(json_text(opt_view(f.host)), seq![])
            &&& s.ssh_port == port_of(f.ssh_port)
            &&& s.ssh_user@ == or_text(json_text(opt_view(f.ssh_user)), "root"@)
            &&& s.country@ == or_text(json_text(opt_view(f.country)), "US"@)
            &&& opt_view(s.panel_url) == json_text(opt_view(f.panel_url))
            &&& opt_view(s.ssh_key_path) == json_text(opt_view(f.ssh_key_path))
            &&& s.has_local_config == has_key(servers, id)
        },
    }
}

fn text_field_of(o: &Option<String>) -> (r: Option<String>)
    ensures
        opt_view(r) == json_text(opt_view(*o)),
{
    match o {
        Some(t) => json_text_exec(Some(t.as_str())),
        None => None,
    }
}

pub fn monitor_saved_server(fields: &SavedServerFields, config: &AppConfig) -> (r: Option<MonitorSavedServer>)
    ensures
        is_saved_server(*fields, config.servers@, r),
{
    let id = match text_field_of(&fields.id) {
        Some(id) => id,
        None => {
            return None;
        },
    };
    let name = match text_field_of(&fields.name) {
        Some(n) => n,
        None => id.clone(),
    };
    let host = match text_field_of(&fields.host) {
        Some(h) => h,
        None => String::new(),
    };
    let ssh_user = match text_field_of(&fields.ssh_user) {
        Some(u) => u,
        None => copy_str("root"),
    };
    let country = match text_field_of(&fields.country) {
        Some(c) => c,
        None => copy_str("US"),
    };
    let has_local_config = crate::registry::contains_key(&config.servers, id.as_str());
    Some(MonitorSavedServer {
        ssh_port: saved_server_port(&fields.ssh_port),
        panel_url: text_field_of(&fields.panel_url),
        ssh_key_path: text_field_of(&fields.ssh_key_path),
        id,
        name,
        host,
        ssh_user,
        country,
        has_local_config,
    })
}

/// The instant of an RFC 3339 time stamp, in milliseconds since the Unix
/// epoch, as `chrono` reads it; none when it does not parse.
pub uninterp spec fn rfc3339_millis(text: Seq<char>) -> Option<i64>;

/// `DateTime::parse_from_rfc3339(text)` in milliseconds since the epoch.
/// The contract names the result: `chrono`'s reading of the format is not
/// restated.
#[verifier::external_body]
pub(crate) fn parse_rfc3339_millis(text: &str) -> (r: Option<i64>)
    ensures
        r == rfc3339_millis(text@),
{
    match chrono::DateTime::parse_from_rfc3339(text) {
        Ok(t) => Some(t.timestamp_millis()),
        Err(_) => None,
    }
}

/// The string fields of an event in the monitor's log (none where a field
/// is missing or not a string).
#[derive(Debug)]
pub struct MonitorEventFields {
    pub id: Option<String>,
    pub level: Option<String>,
    pub kind: Option<String>,
    pub server_id: Option<String>,
    pub server_name: Option<String>,
    pub message: Option<String>,
    pub timestamp: Option<String>,
}

/// `e` is the event of the monitor's log described by `fields`: a missing
/// id is replaced by a fresh one, the level defaults to `info`, the kind to
/// `monitor`, the time to now.
pub open spec fn is_monitor_event(fields: MonitorEventFields, e: AlertEvent) -> bool {
    &&& json_text(opt_view(fields.message)) == Some(e.message@)
    &&& match json_text(opt_view(fields.id)) {
        Some(id) => e.id@ == id,
        None => is_hyphenated_id(e.id@),
    }
    &&& e.level@ == or_text(json_text(opt_view(fields.level)), "info"@)
    &&& e.kind@ == or_text(json_text(opt_view(fields.kind)), "monitor"@)
    &&& opt_view(e.server_id) == json_text(opt_view(fields.server_id))
    &&& opt_view(e.server_name) == json_text(opt_view(fields.server_name))
    &&& match json_text(opt_view(fields.timestamp)) {
        Some(t) => rfc3339_millis(t) matches Some(ms) ==> e.timestamp_ms == ms,
        None => true,
    }
}

/// An event of the monitor's log as the application shows it; none without
/// a message.
pub fn monitor_event(fields: &MonitorEventFields) -> (r: Option<AlertEvent>)
    ensures
        match r {
            Some(e) => is_monitor_event(*fields, e),
            None => json_text(opt_view(fields.message)) is None,
        },
{
    let message = match text_field_of(&fields.message) {
        Some(m) => m,
        None => {
            return None;
        },
    };
    let timestamp_ms = match text_field_of(&fields.timestamp) {
        Some(t) => match parse_rfc3339_millis(t.as_str()) {
            Some(ms) => ms,
            None => now_millis(),
        },
        None => now_millis(),
    };
    let id = match text_field_of(&fields.id) {
        Some(id) => id,
        None => new_hyphenated_id(),
    };
    let level = match text_field_of(&fields.level) {
        Some(l) => l,
        None => copy_str("info"),
    };
    let kind = match text_field_of(&fields.kind) {
        Some(k) => k,
        None => copy_str("monitor"),
    };
    Some(AlertEvent {
        id,
        level,
        kind,
        server_id: text_field_of(&fields.server_id),
        server_name: text_field_of(&fields.server_name),
        message,
        timestamp_ms,
    })
}

/// The entries of the monitor's log that have a message.
pub open spec fn with_message(items: Seq<MonitorEventFields>) -> Seq<MonitorEventFields>
    decreases items.len(),
{
    if items.len() == 0 {
        seq![]
    } else if json_text(opt_view(items.last().message)) is Some {
        with_message(items.drop_last()).push(items.last())
    } else {
        with_message(items.drop_last())
    }
}

/// The events of the monitor's log that have a message, in order.
pub fn monitor_events(items: &Vec<MonitorEventFields>) -> (r: Vec<AlertEvent>)
    ensures
        r@.len() == with_message(items@).len(),
        forall|i: int| 0 <= i < r@.len() ==> is_monitor_event(with_message(items@)[i], #[trigger] r@[i]),
{
    let mut r: Vec<AlertEvent> = Vec::new();
    let mut i: usize = 0;
    while i < items.len()
        invariant
            i <= items@.len(),
            r@.len() == with_message(items@.subrange(0, i as int)).len(),
            forall|k: int|
                0 <= k < r@.len() ==> is_monitor_event(
                    with_message(items@.subrange(0, i as int))[k],
                    #[trigger] r@[k],
                ),
        decreases items.len() - i,
    {
        let ghost now = items@.subrange(0, i + 1);
        assert(now.drop_last() =~= items@.subrange(0, i as int));
        assert(now.last() == items@[i as int]);
        if let Some(e) = monitor_event(&items[i]) {
            let ghost r0 = r@;
            r.push(e);
            assert forall|k: int| 0 <= k < r@.len() implies is_monitor_event(
                with_message(now)[k],
                #[trigger] r@[k],
            ) by {
                if k < r0.len() {
                    assert(r@[k] == r0[k]);
                }
            }
        }
        i = i + 1;
    }
    assert(items@.subrange(0, items@.len() as int) =~= items@);
    r
}

// ---------------------------------------------------------------------
// Installing and editing the monitor
// ---------------------------------------------------------------------

/// The temporary files the agent's files are uploaded to.
#[derive(Debug)]
pub struct AgentUpload {
    pub agent_tmp: String,
    pub config_tmp: String,
    pub service_tmp: String,
    pub timer_tmp: String,
}

pub fn agent_upload_paths(upload_id: &str) -> (r: AgentUpload)
    ensures
        r.agent_tmp@ == "/tmp/nodenet-monitor-agent-"@ + upload_id@ + ".py"@,
        r.config_tmp@ == "/tmp/nodenet-monitor-config-"@ + upload_id@ + ".json"@,
        r.service_tmp@ == "/tmp/nodenet-monitor-service-"@ + upload_id@ + ".service"@,
        r.timer_tmp@ == "/tmp/nodenet-monitor-timer-"@ + upload_id@ + ".timer"@,
{
    let mut agent_tmp = copy_str("/tmp/nodenet-monitor-agent-");
    push_str(&mut agent_tmp, upload_id);
    push_str(&mut agent_tmp, ".py");
    let mut config_tmp = copy_str("/tmp/nodenet-monitor-config-");
    push_str(&mut config_tmp, upload_id);
    push_str(&mut config_tmp, ".json");
    let mut service_tmp = copy_str("/tmp/nodenet-monitor-service-");
    push_str(&mut service_tmp, upload_id);
    push_str(&mut service_tmp, ".service");
    let mut timer_tmp = copy_str("/tmp/nodenet-monitor-timer-");
    push_str(&mut timer_tmp, upload_id);
    push_str(&mut timer_tmp, ".timer");
    AgentUpload { agent_tmp, config_tmp, service_tmp, timer_tmp }
}

/// The shell commands that move the uploaded files into place, move the
/// uploaded keys of this installation into the keys directory, and start
/// the agent's timer and service.
pub open spec fn install_command_spec(upload_id: Seq<char>) -> Seq<char> {
    "set -e\nSUDO=\"\"\nif [ \"$(id -u)\" -ne 0 ]; then SUDO=\"sudo\"; fi\n$SUDO mkdir -p /etc/nodenet-monitor /var/lib/nodenet-monitor\n$SUDO mkdir -p /var/lib/nodenet-monitor/keys\n$SUDO mv "@
        + single_quoted("/tmp/nodenet-monitor-agent-"@ + upload_id + ".py"@)
        + " /usr/local/bin/nodenet-monitor-agent\n$SUDO mv "@
        + single_quoted("/tmp/nodenet-monitor-config-"@ + upload_id + ".json"@)
        + " /etc/nodenet-monitor/config.json\n$SUDO mv "@
        + single_quoted("/tmp/nodenet-monitor-service-"@ + upload_id + ".service"@)
        + " /etc/systemd/system/nodenet-monitor.service\n$SUDO mv "@
        + single_quoted("/tmp/nodenet-monitor-timer-"@ + upload_id + ".timer"@)
        + " /etc/systemd/system/nodenet-monitor.timer\n$SUDO chmod 755 /usr/local/bin/nodenet-monitor-agent\n$SUDO chmod 644 /etc/nodenet-monitor/config.json /etc/systemd/system/nodenet-monitor.service /etc/systemd/system/nodenet-monitor.timer\nfor key_tmp in /tmp/nodenet-monitor-key-*."@
        + upload_id
        + ".tmp; do\n  [ -e \"$key_tmp\" ] || continue\n  key_name=$(basename \"$key_tmp\")\n  key_name=${key_name#nodenet-monitor-key-}\n  key_name=${key_name%."@
        + upload_id
        + ".tmp}\n  $SUDO mv \"$key_tmp\" \"/var/lib/nodenet-monitor/keys/$key_name\"\n  $SUDO chmod 600 \"/var/lib/nodenet-monitor/keys/$key_name\"\ndone\n$SUDO systemctl daemon-reload\n$SUDO systemctl enable --now nodenet-monitor.timer\n$SUDO systemctl start nodenet-monitor.service\n$SUDO systemctl status nodenet-monitor.service --no-pager --lines=0 || true\n"@
}

pub fn install_command(upload_id: &str) -> (r: String)
    ensures
        r@ == install_command_spec(upload_id@),
{
    let paths = agent_upload_paths(upload_id);
    let mut r = copy_str(
        "set -e\nSUDO=\"\"\nif [ \"$(id -u)\" -ne 0 ]; then SUDO=\"sudo\"; fi\n$SUDO mkdir -p /etc/nodenet-monitor /var/lib/nodenet-monitor\n$SUDO mkdir -p /var/lib/nodenet-monitor/keys\n$SUDO mv ",
    );
    push_str(&mut r, shell_single_quote(paths.agent_tmp.as_str()).as_str());
    push_str(&mut r, " /usr/local/bin/nodenet-monitor-agent\n$SUDO mv ");
    push_str(&mut r, shell_single_quote(paths.config_tmp.as_str()).as_str());
    push_str(&mut r, " /etc/nodenet-monitor/config.json\n$SUDO mv ");
    push_str(&mut r, shell_single_quote(paths.service_tmp.as_str()).as_str());
    push_str(&mut r, " /etc/systemd/system/nodenet-monitor.service\n$SUDO mv ");
    push_str(&mut r, shell_single_quote(paths.timer_tmp.as_str()).as_str());
    push_str(
        &mut r,
        " /etc/systemd/system/nodenet-monitor.timer\n$SUDO chmod 755 /usr/local/bin/nodenet-monitor-agent\n$SUDO chmod 644 /etc/nodenet-monitor/config.json /etc/systemd/system/nodenet-monitor.service /etc/systemd/system/nodenet-monitor.timer\nfor key_tmp in /tmp/nodenet-monitor-key-*.",
    );
    push_str(&mut r, upload_id);
    push_str(
        &mut r,
        ".tmp; do\n  [ -e \"$key_tmp\" ] || continue\n  key_name=$(basename \"$key_tmp\")\n  key_name=${key_name#nodenet-monitor-key-}\n  key_name=${key_name%.",
    );
    push_str(&mut r, upload_id);
    push_str(
        &mut r,
        ".tmp}\n  $SUDO mv \"$key_tmp\" \"/var/lib/nodenet-monitor/keys/$key_name\"\n  $SUDO chmod 600 \"/var/lib/nodenet-monitor/keys/$key_name\"\ndone\n$SUDO systemctl daemon-reload\n$SUDO systemctl enable --now nodenet-monitor.timer\n$SUDO systemctl start nodenet-monitor.service\n$SUDO systemctl status nodenet-monitor.service --no-pager --lines=0 || true\n",
    );
    r
}

/// The poll interval the agent runs at: the configured one, at least five
/// seconds.
pub fn agent_poll_interval(config: &AppConfig) -> (r: u64)
    ensures
        r == if config.poll_interval_sec < 5 {
            5
        } else {
            config.poll_interval_sec
        },
{
    if config.poll_interval_sec < 5 {
        5
    } else {
        config.poll_interval_sec
    }
}

/// The shell commands that remove a server from the monitor: its record,
/// its samples, its events, its state and its keys.
pub open spec fn delete_saved_server_command_spec(server_id: Seq<char>) -> Seq<char> {
    "set -e\nSUDO=\"\"\nif [ \"$(id -u)\" -ne 0 ]; then SUDO=\"sudo\"; fi\n$SUDO python3 - <<'PY'\n"@
        + DELETE_SCRIPT_HEAD@ + json_quoted(server_id) + DELETE_SCRIPT_TAIL@
        + "\nPY\n$SUDO systemctl start nodenet-monitor.service >/dev/null 2>&1 || true\n"@
}

pub fn delete_saved_server_command(server_id: &str) -> (r: String)
    ensures
        r@ == delete_saved_server_command_spec(server_id@),
{
    let mut r = copy_str(
        "set -e\nSUDO=\"\"\nif [ \"$(id -u)\" -ne 0 ]; then SUDO=\"sudo\"; fi\n$SUDO python3 - <<'PY'\n",
    );
    push_str(&mut r, DELETE_SCRIPT_HEAD);
    push_str(&mut r, json_quote(server_id).as_str());
    push_str(&mut r, DELETE_SCRIPT_TAIL);
    push_str(&mut r, "\nPY\n$SUDO systemctl start nodenet-monitor.service >/dev/null 2>&1 || true\n");
    r
}

/// The monitor's configuration file, and what reading it gives when it does
/// not exist yet.
pub fn monitor_config_read_command() -> (r: String)
    ensures
        r@ == read_remote_file_command_spec("/etc/nodenet-monitor/config.json"@, "{\"servers\":[]}"@),
{
    read_remote_file_command("/etc/nodenet-monitor/config.json", "{\"servers\":[]}")
}

/// The monitor's metrics history, `{}` when there is none yet.
pub fn monitor_metrics_read_command() -> (r: String)
    ensures
        r@ == read_remote_file_command_spec("/var/lib/nodenet-monitor/metrics-cache.json"@, "{}"@),
{
    read_remote_file_command("/var/lib/nodenet-monitor/metrics-cache.json", "{}")
}

/// The monitor's event log, `[]` when there is none yet.
pub fn monitor_events_read_command() -> (r: String)
    ensures
        r@ == read_remote_file_command_spec("/var/lib/nodenet-monitor/events.json"@, "[]"@),
{
    read_remote_file_command("/var/lib/nodenet-monitor/events.json", "[]")
}

} // verus!
