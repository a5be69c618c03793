//! What holds of the library as a whole: of the configuration's edits, of
//! the choice of the monitor host, of the alert poller's reports and its
//! log, of the routing rules, of the monitor's samples and the state it
//! reports, of the uptime shown, of client extensions, of the SSH command
//! lines, of share links' queries and of where the application keeps its
//! files.
use vstd::prelude::*;
use crate::alerts::{cpu_step, logged, ping_step, usage_step, AlertEvent, HIGH_CPU_MS, MAX_EVENTS};
use crate::config::{clean_id, monitor_target_outcome, opt_view, AppConfig, ConfigError, ServerConfig, BastionConfig};
use crate::monitor::{is_fresh_spec, is_latest_fresh, is_monitor_server_result, stable_choice, MetricSample};
use crate::registry::{
    has_key, lemma_lookup_remove, lemma_lookup_remove_other, lemma_lookup_some, lemma_lookup_upsert,
    lemma_lookup_upsert_other, lookup, remove_key, upsert,
};
use crate::three_x_ui::{api_rule_position_spec, is_api_rule_spec, key_le, RoutingRule};
use crate::text::lemma_trim_idempotent;
use crate::terminal::{first_reconnect_delay, max_reconnect_delay, next_delay};
use crate::metrics::uptime_text;
use crate::monitor::{has_fresh, lemma_latest_fresh_unique, monitor_ping_spec};
use crate::three_x_ui::{
    build_query_spec, extended_expiry_spec, fingerprint_spec, insert_by_key, join_query, link_params_spec,
    push_if, query_part, sort_by_key, tls_sni_spec, ExtendError, LinkClient, LinkStream,
};
use crate::ssh::expand_tilde_spec;
use crate::ssh_args::{master_args, plain_transfer_args, run_args, target_arg, transfer_args, Keepalive};
use crate::text::decimal;

verus! {

// ---------------------------------------------------------------------
// The configuration
// ---------------------------------------------------------------------

/// After a server is added or replaced, looking up its id gives it back,
/// and every other id gives what it gave before.
pub proof fn law_server_upsert_then_find(servers: Seq<ServerConfig>, server: ServerConfig, other: Seq<char>)
    ensures
        lookup(upsert(servers, server), server.id@) == Some(server),
        other != server.id@ ==> lookup(upsert(servers, server), other) == lookup(servers, other),
{
    lemma_lookup_upsert(servers, server);
    if other != server.id@ {
        lemma_lookup_upsert_other(servers, server, other);
    }
}

/// The same of bastions.
pub proof fn law_bastion_upsert_then_find(bastions: Seq<BastionConfig>, bastion: BastionConfig, other: Seq<char>)
    ensures
        lookup(upsert(bastions, bastion), bastion.id@) == Some(bastion),
        other != bastion.id@ ==> lookup(upsert(bastions, bastion), other) == lookup(bastions, other),
{
    lemma_lookup_upsert(bastions, bastion);
    if other != bastion.id@ {
        lemma_lookup_upsert_other(bastions, bastion, other);
    }
}

/// After a server is deleted, no server has its id, and every other id
/// gives what it gave before.
pub proof fn law_server_delete_then_find(servers: Seq<ServerConfig>, id: Seq<char>, other: Seq<char>)
    ensures
        lookup(remove_key(servers, id), id) is None,
        !has_key(remove_key(servers, id), id),
        other != id ==> lookup(remove_key(servers, id), other) == lookup(servers, other),
{
    lemma_lookup_remove(servers, id);
    if other != id {
        lemma_lookup_remove_other(servers, id, other);
    }
}

/// The same of bastions.
pub proof fn law_bastion_delete_then_find(bastions: Seq<BastionConfig>, id: Seq<char>, other: Seq<char>)
    ensures
        lookup(remove_key(bastions, id), id) is None,
        !has_key(remove_key(bastions, id), id),
        other != id ==> lookup(remove_key(bastions, id), other) == lookup(bastions, other),
{
    lemma_lookup_remove(bastions, id);
    if other != id {
        lemma_lookup_remove_other(bastions, id, other);
    }
}

/// A successful choice of the monitor's host sets the two choices to the
/// ids given (trimmed, blank ones as none), at most one of them, each in
/// the configuration, and changes nothing else; the monitor host can then
/// be found, and the monitor counts as enabled exactly when an id was
/// given.
pub proof fn law_monitor_target_is_valid(
    config: AppConfig,
    server_id: Option<String>,
    bastion_id: Option<String>,
    chosen: AppConfig,
)
    requires
        monitor_target_outcome(config, server_id, bastion_id, Ok(chosen)),
    ensures
        opt_view(chosen.monitor_server_id) == clean_id(server_id),
        opt_view(chosen.monitor_bastion_id) == clean_id(bastion_id),
        !(chosen.monitor_server_id is Some && chosen.monitor_bastion_id is Some),
        opt_view(chosen.monitor_server_id) matches Some(id) ==> has_key(chosen.servers@, id),
        opt_view(chosen.monitor_bastion_id) matches Some(id) ==> has_key(chosen.bastions@, id),
        chosen == (AppConfig {
            monitor_server_id: chosen.monitor_server_id,
            monitor_bastion_id: chosen.monitor_bastion_id,
            ..config
        }),
        clean_id(chosen.monitor_server_id) == clean_id(server_id),
        clean_id(chosen.monitor_bastion_id) == clean_id(bastion_id),
        forall|r: Result<Option<ServerConfig>, ConfigError>| #[trigger]
            is_monitor_server_result(chosen, r) ==> r is Ok,
        (clean_id(chosen.monitor_server_id) is Some || clean_id(chosen.monitor_bastion_id) is Some)
            == (clean_id(server_id) is Some || clean_id(bastion_id) is Some),
{
    if let Some(x) = server_id {
        lemma_trim_idempotent(x@);
    }
    if let Some(x) = bastion_id {
        lemma_trim_idempotent(x@);
    }
    lemma_lookup_some(chosen.servers@, clean_id(server_id)->0);
    lemma_lookup_some(chosen.bastions@, clean_id(bastion_id)->0);
}

// ---------------------------------------------------------------------
// The alert poller
// ---------------------------------------------------------------------

/// A server that is down is reported once: a second offline ping reports
/// nothing, and only after it was seen online again is it reported again.
pub proof fn law_down_reported_once(down: Set<Seq<char>>, id: Seq<char>)
    ensures
        !ping_step(ping_step(down, id, true).0, id, true).1,
        ping_step(ping_step(ping_step(down, id, true).0, id, false).0, id, true).1,
        !down.contains(id) ==> ping_step(down, id, true).1,
{
}

/// A high CPU is reported only once it has lasted a minute, and once per
/// stretch: after a report, further high samples report nothing until the
/// CPU has been seen normal again.
pub proof fn law_cpu_reported_once(
    since: Option<u64>,
    alerted: Set<Seq<char>>,
    id: Seq<char>,
    first_ms: u64,
    later_ms: u64,
)
    ensures
        ({
            let (s1, a1, r1) = cpu_step(since, alerted, id, true, first_ms);
            let (s2, a2, r2) = cpu_step(s1, a1, id, true, later_ms);
            &&& r1 ==> (s1 matches Some(start) && first_ms - start >= HIGH_CPU_MS)
            &&& r1 ==> !r2
            &&& s1 is Some
        }),
        ({
            let (s1, a1, r1) = cpu_step(since, alerted, id, false, first_ms);
            &&& s1 is None && !r1 && !a1.contains(id)
        }),
{
}

/// A client near its traffic limit is reported once, until its traffic
/// is seen under the limit again.
pub proof fn law_limit_reported_once(limited: Set<Seq<char>>, key: Seq<char>)
    ensures
        !usage_step(usage_step(limited, key, true).0, key, true).1,
        usage_step(usage_step(usage_step(limited, key, true).0, key, false).0, key, true).1,
{
}

/// The event log keeps the newest event first, the earlier ones after it in
/// their order, and never more than `MAX_EVENTS` events.
pub proof fn law_event_log(events: Seq<AlertEvent>, event: AlertEvent)
    ensures
        logged(events, event).len() <= MAX_EVENTS,
        logged(events, event).len() == if events.len() + 1 > MAX_EVENTS {
            MAX_EVENTS as nat
        } else {
            events.len() + 1
        },
        logged(events, event)[0] == event,
        forall|i: int| 1 <= i < logged(events, event).len() ==> #[trigger] logged(events, event)[i] == events[i - 1],
{
}

// ---------------------------------------------------------------------
// Routing rules and monitor samples
// ---------------------------------------------------------------------

/// Pinning the `api` rule a second time changes nothing: when the first
/// rule is the `api` rule, it is the one found and moving it to the front
/// leaves the rules as they are.
pub proof fn law_api_pin_is_stable(rules: Seq<RoutingRule>)
    requires
        rules.len() >= 1,
        is_api_rule_spec(rules[0]),
    ensures
        api_rule_position_spec(rules) == Some(0int),
        seq![rules[0]] + rules.remove(0) == rules,
{
    assert(exists|i: int| 0 <= i < rules.len() && is_api_rule_spec(#[trigger] rules[i])) by {
        assert(is_api_rule_spec(rules[0]));
    }
    let k = choose|i: int| 0 <= i < rules.len() && is_api_rule_spec(#[trigger] rules[i]) && forall|j: int|
        0 <= j < i ==> !is_api_rule_spec(#[trigger] rules[j]);
    assert(0 <= 0 < rules.len() && is_api_rule_spec(rules[0]) && forall|j: int|
        0 <= j < 0 ==> !is_api_rule_spec(#[trigger] rules[j]));
    if k > 0 {
        assert(!is_api_rule_spec(rules[0]));
    }
    assert(seq![rules[0]] + rules.remove(0) =~= rules);
}

/// The sample reported from a history is fresh: the last fresh one, or the
/// fresh online one just before it.
pub proof fn law_reported_sample_is_fresh(h: Seq<MetricSample>, now: i128, max_age: u64, i: int)
    requires
        is_latest_fresh(h, now, max_age, i),
    ensures
        is_fresh_spec(h[stable_choice(h, now, max_age, i)], now, max_age),
        stable_choice(h, now, max_age, i) == i || (stable_choice(h, now, max_age, i) == i - 1
            && h[i - 1].is_online && !h[i].is_online),
{
}

// ---------------------------------------------------------------------
// The terminal's reconnections
// ---------------------------------------------------------------------

/// The wait between reconnections of a terminal session stays between one
/// and eight seconds: it starts at one, and each step doubles it up to
/// eight or sets it back to one.
pub proof fn law_reconnect_wait_bounded(delay_ms: u64)
    requires
        first_reconnect_delay() <= delay_ms <= max_reconnect_delay(),
    ensures
        first_reconnect_delay() <= next_delay(delay_ms) <= max_reconnect_delay(),
        delay_ms < next_delay(delay_ms) || next_delay(delay_ms) == max_reconnect_delay(),
{
}

// ---------------------------------------------------------------------
// The dashboard's figures
// ---------------------------------------------------------------------

/// An uptime of at least a day reads as its whole days and the whole hours
/// left over after them (fewer than 24): `1d 5h` for a day, five hours and
/// some minutes.
pub proof fn law_uptime_in_days_and_hours(seconds: u64, days: nat, hours: nat)
    requires
        days >= 1,
        hours < 24,
        days * 86400 + hours * 3600 <= seconds < days * 86400 + hours * 3600 + 3600,
    ensures
        uptime_text(seconds) == decimal(days) + "d "@ + decimal(hours) + "h"@,
{
    assert(seconds / 86400 == days && (seconds % 86400) / 3600 == hours) by (nonlinear_arith)
        requires
            hours < 24,
            days * 86400 + hours * 3600 <= seconds < days * 86400 + hours * 3600 + 3600,
    ;
}

/// An uptime under a day but of at least an hour reads as its whole hours
/// and the whole minutes left over: `5h 30m`.
pub proof fn law_uptime_in_hours_and_minutes(seconds: u64, hours: nat, minutes: nat)
    requires
        1 <= hours < 24,
        minutes < 60,
        hours * 3600 + minutes * 60 <= seconds < hours * 3600 + minutes * 60 + 60,
    ensures
        uptime_text(seconds) == decimal(hours) + "h "@ + decimal(minutes) + "m"@,
{
    assert(seconds / 86400 == 0 && (seconds % 86400) / 3600 == hours && (seconds % 3600) / 60 == minutes)
        by (nonlinear_arith)
        requires
            1 <= hours < 24,
            minutes < 60,
            hours * 3600 + minutes * 60 <= seconds < hours * 3600 + minutes * 60 + 60,
    ;
}

/// An uptime under an hour reads as its whole minutes: `42m`.
pub proof fn law_uptime_in_minutes(seconds: u64, minutes: nat)
    requires
        minutes < 60,
        minutes * 60 <= seconds < minutes * 60 + 60,
    ensures
        uptime_text(seconds) == decimal(minutes) + "m"@,
{
    assert(seconds / 86400 == 0 && (seconds % 86400) / 3600 == 0 && (seconds % 3600) / 60 == minutes)
        by (nonlinear_arith)
        requires
            minutes < 60,
            minutes * 60 <= seconds < minutes * 60 + 60,
    ;
}

/// The monitor's answer for a server: the latency is the reported sample's
/// ping; the server is `offline` exactly when that sample is offline, and
/// an online sample whose ping is over a second is a `warning`.
pub proof fn law_monitor_ping_status(h: Seq<MetricSample>, now: i128, max_age: u64, i: int)
    requires
        is_latest_fresh(h, now, max_age, i),
    ensures
        ({
            let sample = h[stable_choice(h, now, max_age, i)];
            let (latency, status, _message) = monitor_ping_spec(Some(h), now, max_age);
            &&& latency == sample.ping_ms
            &&& (status == "offline"@ <==> !sample.is_online)
            &&& (sample.is_online && (sample.ping_ms matches Some(p) && p > 1000)) ==> status == "warning"@
            &&& (sample.is_online && !(sample.ping_ms matches Some(p) && p > 1000) && !(is_fresh_spec(
                h.last(),
                now,
                max_age,
            ) && !h.last().is_online)) ==> status == "online"@
            &&& (sample.is_online && is_fresh_spec(h.last(), now, max_age) && !h.last().is_online) ==> (
            status == "warning"@ && _message == "Monitor sample, last check failed once"@)
        }),
{
    assert(is_fresh_spec(h[i], now, max_age));
    assert(has_fresh(h, now, max_age));
    let c = choose|c: int| is_latest_fresh(h, now, max_age, c);
    assert(is_latest_fresh(h, now, max_age, c));
    lemma_latest_fresh_unique(h, now, max_age, i, c);
    reveal_strlit("offline");
    reveal_strlit("warning");
    reveal_strlit("online");
    assert("warning"@[0] != "offline"@[0]);
    assert("online"@.len() != "offline"@.len());
}

/// Without samples, or without a fresh one, the server's state is
/// `unknown`, with no latency.
pub proof fn law_monitor_ping_unknown(history: Option<Seq<MetricSample>>, now: i128, max_age: u64)
    requires
        history is None || !has_fresh(history->0, now, max_age),
    ensures
        ({
            let (latency, status, _message) = monitor_ping_spec(history, now, max_age);
            latency is None && status == "unknown"@
        }),
{
}

/// Whatever the samples, a reported ping over a second never shows as
/// `online`: it is `warning` unless the server is `offline`.
pub proof fn law_slow_ping_is_a_warning(history: Option<Seq<MetricSample>>, now: i128, max_age: u64)
    ensures
        ({
            let (latency, status, _message) = monitor_ping_spec(history, now, max_age);
            (latency matches Some(p) && p > 1000 && status != "offline"@) ==> status == "warning"@
        }),
{
}

// ---------------------------------------------------------------------
// 3x-ui clients
// ---------------------------------------------------------------------

/// A client extended by `days` expires `days` days after the later of its
/// current expiry (none counts as 0) and now: never before now plus the
/// days. The extension is refused when `days` is not positive, and when the
/// new time does not fit.
pub proof fn law_extension_counts_from_the_later_of_expiry_and_now(current: Option<i64>, now_ms: i64, days: i64)
    ensures
        ({
            let cur: int = match current {
                Some(c) => c as int,
                None => 0,
            };
            let delta: int = days * 86_400_000;
            match extended_expiry_spec(current, now_ms, days) {
                Ok(v) => {
                    &&& days > 0
                    &&& v - delta >= now_ms
                    &&& v - delta >= cur
                    &&& (v - delta == now_ms || v - delta == cur)
                    &&& v >= now_ms + delta
                },
                Err(ExtendError::NotPositive) => days <= 0,
                Err(ExtendError::TooLarge) => days > 0 && (delta > i64::MAX || now_ms + delta > i64::MAX
                    || cur + delta > i64::MAX),
            }
        }),
        days > 0 && ({
            let cur: int = match current {
                Some(c) => c as int,
                None => 0,
            };
            days * 86_400_000 <= i64::MAX && now_ms + days * 86_400_000 <= i64::MAX && cur + days
                * 86_400_000 <= i64::MAX
        }) ==> extended_expiry_spec(current, now_ms, days) is Ok,
{
}

// ---------------------------------------------------------------------
// SSH command lines
// ---------------------------------------------------------------------

/// A command runs on the server's SSH port, as `user@host`, with the command
/// as the last argument and the target right before it.
pub proof fn law_run_args_frame(
    s: ServerConfig,
    control_path: Seq<char>,
    command: Seq<char>,
    keepalive: Keepalive,
    home: Option<Seq<char>>,
)
    ensures
        ({
            let run = run_args(s, control_path, command, keepalive, home);
            &&& run.len() >= 18
            &&& run[0] == "-p"@ && run[1] == decimal(s.ssh_port as nat)
            &&& run[15] == "ControlPath="@ + control_path
            &&& run[run.len() - 2] == s.ssh_user@ + "@"@ + s.host@
            &&& run[run.len() - 1] == command
        }),
{
}

/// The arguments name the key file `key` with `-i`, followed by
/// `-o IdentitiesOnly=yes`, somewhere before the argument at `target_at`.
pub open spec fn names_key_before(args: Seq<Seq<char>>, key: Seq<char>, target_at: int) -> bool {
    exists|j: int|
        0 <= j && j + 3 < target_at && #[trigger] args[j] == "-i"@ && args[j + 1] == key && args[j + 2] == "-o"@
            && args[j + 3] == "IdentitiesOnly=yes"@
}

/// A server with a key of its own is reached with that key, its `~/`
/// expanded, and only with it, before the target `user@host`: when opening
/// the shared connection, running a command, and copying files.
pub proof fn law_server_key_is_used(
    s: ServerConfig,
    control_path: Seq<char>,
    command: Seq<char>,
    keepalive: Keepalive,
    batch_path: Seq<char>,
    home: Option<Seq<char>>,
)
    requires
        s.ssh_key_path is Some,
    ensures
        ({
            let key = expand_tilde_spec(s.ssh_key_path->0@, home);
            let run = run_args(s, control_path, command, keepalive, home);
            let master = master_args(s, control_path, home);
            let transfer = transfer_args(s, control_path, batch_path, home);
            let plain = plain_transfer_args(s, batch_path, home);
            &&& run[run.len() - 2] == target_arg(s) && run[run.len() - 1] == command
            &&& names_key_before(run, key, run.len() - 2)
            &&& master[master.len() - 1] == target_arg(s)
            &&& names_key_before(master, key, master.len() - 1)
            &&& transfer[transfer.len() - 1] == target_arg(s)
            &&& names_key_before(transfer, key, transfer.len() - 1)
            &&& plain[plain.len() - 1] == target_arg(s)
            &&& names_key_before(plain, key, plain.len() - 1)
        }),
{
    let key = expand_tilde_spec(s.ssh_key_path->0@, home);
    let run = run_args(s, control_path, command, keepalive, home);
    assert(run[16] == "-i"@ && run[17] == key && run[18] == "-o"@ && run[19] == "IdentitiesOnly=yes"@);
    let master = master_args(s, control_path, home);
    let transfer = transfer_args(s, control_path, batch_path, home);
    let plain = plain_transfer_args(s, batch_path, home);
    assert(master[23] == "-i"@ && master[24] == key && master[25] == "-o"@ && master[26] == "IdentitiesOnly=yes"@);
    assert(transfer[24] == "-i"@ && transfer[25] == key && transfer[26] == "-o"@ && transfer[27]
        == "IdentitiesOnly=yes"@);
    assert(plain[10] == "-i"@ && plain[11] == key && plain[12] == "-o"@ && plain[13] == "IdentitiesOnly=yes"@);
}

// ---------------------------------------------------------------------
// Share links
// ---------------------------------------------------------------------

/// The query `q` holds the parameter `key=value` (the value
/// percent-encoded) as one of its `&`-separated parts after the `?`.
pub open spec fn query_has_param(q: Seq<char>, key: Seq<char>, value: Seq<char>) -> bool {
    let part = query_part((key, value));
    q.len() > 0 && q[0] == '?' && exists|i: int|
        1 <= i && i + part.len() <= q.len() && #[trigger] q.subrange(i, i + part.len()) == part && (q[i - 1]
            == '?' || q[i - 1] == '&') && (i + part.len() == q.len() || q[i + part.len()] == '&')
}

proof fn lemma_insert_keeps(s: Seq<(Seq<char>, Seq<char>)>, x: (Seq<char>, Seq<char>), y: (Seq<char>, Seq<char>))
    ensures
        insert_by_key(s, x).contains(x),
        s.contains(y) ==> insert_by_key(s, x).contains(y),
    decreases s.len(),
{
    if s.len() == 0 {
        assert(insert_by_key(s, x)[0] == x);
    } else if key_le(s.last().0, x.0) {
        let t = s.push(x);
        assert(t[s.len() as int] == x);
        if s.contains(y) {
            let k = choose|k: int| 0 <= k < s.len() && s[k] == y;
            assert(t[k] == y);
        }
    } else {
        lemma_insert_keeps(s.drop_last(), x, y);
        let r = insert_by_key(s.drop_last(), x);
        let t = r.push(s.last());
        let k = choose|k: int| 0 <= k < r.len() && r[k] == x;
        assert(t[k] == x);
        if s.contains(y) {
            let m = choose|m: int| 0 <= m < s.len() && s[m] == y;
            if m == s.len() - 1 {
                assert(t[r.len() as int] == y);
            } else {
                assert(s.drop_last()[m] == y);
                let k2 = choose|k2: int| 0 <= k2 < r.len() && r[k2] == y;
                assert(t[k2] == y);
            }
        }
    }
}

proof fn lemma_sort_keeps(s: Seq<(Seq<char>, Seq<char>)>, y: (Seq<char>, Seq<char>))
    requires
        s.contains(y),
    ensures
        sort_by_key(s).contains(y),
    decreases s.len(),
{
    let m = choose|m: int| 0 <= m < s.len() && s[m] == y;
    if m < s.len() - 1 {
        assert(s.drop_last()[m] == y);
        lemma_sort_keeps(s.drop_last(), y);
    }
    lemma_insert_keeps(sort_by_key(s.drop_last()), s.last(), y);
}

/// `j` holds `part` between two `&` (or its ends) from index `i`.
spec fn joined_at(j: Seq<char>, part: Seq<char>, i: int) -> bool {
    &&& 0 <= i && i + part.len() <= j.len()
    &&& j.subrange(i, i + part.len()) == part
    &&& (i == 0 || j[i - 1] == '&')
    &&& (i + part.len() == j.len() || j[i + part.len()] == '&')
}

proof fn lemma_join_holds(ps: Seq<(Seq<char>, Seq<char>)>, x: (Seq<char>, Seq<char>)) -> (i: int)
    requires
        ps.contains(x),
    ensures
        joined_at(join_query(ps), query_part(x), i),
    decreases ps.len(),
{
    reveal_strlit("&");
    let part = query_part(x);
    let m = choose|m: int| 0 <= m < ps.len() && ps[m] == x;
    let j = join_query(ps);
    if ps.len() == 1 {
        assert(j.subrange(0, part.len() as int) =~= part);
        0
    } else {
        let front = join_query(ps.drop_last());
        let last = query_part(ps.last());
        assert(j == front + "&"@ + last);
        if m == ps.len() - 1 {
            let i: int = front.len() as int + 1;
            assert(j.subrange(i, i + part.len()) =~= part);
            assert(j[i - 1] == '&');
            i
        } else {
            assert(ps.drop_last()[m] == x);
            let i = lemma_join_holds(ps.drop_last(), x);
            assert(j.subrange(i, i + part.len()) =~= front.subrange(i, i + part.len()));
            if i > 0 {
                assert(j[i - 1] == front[i - 1]);
            }
            if i + part.len() < front.len() {
                assert(j[i + part.len()] == front[i + part.len()]);
            } else {
                assert(j[i + part.len()] == '&');
            }
            i
        }
    }
}

proof fn lemma_query_has(ps: Seq<(Seq<char>, Seq<char>)>, x: (Seq<char>, Seq<char>))
    requires
        ps.contains(x),
    ensures
        query_has_param(build_query_spec(ps), x.0, x.1),
{
    reveal_strlit("?");
    lemma_sort_keeps(ps, x);
    let sorted = sort_by_key(ps);
    let i = lemma_join_holds(sorted, x);
    let j = join_query(sorted);
    let q = build_query_spec(ps);
    let part = query_part(x);
    assert(q == "?"@ + j);
    assert(q.subrange(i + 1, i + 1 + part.len()) =~= j.subrange(i, i + part.len()));
    assert(q[i] == (if i == 0 { '?' } else { j[i - 1] }));
    if i + part.len() < j.len() {
        assert(q[i + 1 + part.len()] == j[i + part.len()]);
    }
}

proof fn lemma_push_if_keeps(s: Seq<(Seq<char>, Seq<char>)>, k: Seq<char>, v: Option<Seq<char>>)
    ensures
        forall|y: (Seq<char>, Seq<char>)| s.contains(y) ==> #[trigger] push_if(s, k, v).contains(y),
        (v matches Some(x) && x.len() > 0) ==> push_if(s, k, v).contains((k, v->0)),
{
    if v is Some && v->0.len() > 0 {
        let x = v->0;
        let t = s.push((k, x));
        assert(t[s.len() as int] == (k, x));
        assert forall|y: (Seq<char>, Seq<char>)| s.contains(y) implies #[trigger] t.contains(y) by {
            let m = choose|m: int| 0 <= m < s.len() && s[m] == y;
            assert(t[m] == y);
        }
    }
}

/// The query of a VLESS or Trojan link holds `type` and `security`, and
/// each of the flow, WebSocket host, WebSocket path, gRPC service name,
/// SNI, fingerprint, REALITY public key, short id and spider path that is
/// set and not empty, as `name=value` with the value percent-encoded.
pub proof fn law_link_query_carries_the_settings(c: LinkClient, st: LinkStream, network: Seq<char>, security: Seq<char>)
    ensures
        ({
            let q = build_query_spec(link_params_spec(c, st, network, security));
            let carried = |key: Seq<char>, v: Option<Seq<char>>|
                (v matches Some(x) && x.len() > 0) ==> query_has_param(q, key, v->0);
            &&& query_has_param(q, "type"@, network)
            &&& query_has_param(q, "security"@, security)
            &&& carried("flow"@, opt_view(c.flow))
            &&& carried("host"@, opt_view(st.ws_host))
            &&& carried("path"@, opt_view(st.ws_path))
            &&& carried("serviceName"@, opt_view(st.grpc_service_name))
            &&& carried("sni"@, tls_sni_spec(st))
            &&& carried("fp"@, fingerprint_spec(st))
            &&& carried("pbk"@, opt_view(st.reality_public_key))
            &&& carried("sid"@, opt_view(st.reality_short_id))
            &&& carried("spx"@, opt_view(st.reality_spider_x))
        }),
{
    let p0 = seq![("type"@, network), ("security"@, security)];
    assert(p0[0] == ("type"@, network) && p0[1] == ("security"@, security));
    let p1 = push_if(p0, "flow"@, opt_view(c.flow));
    let p2 = push_if(p1, "host"@, opt_view(st.ws_host));
    let p3 = push_if(p2, "path"@, opt_view(st.ws_path));
    let p4 = push_if(p3, "serviceName"@, opt_view(st.grpc_service_name));
    let p5 = push_if(p4, "sni"@, tls_sni_spec(st));
    let p6 = push_if(p5, "fp"@, fingerprint_spec(st));
    let p7 = push_if(p6, "pbk"@, opt_view(st.reality_public_key));
    let p8 = push_if(p7, "sid"@, opt_view(st.reality_short_id));
    let ps = push_if(p8, "spx"@, opt_view(st.reality_spider_x));
    lemma_push_if_keeps(p0, "flow"@, opt_view(c.flow));
    lemma_push_if_keeps(p1, "host"@, opt_view(st.ws_host));
    lemma_push_if_keeps(p2, "path"@, opt_view(st.ws_path));
    lemma_push_if_keeps(p3, "serviceName"@, opt_view(st.grpc_service_name));
    lemma_push_if_keeps(p4, "sni"@, tls_sni_spec(st));
    lemma_push_if_keeps(p5, "fp"@, fingerprint_spec(st));
    lemma_push_if_keeps(p6, "pbk"@, opt_view(st.reality_public_key));
    lemma_push_if_keeps(p7, "sid"@, opt_view(st.reality_short_id));
    lemma_push_if_keeps(p8, "spx"@, opt_view(st.reality_spider_x));
    assert(ps == link_params_spec(c, st, network, security));
    lemma_query_has(ps, ("type"@, network));
    lemma_query_has(ps, ("security"@, security));
    let fields: Seq<(Seq<char>, Option<Seq<char>>)> = seq![
        ("flow"@, opt_view(c.flow)),
        ("host"@, opt_view(st.ws_host)),
        ("path"@, opt_view(st.ws_path)),
        ("serviceName"@, opt_view(st.grpc_service_name)),
        ("sni"@, tls_sni_spec(st)),
        ("fp"@, fingerprint_spec(st)),
        ("pbk"@, opt_view(st.reality_public_key)),
        ("sid"@, opt_view(st.reality_short_id)),
        ("spx"@, opt_view(st.reality_spider_x)),
    ];
    assert forall|n: int| 0 <= n < 9 && (#[trigger] fields[n]).1 is Some && fields[n].1->0.len() > 0 implies
        ps.contains((fields[n].0, fields[n].1->0)) by {}
    assert forall|n: int| 0 <= n < 9 && (#[trigger] fields[n]).1 is Some && fields[n].1->0.len() > 0 implies
        query_has_param(build_query_spec(ps), fields[n].0, fields[n].1->0) by {
        lemma_query_has(ps, (fields[n].0, fields[n].1->0));
    }
    assert(fields[0] == ("flow"@, opt_view(c.flow)));
    assert(fields[1] == ("host"@, opt_view(st.ws_host)));
    assert(fields[2] == ("path"@, opt_view(st.ws_path)));
    assert(fields[3] == ("serviceName"@, opt_view(st.grpc_service_name)));
    assert(fields[4] == ("sni"@, tls_sni_spec(st)));
    assert(fields[5] == ("fp"@, fingerprint_spec(st)));
    assert(fields[6] == ("pbk"@, opt_view(st.reality_public_key)));
    assert(fields[7] == ("sid"@, opt_view(st.reality_short_id)));
    assert(fields[8] == ("spx"@, opt_view(st.reality_spider_x)));
}

} // verus!
