//! The alert poller's decisions: which servers are down, whose CPU has been
//! high for long, which clients are near their traffic limit, and when each
//! of these is reported; and the event log the reports go to. Pinging,
//! collecting metrics, notifying and storing the log are the caller's part.
use vstd::prelude::*;
use crate::config::{join_path, opt_view};
use crate::config::join_path_str;
use crate::ids::{is_hyphenated_id, new_hyphenated_id};
use crate::registry::{
    find_index, lemma_lookup_first, lemma_lookup_none, lemma_lookup_push, lookup, remove_key_vec, Keyed,
};
use crate::text::{
    chars_of, copy_str, int_decimal, is_ws, push_decimal_i64, push_str, str_eq, strip_start, trim_start,
};
use crate::three_x_ui::now_millis;

verus! {

/// The events kept in the log, newest first.
pub const MAX_EVENTS: usize = 500;

/// How long, in milliseconds, the CPU must stay high before it is reported.
pub const HIGH_CPU_MS: u64 = 60_000;

// ---------------------------------------------------------------------
// Sets of ids
// ---------------------------------------------------------------------

/// Some id of `ids` is `s`.
pub open spec fn member(ids: Seq<String>, s: Seq<char>) -> bool {
    exists|i: int| 0 <= i < ids.len() && (#[trigger] ids[i])@ == s
}

/// A set of ids (servers, clients), as the poller remembers them.
pub struct IdSet {
    pub ids: Vec<String>,
}

impl View for IdSet {
    type V = Set<Seq<char>>;

    open spec fn view(&self) -> Set<Seq<char>> {
        Set::new(|s: Seq<char>| member(self.ids@, s))
    }
}

impl IdSet {
    pub fn new() -> (r: IdSet)
        ensures
            r@ == Set::<Seq<char>>::empty(),
    {
        let r = IdSet { ids: Vec::new() };
        assert(r@ =~= Set::<Seq<char>>::empty());
        r
    }

    pub fn contains(&self, id: &str) -> (b: bool)
        ensures
            b == self@.contains(id@),
    {
        let mut i: usize = 0;
        while i < self.ids.len()
            invariant
                i <= self.ids@.len(),
                forall|j: int| 0 <= j < i ==> (#[trigger] self.ids@[j])@ != id@,
            decreases self.ids.len() - i,
        {
            if str_eq(self.ids[i].as_str(), id) {
                assert(member(self.ids@, id@));
                return true;
            }
            i = i + 1;
        }
        false
    }

    /// Adds `id`; says whether it was not there before, as
    /// `HashSet::insert` does.
    pub fn insert(&mut self, id: &str) -> (added: bool)
        ensures
            final(self)@ == old(self)@.insert(id@),
            added == !old(self)@.contains(id@),
    {
        if self.contains(id) {
            assert(self@.insert(id@) =~= self@);
            false
        } else {
            let ghost before = self.ids@;
            self.ids.push(copy_str(id));
            assert forall|s: Seq<char>| member(self.ids@, s) <==> (member(before, s) || s == id@) by {
                if member(before, s) {
                    let i = choose|i: int| 0 <= i < before.len() && (#[trigger] before[i])@ == s;
                    assert(self.ids@[i] == before[i]);
                }
                if s == id@ {
                    assert(self.ids@[before.len() as int]@ == s);
                }
                if member(self.ids@, s) {
                    let i = choose|i: int| 0 <= i < self.ids@.len() && (#[trigger] self.ids@[i])@ == s;
                    if i < before.len() {
                        assert(before[i] == self.ids@[i]);
                    }
                }
            }
            assert(self@ =~= Set::new(|s: Seq<char>| member(before, s)).insert(id@));
            true
        }
    }

    /// Takes `id` out.
    pub fn remove(&mut self, id: &str)
        ensures
            final(self)@ == old(self)@.remove(id@),
    {
        let ghost all = self.ids@;
        let mut kept: Vec<String> = Vec::new();
        let mut i: usize = 0;
        while i < self.ids.len()
            invariant
                self.ids@ == all,
                i <= all.len(),
                forall|s: Seq<char>|
                    member(kept@, s) <==> (member(all.subrange(0, i as int), s) && s != id@),
            decreases self.ids.len() - i,
        {
            let ghost k0 = kept@;
            let ghost cur = all[i as int]@;
            if !str_eq(self.ids[i].as_str(), id) {
                kept.push(self.ids[i].clone());
            }
            assert forall|s: Seq<char>|
                member(kept@, s) <==> (member(all.subrange(0, i + 1), s) && s != id@) by {
                let pre = all.subrange(0, i as int);
                let now = all.subrange(0, i + 1);
                if member(now, s) {
                    let j = choose|j: int| 0 <= j < now.len() && (#[trigger] now[j])@ == s;
                    if j < i {
                        assert(pre[j] == now[j]);
                    }
                }
                if member(pre, s) {
                    let j = choose|j: int| 0 <= j < pre.len() && (#[trigger] pre[j])@ == s;
                    assert(now[j] == pre[j]);
                }
                if member(kept@, s) {
                    let j = choose|j: int| 0 <= j < kept@.len() && (#[trigger] kept@[j])@ == s;
                    if j < k0.len() {
                        assert(k0[j] == kept@[j]);
                    }
                }
                if member(k0, s) {
                    let j = choose|j: int| 0 <= j < k0.len() && (#[trigger] k0[j])@ == s;
                    assert(kept@[j] == k0[j]);
                }
                if s == cur && s != id@ {
                    assert(kept@[k0.len() as int]@ == s);
                    assert(now[i as int]@ == s);
                }
            }
            i = i + 1;
        }
        let ghost old_view = self@;
        assert(all.subrange(0, all.len() as int) =~= all);
        self.ids = kept;
        assert(self@ =~= old_view.remove(id@));
    }
}

// ---------------------------------------------------------------------
// When CPU went high
// ---------------------------------------------------------------------

/// Since when (milliseconds on the caller's monotonic clock) a server's CPU
/// has been high.
pub struct HighCpu {
    pub server_id: String,
    pub since_ms: u64,
}

impl Keyed for HighCpu {
    open spec fn key(&self) -> Seq<char> {
        self.server_id@
    }

    fn key_str(&self) -> (r: &str) {
        self.server_id.as_str()
    }
}

// ---------------------------------------------------------------------
// The poller's memory and its decisions
// ---------------------------------------------------------------------

/// What the poller remembers from one round to the next.
pub struct AlertsRuntime {
    pub down_servers: IdSet,
    pub high_cpu_since: Vec<HighCpu>,
    pub high_cpu_alerted: IdSet,
    pub limited_clients: IdSet,
}

/// After a ping: the servers known to be down, and whether to report this
/// one as down now. An offline server is reported when it was not already
/// known to be down; an online one is forgotten.
pub open spec fn ping_step(down: Set<Seq<char>>, id: Seq<char>, offline: bool) -> (Set<Seq<char>>, bool) {
    if offline {
        (down.insert(id), !down.contains(id))
    } else {
        (down.remove(id), false)
    }
}

/// After a metrics sample: since when the CPU of `id` has been high (none
/// once it is not), whether its alert was raised, and whether to raise it
/// now: when the CPU has been high for at least a minute and it was not
/// raised yet.
pub open spec fn cpu_step(
    since: Option<u64>,
    alerted: Set<Seq<char>>,
    id: Seq<char>,
    cpu_high: bool,
    now_ms: u64,
) -> (Option<u64>, Set<Seq<char>>, bool) {
    if cpu_high {
        let start = match since {
            Some(t) => t,
            None => now_ms,
        };
        let long = now_ms >= start && now_ms - start >= HIGH_CPU_MS;
        if long {
            (Some(start), alerted.insert(id), !alerted.contains(id))
        } else {
            (Some(start), alerted, false)
        }
    } else {
        (None, alerted.remove(id), false)
    }
}

/// After reading a client's traffic: the clients known to be near their
/// limit, and whether to report this one now.
pub open spec fn usage_step(limited: Set<Seq<char>>, key: Seq<char>, over_limit: bool) -> (Set<Seq<char>>, bool) {
    if over_limit {
        (limited.insert(key), !limited.contains(key))
    } else {
        (limited.remove(key), false)
    }
}

pub open spec fn high_since(items: Seq<HighCpu>, id: Seq<char>) -> Option<u64> {
    match lookup(items, id) {
        Some(x) => Some(x.since_ms),
        None => None,
    }
}

impl AlertsRuntime {
    pub fn new() -> (r: AlertsRuntime)
        ensures
            r.down_servers@ == Set::<Seq<char>>::empty(),
            r.high_cpu_since@ == Seq::<HighCpu>::empty(),
            r.high_cpu_alerted@ == Set::<Seq<char>>::empty(),
            r.limited_clients@ == Set::<Seq<char>>::empty(),
    {
        AlertsRuntime {
            down_servers: IdSet::new(),
            high_cpu_since: Vec::new(),
            high_cpu_alerted: IdSet::new(),
            limited_clients: IdSet::new(),
        }
    }

    /// Takes in a ping of server `server_id`; says whether to report it
    /// down.
    pub fn note_ping(&mut self, server_id: &str, offline: bool) -> (report: bool)
        ensures
            (final(self).down_servers@, report) == ping_step(old(self).down_servers@, server_id@, offline),
            final(self).high_cpu_since == old(self).high_cpu_since,
            final(self).high_cpu_alerted == old(self).high_cpu_alerted,
            final(self).limited_clients == old(self).limited_clients,
    {
        if offline {
            self.down_servers.insert(server_id)
        } else {
            self.down_servers.remove(server_id);
            false
        }
    }

    /// Takes in a metrics sample of server `server_id` at `now_ms`; says
    /// whether to report its CPU as high.
    pub fn note_cpu(&mut self, server_id: &str, cpu_high: bool, now_ms: u64) -> (report: bool)
        ensures
            ({
                let (since, alerted, rep) = cpu_step(
                    high_since(old(self).high_cpu_since@, server_id@),
                    old(self).high_cpu_alerted@,
                    server_id@,
                    cpu_high,
                    now_ms,
                );
                &&& high_since(final(self).high_cpu_since@, server_id@) == since
                &&& final(self).high_cpu_alerted@ == alerted
                &&& report == rep
            }),
            forall|other: Seq<char>|
                other != server_id@ ==> high_since(final(self).high_cpu_since@, other) == high_since(
                    old(self).high_cpu_since@,
                    other,
                ),
            final(self).down_servers == old(self).down_servers,
            final(self).limited_clients == old(self).limited_clients,
    {
        if cpu_high {
            let start = match find_index(&self.high_cpu_since, server_id) {
                Some(i) => {
                    proof {
                        lemma_lookup_first(self.high_cpu_since@, server_id@, i as int);
                    }
                    self.high_cpu_since[i].since_ms
                },
                None => {
                    proof {
                        lemma_lookup_none(self.high_cpu_since@, server_id@);
                    }
                    let x = HighCpu { server_id: copy_str(server_id), since_ms: now_ms };
                    let ghost before = self.high_cpu_since@;
                    proof {
                        lemma_lookup_push(before, x, server_id@);
                        assert forall|other: Seq<char>| other != server_id@ implies high_since(
                            before.push(x),
                            other,
                        ) == high_since(before, other) by {
                            lemma_lookup_push(before, x, other);
                        }
                    }
                    self.high_cpu_since.push(x);
                    now_ms
                },
            };
            if now_ms >= start && now_ms - start >= HIGH_CPU_MS {
                self.high_cpu_alerted.insert(server_id)
            } else {
                false
            }
        } else {
            let mut items: Vec<HighCpu> = Vec::new();
            std::mem::swap(&mut items, &mut self.high_cpu_since);
            let ghost before = items@;
            self.high_cpu_since = remove_key_vec(items, server_id);
            proof {
                crate::registry::lemma_lookup_remove(before, server_id@);
                assert forall|other: Seq<char>| other != server_id@ implies high_since(
                    self.high_cpu_since@,
                    other,
                ) == high_since(before, other) by {
                    crate::registry::lemma_lookup_remove_other(before, server_id@, other);
                }
            }
            self.high_cpu_alerted.remove(server_id);
            false
        }
    }

    /// Takes in the traffic of the client `client_key`; says whether to
    /// report it near its limit.
    pub fn note_client_usage(&mut self, client_key: &str, over_limit: bool) -> (report: bool)
        ensures
            (final(self).limited_clients@, report) == usage_step(
                old(self).limited_clients@,
                client_key@,
                over_limit,
            ),
            final(self).down_servers == old(self).down_servers,
            final(self).high_cpu_since == old(self).high_cpu_since,
            final(self).high_cpu_alerted == old(self).high_cpu_alerted,
    {
        if over_limit {
            self.limited_clients.insert(client_key)
        } else {
            self.limited_clients.remove(client_key);
            false
        }
    }
}

/// An event the poller is to log: its level, kind and message.
#[derive(Debug)]
pub struct EventDraft {
    pub level: String,
    pub kind: String,
    pub message: String,
}

/// What the poll round of a server does next.
#[derive(Clone, Copy, Debug, PartialEq, Eq, Structural)]
pub enum PollNext {
    /// The round of this server is over.
    EndRound,
    /// Collect the server's metrics.
    CollectMetrics,
    /// Read the clients of the server's panel.
    CheckPanel,
}

pub open spec fn draft_is(d: Option<EventDraft>, level: Seq<char>, kind: Seq<char>, message: Seq<char>) -> bool {
    d matches Some(e) && e.level@ == level && e.kind@ == kind && e.message@ == message
}

impl AlertsRuntime {
    /// The first step of a server's poll round, after its ping: an offline
    /// server is reported down when it was not known to be down, and its
    /// round ends there (no metrics, no panel); an online one is forgotten
    /// as down and its metrics are collected next.
    pub fn poll_after_ping(&mut self, server_id: &str, server_name: &str, offline: bool, ping_message: &str) -> (r:
        (Option<EventDraft>, PollNext))
        ensures
            ({
                let (down, report) = ping_step(old(self).down_servers@, server_id@, offline);
                &&& final(self).down_servers@ == down
                &&& (if report {
                    draft_is(r.0, "error"@, "server_down"@, server_name@ + " is unavailable: "@ + ping_message@)
                } else {
                    r.0 is None
                })
            }),
            r.1 == if offline {
                PollNext::EndRound
            } else {
                PollNext::CollectMetrics
            },
            final(self).high_cpu_since == old(self).high_cpu_since,
            final(self).high_cpu_alerted == old(self).high_cpu_alerted,
            final(self).limited_clients == old(self).limited_clients,
    {
        let report = self.note_ping(server_id, offline);
        let draft = if report {
            Some(EventDraft {
                level: copy_str("error"),
                kind: copy_str("server_down"),
                message: server_down_message(server_name, ping_message),
            })
        } else {
            None
        };
        (draft, if offline {
            PollNext::EndRound
        } else {
            PollNext::CollectMetrics
        })
    }

    /// The step after collecting the metrics: a sample (whether the CPU is
    /// high, and its percentage as shown) goes through the CPU rule, and a
    /// report is drafted with that percentage; a failed collection changes
    /// nothing. The panel is checked next when the server has one.
    pub fn poll_after_metrics(
        &mut self,
        server_id: &str,
        server_name: &str,
        sample: Option<(bool, &str)>,
        now_ms: u64,
        has_panel: bool,
    ) -> (r: (Option<EventDraft>, PollNext))
        ensures
            match sample {
                None => *final(self) == *old(self) && r.0 is None,
                Some((cpu_high, cpu_text)) => {
                    let (since, alerted, rep) = cpu_step(
                        high_since(old(self).high_cpu_since@, server_id@),
                        old(self).high_cpu_alerted@,
                        server_id@,
                        cpu_high,
                        now_ms,
                    );
                    &&& high_since(final(self).high_cpu_since@, server_id@) == since
                    &&& final(self).high_cpu_alerted@ == alerted
                    &&& (forall|other: Seq<char>|
                        other != server_id@ ==> high_since(final(self).high_cpu_since@, other) == high_since(
                            old(self).high_cpu_since@,
                            other,
                        ))
                    &&& final(self).down_servers == old(self).down_servers
                    &&& final(self).limited_clients == old(self).limited_clients
                    &&& if rep {
                        draft_is(
                            r.0,
                            "warn"@,
                            "cpu_high"@,
                            server_name@ + " CPU has been above 90% for more than 60 sec ("@ + cpu_text@ + "%)"@,
                        )
                    } else {
                        r.0 is None
                    }
                },
            },
            r.1 == if has_panel {
                PollNext::CheckPanel
            } else {
                PollNext::EndRound
            },
    {
        let next = if has_panel {
            PollNext::CheckPanel
        } else {
            PollNext::EndRound
        };
        match sample {
            None => (None, next),
            Some((cpu_high, cpu_text)) => {
                let report = self.note_cpu(server_id, cpu_high, now_ms);
                if report {
                    let mut m = copy_str(server_name);
                    push_str(&mut m, " CPU has been above 90% for more than 60 sec (");
                    push_str(&mut m, cpu_text);
                    push_str(&mut m, "%)");
                    (Some(EventDraft { level: copy_str("warn"), kind: copy_str("cpu_high"), message: m }), next)
                } else {
                    (None, next)
                }
            },
        }
    }

    /// The step for one client of the server's panel: a client over its
    /// limit is reported once, with its share of the limit as shown.
    pub fn poll_client(
        &mut self,
        client_key: &str,
        over_limit: bool,
        email: &str,
        used_percent_text: &str,
        server_name: &str,
    ) -> (r: Option<EventDraft>)
        ensures
            ({
                let (limited, report) = usage_step(old(self).limited_clients@, client_key@, over_limit);
                &&& final(self).limited_clients@ == limited
                &&& if report {
                    draft_is(
                        r,
                        "warn"@,
                        "client_traffic_limit"@,
                        email@ + " used "@ + used_percent_text@ + "% of traffic limit on "@ + server_name@,
                    )
                } else {
                    r is None
                }
            }),
            final(self).down_servers == old(self).down_servers,
            final(self).high_cpu_since == old(self).high_cpu_since,
            final(self).high_cpu_alerted == old(self).high_cpu_alerted,
    {
        if self.note_client_usage(client_key, over_limit) {
            let mut m = copy_str(email);
            push_str(&mut m, " used ");
            push_str(&mut m, used_percent_text);
            push_str(&mut m, "% of traffic limit on ");
            push_str(&mut m, server_name);
            Some(EventDraft { level: copy_str("warn"), kind: copy_str("client_traffic_limit"), message: m })
        } else {
            None
        }
    }
}

/// The key under which a client's traffic alert is remembered.
pub fn client_key(server_id: &str, inbound_id: i64, client_id: &str) -> (r: String)
    ensures
        r@ == server_id@ + ":"@ + int_decimal(inbound_id as int) + ":"@ + client_id@,
{
    let mut r = copy_str(server_id);
    push_str(&mut r, ":");
    push_decimal_i64(&mut r, inbound_id);
    push_str(&mut r, ":");
    push_str(&mut r, client_id);
    r
}

/// The message of a server-down report.
pub fn server_down_message(server_name: &str, ping_message: &str) -> (r: String)
    ensures
        r@ == server_name@ + " is unavailable: "@ + ping_message@,
{
    let mut r = copy_str(server_name);
    push_str(&mut r, " is unavailable: ");
    push_str(&mut r, ping_message);
    r
}

/// The title of the desktop notification for an event of the given level.
pub open spec fn notification_title_spec(level: Seq<char>) -> Seq<char> {
    if level == "error"@ {
        "NodeNet error"@
    } else if level == "warn"@ {
        "NodeNet warning"@
    } else {
        "NodeNet"@
    }
}

pub fn notification_title(level: &str) -> (r: &'static str)
    ensures
        r@ == notification_title_spec(level@),
{
    if str_eq(level, "error") {
        "NodeNet error"
    } else if str_eq(level, "warn") {
        "NodeNet warning"
    } else {
        "NodeNet"
    }
}

// ---------------------------------------------------------------------
// The event log
// ---------------------------------------------------------------------

/// A reported event.
#[derive(Clone, Debug)]
pub struct AlertEvent {
    pub id: String,
    pub level: String,
    pub kind: String,
    pub server_id: Option<String>,
    pub server_name: Option<String>,
    pub message: String,
    pub timestamp_ms: i64,
}

/// A new event, with a fresh random id and the time now.
pub fn new_alert_event(
    level: &str,
    kind: &str,
    server_id: Option<String>,
    server_name: Option<String>,
    message: String,
) -> (r: AlertEvent)
    ensures
        is_hyphenated_id(r.id@),
        r.level@ == level@,
        r.kind@ == kind@,
        r.server_id == server_id,
        r.server_name == server_name,
        r.message == message,
{
    AlertEvent {
        id: new_hyphenated_id(),
        level: copy_str(level),
        kind: copy_str(kind),
        server_id,
        server_name,
        message,
        timestamp_ms: now_millis(),
    }
}

/// The log after an event: the event first, then the earlier ones, at most
/// `MAX_EVENTS` in all (the oldest dropped).
pub open spec fn logged(events: Seq<AlertEvent>, event: AlertEvent) -> Seq<AlertEvent> {
    let all = seq![event] + events;
    if all.len() > MAX_EVENTS {
        all.take(MAX_EVENTS as int)
    } else {
        all
    }
}

pub fn record_event(events: Vec<AlertEvent>, event: AlertEvent) -> (r: Vec<AlertEvent>)
    ensures
        r@ == logged(events@, event),
{
    let ghost full = seq![event] + events@;
    let mut r: Vec<AlertEvent> = Vec::new();
    r.push(event);
    let mut rest = events;
    assert(r@ + rest@ =~= full);
    while r.len() < MAX_EVENTS && rest.len() > 0
        invariant
            r@ + rest@ == full,
            1 <= r@.len() <= MAX_EVENTS,
        decreases rest.len(),
    {
        let ghost r0 = r@;
        let ghost rest0 = rest@;
        let x = rest.remove(0);
        r.push(x);
        assert(r@ + rest@ =~= r0 + rest0);
    }
    assert(r@ =~= full.subrange(0, r@.len() as int));
    assert(r@ =~= logged(events@, event));
    r
}

/// Logs a drafted event: a new event with a fresh id and the time now,
/// first in the log, the log cut to `MAX_EVENTS`. Saving the log and the
/// notification come after, and are the caller's.
pub fn push_event(
    events: Vec<AlertEvent>,
    draft: EventDraft,
    server_id: Option<String>,
    server_name: Option<String>,
) -> (r: Vec<AlertEvent>)
    ensures
        r@.len() >= 1,
        r@ == logged(events@, r@[0]),
        is_hyphenated_id(r@[0].id@),
        r@[0].level@ == draft.level@,
        r@[0].kind@ == draft.kind@,
        r@[0].message == draft.message,
        r@[0].server_id == server_id,
        r@[0].server_name == server_name,
{
    let EventDraft { level, kind, message } = draft;
    let event = new_alert_event(level.as_str(), kind.as_str(), server_id, server_name, message);
    let ghost e = event;
    let r = record_event(events, event);
    assert(r@[0] == e);
    r
}

/// The log without the events of a deleted server, the others in order.
pub open spec fn without_server(events: Seq<AlertEvent>, server_id: Seq<char>) -> Seq<AlertEvent>
    decreases events.len(),
{
    if events.len() == 0 {
        seq![]
    } else {
        let rest = without_server(events.drop_last(), server_id);
        if opt_view(events.last().server_id) == Some(server_id) {
            rest
        } else {
            rest.push(events.last())
        }
    }
}

pub fn remove_events_for_server(events: Vec<AlertEvent>, server_id: &str) -> (r: Vec<AlertEvent>)
    ensures
        r@ == without_server(events@, server_id@),
{
    let ghost all = events@;
    let n = events.len();
    let mut rest = events;
    let mut out: Vec<AlertEvent> = Vec::new();
    let mut i: usize = 0;
    while rest.len() > 0
        invariant
            n == all.len(),
            i <= all.len(),
            rest@ == all.subrange(i as int, all.len() as int),
            out@ == without_server(all.subrange(0, i as int), server_id@),
        decreases rest.len(),
    {
        let e = rest.remove(0);
        assert(e == all[i as int]);
        let ghost now = all.subrange(0, i + 1);
        assert(now.drop_last() =~= all.subrange(0, i as int));
        let drop = match &e.server_id {
            Some(id) => str_eq(id.as_str(), server_id),
            None => false,
        };
        if !drop {
            out.push(e);
        }
        i = i + 1;
    }
    assert(all.subrange(0, all.len() as int) =~= all);
    out
}

/// An events file written before the log was encrypted: a JSON array.
pub open spec fn is_legacy_events_log_spec(raw: Seq<char>) -> bool {
    let t = trim_start(raw);
    t.len() > 0 && t[0] == '['
}

pub fn is_legacy_events_log(raw: &str) -> (b: bool)
    ensures
        b == is_legacy_events_log_spec(raw@),
{
    let v = chars_of(raw);
    assert(v@.skip(0) =~= v@);
    let mut i: usize = 0;
    while i < v.len() && crate::text::is_ws_exec(v[i])
        invariant
            v@ == raw@,
            i <= v@.len(),
            trim_start(raw@) == trim_start(v@.skip(i as int)),
        decreases v.len() - i,
    {
        assert(v@.skip(i as int).drop_first() =~= v@.skip(i + 1));
        i = i + 1;
    }
    assert(i < v@.len() ==> v@.skip(i as int)[0] == v@[i as int]);
    i < v.len() && v[i] == '['
}

/// The file of the event log under the user's data directory.
pub fn events_path(data_dir: &str) -> (r: String)
    ensures
        r@ == join_path(join_path(data_dir@, "NodeNet"@), "events.json"@),
{
    let dir = join_path_str(data_dir, "NodeNet");
    join_path_str(dir.as_str(), "events.json")
}

} // verus!
