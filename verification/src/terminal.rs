//! The interactive terminal's own decisions: the session id, the window
//! size, and trust in a server's host key on first use, kept by host and
//! port in the application's `known_hosts.json`. The SSH session itself is
//! the caller's part.
use vstd::prelude::*;
use crate::config::{join_path, join_path_str, ServerConfig};
use crate::events_file::base64_bytes;
use crate::ids::{is_hyphenated_id, new_hyphenated_id};
use crate::registry::{
    find_index, lemma_lookup_first, lemma_lookup_none, lookup, upsert, upsert_vec, Keyed,
};
use crate::text::{copy_str, decimal, push_decimal, push_str, trim, trim_str};

verus! {

/// The standard Base64 text, with padding, of some bytes, as the `base64`
/// crate writes it.
pub uninterp spec fn base64_text(bytes: Seq<u8>) -> Seq<char>;

/// `general_purpose::STANDARD.encode(bytes)` of the `base64` crate. The
/// contract names the result, and states the engine's round trip: the text
/// decodes (`STANDARD.decode`) to the bytes again. The encoding itself is
/// not restated.
#[verifier::external_body]
pub(crate) fn encode_base64(bytes: &Vec<u8>) -> (r: String)
    requires
        bytes@.len() <= usize::MAX / 4,
    ensures
        r@ == base64_text(bytes@),
        base64_bytes(r@) == Some(bytes@),
{
    base64::Engine::encode(&base64::engine::general_purpose::STANDARD, bytes)
}

/// The stored form of a host key's SHA-256 digest.
pub fn host_key_fingerprint(digest: &Vec<u8>) -> (r: String)
    requires
        digest@.len() <= usize::MAX / 4,
    ensures
        r@ == base64_text(digest@),
{
    encode_base64(digest)
}

/// The key under which a server's host key is remembered: `host:port`.
pub fn terminal_host_key(server: &ServerConfig) -> (r: String)
    ensures
        r@ == server.host@ + ":"@ + decimal(server.ssh_port as nat),
{
    let mut r = server.host.clone();
    push_str(&mut r, ":");
    push_decimal(&mut r, server.ssh_port as u64);
    r
}

/// The file of remembered host keys in the application's directory.
pub fn known_hosts_path(config_dir: &str) -> (r: String)
    ensures
        r@ == join_path(config_dir@, "known_hosts.json"@),
{
    join_path_str(config_dir, "known_hosts.json")
}

/// A remembered host key.
#[derive(Clone, Debug)]
pub struct KnownHost {
    pub host_key: String,
    pub fingerprint: String,
}

impl Keyed for KnownHost {
    open spec fn key(&self) -> Seq<char> {
        self.host_key@
    }

    fn key_str(&self) -> (r: &str) {
        self.host_key.as_str()
    }
}

/// What the check of a server's host key decides.
#[derive(Debug)]
pub enum HostKeyCheck {
    /// The key is the one remembered.
    Trusted,
    /// Another key is remembered for the server: the connection is refused
    /// with this message.
    Changed(String),
    /// Nothing was remembered: the key is trusted and the list to save now
    /// remembers it.
    Learned(Vec<KnownHost>),
}

/// The message of a refused host key.
pub open spec fn changed_key_message(host_key: Seq<char>) -> Seq<char> {
    "SSH host key for '"@ + host_key
        + "' has changed. If the server was reinstalled, remove it from Settings → Known Hosts."@
}

/// Trust on first use: a remembered key must match; an unknown host's key
/// is remembered.
pub fn verify_known_host(known: Vec<KnownHost>, host_key: &str, fingerprint: &str) -> (r: HostKeyCheck)
    ensures
        match lookup(known@, host_key@) {
            Some(k) => if k.fingerprint@ == fingerprint@ {
                r is Trusted
            } else {
                r matches HostKeyCheck::Changed(m) && m@ == changed_key_message(host_key@)
            },
            None => r matches HostKeyCheck::Learned(l) && exists|x: KnownHost|
                x.host_key@ == host_key@ && x.fingerprint@ == fingerprint@ && l@ == upsert(known@, x),
        },
{
    match find_index(&known, host_key) {
        Some(i) => {
            proof {
                lemma_lookup_first(known@, host_key@, i as int);
            }
            if crate::text::str_eq(known[i].fingerprint.as_str(), fingerprint) {
                HostKeyCheck::Trusted
            } else {
                let mut m = copy_str("SSH host key for '");
                push_str(&mut m, host_key);
                push_str(
                    &mut m,
                    "' has changed. If the server was reinstalled, remove it from Settings → Known Hosts.",
                );
                HostKeyCheck::Changed(m)
            }
        },
        None => {
            proof {
                lemma_lookup_none(known@, host_key@);
            }
            let x = KnownHost { host_key: copy_str(host_key), fingerprint: copy_str(fingerprint) };
            let l = upsert_vec(known, x);
            HostKeyCheck::Learned(l)
        },
    }
}

/// A terminal session's id: the one asked for, trimmed, or a fresh one.
pub fn terminal_session_id(requested: Option<&str>) -> (r: String)
    ensures
        match requested {
            Some(s) => if trim(s@).len() > 0 {
                r@ == trim(s@)
            } else {
                is_hyphenated_id(r@)
            },
            None => is_hyphenated_id(r@),
        },
{
    match requested {
        Some(s) => {
            let t = trim_str(s);
            if t.as_str().is_empty() {
                new_hyphenated_id()
            } else {
                t
            }
        },
        None => new_hyphenated_id(),
    }
}

/// The terminal window's size: at least 20 columns and 5 rows.
pub fn terminal_size(cols: u32, rows: u32) -> (r: (u32, u32))
    ensures
        r.0 == if cols < 20 {
            20
        } else {
            cols
        },
        r.1 == if rows < 5 {
            5
        } else {
            rows
        },
{
    (if cols < 20 {
        20
    } else {
        cols
    }, if rows < 5 {
        5
    } else {
        rows
    })
}


// ---------------------------------------------------------------------
// The session worker: connecting, running, reconnecting
// ---------------------------------------------------------------------

/// What the worker of a terminal session remembers: the window size to
/// open the shell with, and the wait before the next reconnection.
#[derive(Clone, Copy, Debug, PartialEq, Eq, Structural)]
pub struct WorkerState {
    pub cols: u32,
    pub rows: u32,
    pub delay_ms: u64,
}

/// What happened to the worker.
#[derive(Debug)]
pub enum WorkerEvent {
    /// The worker starts.
    Started,
    /// The shell was opened.
    Connected,
    /// Opening the shell failed with this message.
    ConnectFailed(String),
    /// The live session ended for good (asked to disconnect, or done).
    LiveEnded,
    /// The live session was lost; reconnect with this window size.
    LiveLost { cols: u32, rows: u32, message: String },
    /// The wait before reconnecting passed, or input arrived during it.
    Waited,
    /// The window was resized during the wait.
    Resized { cols: u32, rows: u32 },
    /// A disconnection was asked for during the wait.
    DisconnectRequested,
}

/// What the worker does next.
#[derive(Clone, Copy, Debug, PartialEq, Eq, Structural)]
pub enum WorkerAction {
    /// Open the shell with the state's window size.
    Connect,
    /// Run the live session.
    RunLive,
    /// Wait this many milliseconds, or for a command.
    Wait(u64),
    /// Stop the worker.
    Stop,
}

/// One step of the worker: the next state, the status shown (state and
/// message), and the action.
#[derive(Debug)]
pub struct WorkerStep {
    pub state: WorkerState,
    pub status: (String, String),
    pub action: WorkerAction,
}

/// The first wait before reconnecting, and the longest, in milliseconds.
pub open spec fn first_reconnect_delay() -> u64 {
    1000
}

pub open spec fn max_reconnect_delay() -> u64 {
    8000
}

/// The wait after `delay_ms`: twice as long, at most 8 seconds.
pub open spec fn next_delay(delay_ms: u64) -> u64 {
    if delay_ms * 2 < max_reconnect_delay() {
        (delay_ms * 2) as u64
    } else {
        max_reconnect_delay()
    }
}

/// The worker's state when it starts.
pub fn worker_start(cols: u32, rows: u32) -> (r: WorkerState)
    ensures
        r == (WorkerState { cols, rows, delay_ms: first_reconnect_delay() }),
{
    WorkerState { cols, rows, delay_ms: 1000 }
}

/// The step after an event: the session connects (showing `connecting`),
/// runs once connected (the wait starts over at a second), waits after a
/// failure or a lost session (showing `reconnecting`), connects again
/// after the wait (which doubles, up to 8 seconds), and stops when it
/// ended or a disconnection is asked for (showing `disconnected`).
pub fn worker_step(state: WorkerState, event: WorkerEvent) -> (r: WorkerStep)
    ensures
        match event {
            WorkerEvent::Started => r.state == state && r.status.0@ == "connecting"@ && r.status.1@
                == "Opening SSH PTY"@ && r.action == WorkerAction::Connect,
            WorkerEvent::Connected => r.state == (WorkerState { delay_ms: first_reconnect_delay(), ..state })
                && r.status.0@ == "connected"@ && r.status.1@ == "Connected"@ && r.action
                == WorkerAction::RunLive,
            WorkerEvent::ConnectFailed(e) => r.state == state && r.status.0@ == "reconnecting"@
                && r.status.1@ == "SSH connection failed: "@ + e@ && r.action == WorkerAction::Wait(
                state.delay_ms,
            ),
            WorkerEvent::LiveEnded => r.state == state && r.status.0@ == "disconnected"@ && r.status.1@
                == "Disconnected"@ && r.action == WorkerAction::Stop,
            WorkerEvent::LiveLost { cols, rows, message } => r.state == (WorkerState { cols, rows, ..state })
                && r.status.0@ == "reconnecting"@ && r.status.1@ == message@ && r.action
                == WorkerAction::Wait(state.delay_ms),
            WorkerEvent::Waited => r.state == (WorkerState { delay_ms: next_delay(state.delay_ms), ..state })
                && r.status.0@ == "connecting"@ && r.status.1@ == "Opening SSH PTY"@ && r.action
                == WorkerAction::Connect,
            WorkerEvent::Resized { cols, rows } => r.state == (WorkerState {
                cols,
                rows,
                delay_ms: next_delay(state.delay_ms),
            }) && r.status.0@ == "connecting"@ && r.status.1@ == "Opening SSH PTY"@ && r.action
                == WorkerAction::Connect,
            WorkerEvent::DisconnectRequested => r.state == state && r.status.0@ == "disconnected"@
                && r.status.1@ == "Disconnected"@ && r.action == WorkerAction::Stop,
        },
{
    let next: u64 = if state.delay_ms < 4000 {
        state.delay_ms * 2
    } else {
        8000
    };
    match event {
        WorkerEvent::Started => WorkerStep {
            state,
            status: (copy_str("connecting"), copy_str("Opening SSH PTY")),
            action: WorkerAction::Connect,
        },
        WorkerEvent::Connected => WorkerStep {
            state: WorkerState { delay_ms: 1000, ..state },
            status: (copy_str("connected"), copy_str("Connected")),
            action: WorkerAction::RunLive,
        },
        WorkerEvent::ConnectFailed(e) => {
            let mut m = copy_str("SSH connection failed: ");
            push_str(&mut m, e.as_str());
            WorkerStep {
                state,
                status: (copy_str("reconnecting"), m),
                action: WorkerAction::Wait(state.delay_ms),
            }
        },
        WorkerEvent::LiveEnded => WorkerStep {
            state,
            status: (copy_str("disconnected"), copy_str("Disconnected")),
            action: WorkerAction::Stop,
        },
        WorkerEvent::LiveLost { cols, rows, message } => WorkerStep {
            state: WorkerState { cols, rows, ..state },
            status: (copy_str("reconnecting"), message),
            action: WorkerAction::Wait(state.delay_ms),
        },
        WorkerEvent::Waited => WorkerStep {
            state: WorkerState { delay_ms: next, ..state },
            status: (copy_str("connecting"), copy_str("Opening SSH PTY")),
            action: WorkerAction::Connect,
        },
        WorkerEvent::Resized { cols, rows } => WorkerStep {
            state: WorkerState { cols, rows, delay_ms: next },
            status: (copy_str("connecting"), copy_str("Opening SSH PTY")),
            action: WorkerAction::Connect,
        },
        WorkerEvent::DisconnectRequested => WorkerStep {
            state,
            status: (copy_str("disconnected"), copy_str("Disconnected")),
            action: WorkerAction::Stop,
        },
    }
}

} // verus!
