//! How the application names and reaches a server over SSH: keychain
//! accounts, the bastion route, the password helper script, quoting, and
//! the retry rule for failed SSH operations. Running `ssh` itself is the
//! caller's part.
use vstd::prelude::*;
use crate::config::{clean_id, clean_opt, join_path, join_path_str, opt_view, ServerConfig};
use crate::ids::{is_simple_id, new_simple_id};
use crate::text::{
    chars_of, contains, contains_str, copy_str, decimal, escape, lower_seq, lower_vec, push_decimal,
    push_str, shell_case_pattern, shell_single_quote, single_quoted, starts_with, starts_with_str,
    string_of_range, Escape,
};

verus! {

/// A pooled SSH master connection: its control socket, and when it was last
/// used, in milliseconds of a monotonic clock.
#[derive(Debug)]
pub struct SshConnection {
    pub control_path: String,
    pub last_used_ms: u64,
}

/// One line of a streamed command's output, or its end.
#[derive(Debug)]
pub struct CommandOutputEvent {
    pub session_id: String,
    pub server_id: String,
    pub line: String,
    pub done: bool,
}

/// How long an idle pooled connection is kept, in milliseconds.
pub open spec fn idle_timeout_ms() -> u64 {
    120_000
}

impl SshConnection {
    /// Was the connection used within the idle timeout before `now_ms`?
    pub fn is_fresh(&self, now_ms: u64) -> (b: bool)
        ensures
            b == (now_ms < self.last_used_ms || now_ms - self.last_used_ms < idle_timeout_ms()),
    {
        now_ms < self.last_used_ms || now_ms - self.last_used_ms < 120_000
    }
}

/// The event for one line of output, or for the end of the command.
pub fn command_output_event(session_id: &str, server_id: &str, line: &str, done: bool) -> (r:
    CommandOutputEvent)
    ensures
        r.session_id@ == session_id@,
        r.server_id@ == server_id@,
        r.line@ == line@,
        r.done == done,
{
    CommandOutputEvent {
        session_id: copy_str(session_id),
        server_id: copy_str(server_id),
        line: copy_str(line),
        done,
    }
}

/// The last event of a streamed command: it closes the stream, with an empty
/// line when the command succeeded and the error's text when it failed.
pub fn final_output_event(session_id: &str, server_id: &str, outcome: &Result<(), String>) -> (r:
    CommandOutputEvent)
    ensures
        r.session_id@ == session_id@,
        r.server_id@ == server_id@,
        r.done,
        r.line@ == match outcome {
            Ok(_) => Seq::<char>::empty(),
            Err(e) => e@,
        },
{
    match outcome {
        Ok(_) => {
            proof {
                reveal_strlit("");
            }
            command_output_event(session_id, server_id, "", true)
        },
        Err(e) => command_output_event(session_id, server_id, e.as_str(), true),
    }
}

pub open spec fn user_host_port(user: Seq<char>, host: Seq<char>, port: u16) -> Seq<char> {
    user + "@"@ + host + ":"@ + decimal(port as nat)
}

/// The keychain account of a server's SSH password.
pub open spec fn keychain_account_spec(s: ServerConfig) -> Seq<char> {
    s.id@ + ":"@ + user_host_port(s.ssh_user@, s.host@, s.ssh_port)
}

/// The keychain account the application used before accounts held the
/// server id.
pub open spec fn legacy_keychain_account_spec(s: ServerConfig) -> Seq<char> {
    user_host_port(s.ssh_user@, s.host@, s.ssh_port)
}

fn push_user_host_port(out: &mut String, user: &str, host: &str, port: u16)
    ensures
        final(out)@ == old(out)@ + user_host_port(user@, host@, port),
{
    push_str(out, user);
    push_str(out, "@");
    push_str(out, host);
    push_str(out, ":");
    push_decimal(out, port as u64);
    assert(final(out)@ =~= old(out)@ + user_host_port(user@, host@, port));
}

pub fn keychain_account(server: &ServerConfig) -> (r: String)
    ensures
        r@ == keychain_account_spec(*server),
{
    let mut r = copy_str(server.id.as_str());
    push_str(&mut r, ":");
    push_user_host_port(&mut r, server.ssh_user.as_str(), server.host.as_str(), server.ssh_port);
    assert(r@ =~= keychain_account_spec(*server));
    r
}

pub fn legacy_keychain_account(server: &ServerConfig) -> (r: String)
    ensures
        r@ == legacy_keychain_account_spec(*server),
{
    let mut r = String::new();
    push_user_host_port(&mut r, server.ssh_user.as_str(), server.host.as_str(), server.ssh_port);
    assert(r@ =~= legacy_keychain_account_spec(*server));
    r
}

/// The bastion host, trimmed, when one is set.
pub open spec fn bastion_host_spec(s: ServerConfig) -> Option<Seq<char>> {
    clean_id(s.bastion_host)
}

/// The bastion user: the one set for the bastion, else the server's.
pub open spec fn bastion_user_spec(s: ServerConfig) -> Seq<char> {
    match clean_id(s.bastion_user) {
        Some(u) => u,
        None => s.ssh_user@,
    }
}

pub open spec fn bastion_port_spec(s: ServerConfig) -> u16 {
    match s.bastion_port {
        Some(p) => p,
        None => 22,
    }
}

pub fn bastion_host(server: &ServerConfig) -> (r: Option<String>)
    ensures
        opt_view(r) == bastion_host_spec(*server),
{
    clean_opt(&server.bastion_host)
}

pub fn bastion_user(server: &ServerConfig) -> (r: String)
    ensures
        r@ == bastion_user_spec(*server),
{
    match clean_opt(&server.bastion_user) {
        Some(u) => u,
        None => server.ssh_user.clone(),
    }
}

pub fn bastion_port(server: &ServerConfig) -> (r: u16)
    ensures
        r == bastion_port_spec(*server),
{
    match server.bastion_port {
        Some(p) => p,
        None => 22,
    }
}

/// Is the server reached through a bastion?
pub fn has_bastion(server: &ServerConfig) -> (b: bool)
    ensures
        b == (bastion_host_spec(*server) is Some),
{
    bastion_host(server).is_some()
}

/// The keychain account of the bastion password, with or without the
/// server id in front; none without a bastion.
pub open spec fn bastion_account_spec(s: ServerConfig, include_server_id: bool) -> Option<
    Seq<char>,
> {
    match bastion_host_spec(s) {
        Some(h) => {
            let account = user_host_port(bastion_user_spec(s), h, bastion_port_spec(s));
            Some(
                if include_server_id {
                    s.id@ + ":"@ + account
                } else {
                    account
                },
            )
        },
        None => None,
    }
}

pub fn bastion_keychain_account_with_id(server: &ServerConfig, include_server_id: bool) -> (r:
    Option<String>)
    ensures
        opt_view(r) == bastion_account_spec(*server, include_server_id),
{
    let host = match bastion_host(server) {
        Some(h) => h,
        None => {
            return None;
        },
    };
    let user = bastion_user(server);
    let port = bastion_port(server);
    let mut r = String::new();
    if include_server_id {
        push_str(&mut r, server.id.as_str());
        push_str(&mut r, ":");
    }
    let ghost pre = r@;
    push_user_host_port(&mut r, user.as_str(), host.as_str(), port);
    assert(opt_view(Some(r)) =~= bastion_account_spec(*server, include_server_id)) by {
        if !include_server_id {
            assert(pre =~= Seq::<char>::empty());
            assert(r@ =~= user_host_port(user@, host@, port));
        }
    }
    Some(r)
}

pub fn bastion_keychain_account(server: &ServerConfig) -> (r: Option<String>)
    ensures
        opt_view(r) == bastion_account_spec(*server, true),
{
    bastion_keychain_account_with_id(server, true)
}

pub fn legacy_bastion_keychain_account(server: &ServerConfig) -> (r: Option<String>)
    ensures
        opt_view(r) == bastion_account_spec(*server, false),
{
    bastion_keychain_account_with_id(server, false)
}

/// `~/…` resolved against the home directory, when one is known; every
/// other path as it is.
pub open spec fn expand_tilde_spec(path: Seq<char>, home: Option<Seq<char>>) -> Seq<char> {
    if starts_with(path, "~/"@) && home is Some {
        join_path(home->0, path.skip(2))
    } else {
        path
    }
}

pub fn expand_tilde(path: &str, home: Option<&str>) -> (r: String)
    ensures
        r@ == expand_tilde_spec(
            path@,
            match home {
                Some(h) => Some(h@),
                None => None,
            },
        ),
{
    let v = chars_of(path);
    if starts_with_str(&v, "~/") {
        if let Some(h) = home {
            proof {
                reveal_strlit("~/");
            }
            let rest = string_of_range(&v, 2, v.len());
            assert(rest@ =~= path@.skip(2));
            return join_path_str(h, rest.as_str());
        }
    }
    copy_str(path)
}

/// The route to the bastion through a `ProxyJump`: `user@host:port`.
pub open spec fn proxy_jump_spec(s: ServerConfig) -> Option<Seq<char>> {
    bastion_account_spec(s, false)
}

pub fn bastion_proxy_jump(server: &ServerConfig) -> (r: Option<String>)
    ensures
        opt_view(r) == proxy_jump_spec(*server),
{
    bastion_keychain_account_with_id(server, false)
}

/// The route to the bastion through a `ProxyCommand`, used when the bastion
/// has its own key.
pub open spec fn proxy_command_spec(s: ServerConfig, home: Option<Seq<char>>) -> Option<
    Seq<char>,
> {
    match (clean_id(s.bastion_ssh_key_path), bastion_host_spec(s)) {
        (Some(key), Some(h)) => Some(
            "ssh -W %h:%p -p "@ + decimal(bastion_port_spec(s) as nat)
                + " -o BatchMode=no -o StrictHostKeyChecking=accept-new -o PreferredAuthentications=publickey,password -i "@
                + single_quoted(expand_tilde_spec(key, home)) + " -o IdentitiesOnly=yes "@
                + single_quoted(bastion_user_spec(s) + "@"@ + h),
        ),
        _ => None,
    }
}

pub fn bastion_proxy_command(server: &ServerConfig, home: Option<&str>) -> (r: Option<String>)
    ensures
        opt_view(r) == proxy_command_spec(
            *server,
            match home {
                Some(h) => Some(h@),
                None => None,
            },
        ),
{
    let key = match clean_opt(&server.bastion_ssh_key_path) {
        Some(k) => k,
        None => {
            return None;
        },
    };
    let host = match bastion_host(server) {
        Some(h) => h,
        None => {
            return None;
        },
    };
    let user = bastion_user(server);
    let port = bastion_port(server);
    let mut r = copy_str("ssh -W %h:%p -p ");
    push_decimal(&mut r, port as u64);
    push_str(
        &mut r,
        " -o BatchMode=no -o StrictHostKeyChecking=accept-new -o PreferredAuthentications=publickey,password -i ",
    );
    let expanded = expand_tilde(key.as_str(), home);
    let q1 = shell_single_quote(expanded.as_str());
    push_str(&mut r, q1.as_str());
    push_str(&mut r, " -o IdentitiesOnly=yes ");
    let mut target = user;
    push_str(&mut target, "@");
    push_str(&mut target, host.as_str());
    let q2 = shell_single_quote(target.as_str());
    push_str(&mut r, q2.as_str());
    Some(r)
}

/// The bastion route a connection goes through, if any.
pub open spec fn route_id_spec(s: ServerConfig, home: Option<Seq<char>>) -> Option<Seq<char>> {
    match proxy_command_spec(s, home) {
        Some(c) => Some(c),
        None => proxy_jump_spec(s),
    }
}

pub fn bastion_route_id(server: &ServerConfig, home: Option<&str>) -> (r: Option<String>)
    ensures
        opt_view(r) == route_id_spec(
            *server,
            match home {
                Some(h) => Some(h@),
                None => None,
            },
        ),
{
    match bastion_proxy_command(server, home) {
        Some(c) => Some(c),
        None => bastion_proxy_jump(server),
    }
}

/// The key under which a server's pooled connection is kept: its account,
/// and the bastion route when there is one.
pub open spec fn pool_account_spec(s: ServerConfig, home: Option<Seq<char>>) -> Seq<char> {
    match route_id_spec(s, home) {
        Some(route) => keychain_account_spec(s) + " via "@ + route,
        None => keychain_account_spec(s),
    }
}

pub fn connection_pool_account(server: &ServerConfig, home: Option<&str>) -> (r: String)
    ensures
        r@ == pool_account_spec(
            *server,
            match home {
                Some(h) => Some(h@),
                None => None,
            },
        ),
{
    let mut account = keychain_account(server);
    match bastion_route_id(server, home) {
        Some(route) => {
            push_str(&mut account, " via ");
            push_str(&mut account, route.as_str());
            account
        },
        None => account,
    }
}

/// The directory of the pooled connections' control sockets.
pub fn ssh_socket_dir() -> (r: String)
    ensures
        r@ == "/tmp/nodenet-ssh"@,
{
    copy_str("/tmp/nodenet-ssh")
}

/// A fresh control socket path in the socket directory.
pub fn ssh_control_path() -> (r: String)
    ensures
        exists|id: Seq<char>|
            is_simple_id(id) && r@ == join_path("/tmp/nodenet-ssh"@, "c-"@ + id + ".sock"@),
{
    let dir = ssh_socket_dir();
    let id = new_simple_id();
    let mut name = copy_str("c-");
    push_str(&mut name, id.as_str());
    push_str(&mut name, ".sock");
    let r = join_path_str(dir.as_str(), name.as_str());
    assert(is_simple_id(id@) && r@ == join_path("/tmp/nodenet-ssh"@, "c-"@ + id@ + ".sock"@));
    r
}

/// Does an SSH failure message say that authentication failed?
pub open spec fn is_auth_error_spec(message: Seq<char>) -> bool {
    let m = lower_seq(message);
    ||| contains(m, "authentication"@)
    ||| contains(m, "permission denied"@)
    ||| contains(m, "too many authentication failures"@)
    ||| contains(m, "publickey,password"@)
}

pub fn is_auth_error(message: &str) -> (b: bool)
    ensures
        b == is_auth_error_spec(message@),
{
    let m = lower_vec(&chars_of(message));
    contains_str(&m, "authentication") || contains_str(&m, "permission denied") || contains_str(
        &m,
        "too many authentication failures",
    ) || contains_str(&m, "publickey,password")
}

/// Does an SSH failure message say that the pooled connection broke?
pub open spec fn is_connection_reuse_error_spec(message: Seq<char>) -> bool {
    let m = lower_seq(message);
    ||| contains(m, "mux_client_request_session"@)
    ||| contains(m, "read from master failed"@)
    ||| contains(m, "broken pipe"@)
    ||| contains(m, "control socket"@)
    ||| contains(m, "connection closed"@)
    ||| contains(m, "connection reset"@)
    ||| contains(m, "timed out"@)
}

pub fn is_connection_reuse_error(message: &str) -> (b: bool)
    ensures
        b == is_connection_reuse_error_spec(message@),
{
    let m = lower_vec(&chars_of(message));
    contains_str(&m, "mux_client_request_session") || contains_str(&m, "read from master failed")
        || contains_str(&m, "broken pipe") || contains_str(&m, "control socket") || contains_str(
        &m,
        "connection closed",
    ) || contains_str(&m, "connection reset") || contains_str(&m, "timed out")
}

/// The password helper script that `ssh` runs through `SSH_ASKPASS`: it
/// answers prompts that mention the bastion with the bastion secret (or
/// the target's, when the bastion has none) and every other prompt with the
/// target's secret.
pub open spec fn askpass_script_spec(
    target_secret: Option<Seq<char>>,
    bastion_secret: Option<Seq<char>>,
    s: ServerConfig,
) -> Option<Seq<char>> {
    if target_secret is None && bastion_secret is None {
        None
    } else {
        let account = match bastion_account_spec(s, true) {
            Some(a) => a,
            None => seq![],
        };
        let host = match s.bastion_host {
            Some(h) => h@,
            None => seq![],
        };
        let target = match target_secret {
            Some(t) => t,
            None => seq![],
        };
        let bastion = match bastion_secret {
            Some(b) => b,
            None => target,
        };
        Some(
            "#!/bin/sh\nprompt=\"$1\"\ncase \"$prompt\" in\n  *"@ + escape(
                Escape::CasePattern,
                account,
            ) + "*|*"@ + escape(Escape::CasePattern, host) + "*) printf '%s\\n' "@
                + single_quoted(bastion) + " ;;\n  *) printf '%s\\n' "@ + single_quoted(target)
                + " ;;\nesac\n"@,
        )
    }
}

pub fn askpass_script(
    target_secret: Option<&str>,
    bastion_secret: Option<&str>,
    server: &ServerConfig,
) -> (r: Option<String>)
    ensures
        opt_view(r) == askpass_script_spec(
            match target_secret {
                Some(t) => Some(t@),
                None => None,
            },
            match bastion_secret {
                Some(b) => Some(b@),
                None => None,
            },
            *server,
        ),
{
    if target_secret.is_none() && bastion_secret.is_none() {
        return None;
    }
    let account = match bastion_keychain_account(server) {
        Some(a) => a,
        None => String::new(),
    };
    let host = match &server.bastion_host {
        Some(h) => h.clone(),
        None => String::new(),
    };
    let target: &str = match target_secret {
        Some(t) => t,
        None => "",
    };
    proof {
        reveal_strlit("");
    }
    let bastion: &str = match bastion_secret {
        Some(b) => b,
        None => target,
    };
    let mut r = copy_str("#!/bin/sh\nprompt=\"$1\"\ncase \"$prompt\" in\n  *");
    let p1 = shell_case_pattern(account.as_str());
    push_str(&mut r, p1.as_str());
    push_str(&mut r, "*|*");
    let p2 = shell_case_pattern(host.as_str());
    push_str(&mut r, p2.as_str());
    push_str(&mut r, "*) printf '%s\\n' ");
    let q1 = shell_single_quote(bastion);
    push_str(&mut r, q1.as_str());
    push_str(&mut r, " ;;\n  *) printf '%s\\n' ");
    let q2 = shell_single_quote(target);
    push_str(&mut r, q2.as_str());
    push_str(&mut r, " ;;\nesac\n");
    Some(r)
}

/// What to do after an SSH operation failed.
#[derive(Debug, PartialEq, Eq, Structural)]
pub enum RetryDecision {
    /// Give up and report that authentication failed.
    AuthenticationFailed,
    /// Wait `wait_ms` and try again; the wait after that is `next_delay_ms`.
    Retry { wait_ms: u64, next_delay_ms: u64 },
    /// Give up and report this failure.
    GiveUp,
}

/// How many times an SSH operation is tried.
pub open spec fn retry_attempts() -> u64 {
    3
}

/// The wait before the first retry, in milliseconds.
pub const FIRST_RETRY_DELAY_MS: u64 = 450;

/// The longest wait between tries, in milliseconds.
pub open spec fn max_retry_delay_ms() -> u64 {
    4000
}

/// What to do after try number `attempt` (counted from 0) failed, with
/// `delay_ms` the wait planned before the next try. An authentication
/// failure is never retried; other failures are retried until the tries
/// run out, each wait twice the previous one, at most 4 seconds.
pub fn retry_after_failure(attempt: u64, delay_ms: u64, is_auth_failure: bool) -> (r:
    RetryDecision)
    ensures
        is_auth_failure ==> r == RetryDecision::AuthenticationFailed,
        !is_auth_failure && attempt + 1 < retry_attempts() ==> r == (RetryDecision::Retry {
            wait_ms: delay_ms,
            next_delay_ms: if delay_ms * 2 < max_retry_delay_ms() {
                (delay_ms * 2) as u64
            } else {
                max_retry_delay_ms()
            },
        }),
        !is_auth_failure && attempt + 1 >= retry_attempts() ==> r == RetryDecision::GiveUp,
{
    if is_auth_failure {
        RetryDecision::AuthenticationFailed
    } else if attempt < 2 {
        let next = if delay_ms < 2000 {
            delay_ms * 2
        } else {
            4000
        };
        RetryDecision::Retry { wait_ms: delay_ms, next_delay_ms: next }
    } else {
        RetryDecision::GiveUp
    }
}

/// The message an authentication failure is reported with.
pub fn auth_failed_message() -> (r: String)
    ensures
        r@ == "SSH authentication failed. Check password in Keychain \u{2192} Settings."@,
{
    copy_str("SSH authentication failed. Check password in Keychain \u{2192} Settings.")
}

} // verus!
