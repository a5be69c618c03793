//! The decisions of a session with a 3x-ui panel: when a cached session or
//! tunnel is still good, which headers a request carries, and what to do
//! with each reply: log in again and retry once, fail with a message, or
//! take the answer. Sending the requests and reading the JSON replies is
//! the caller's part.
use vstd::prelude::*;
use crate::config::{opt_view, ServerConfig};
use crate::text::{copy_str, push_str, str_eq, trim, trim_str};
use crate::three_x_ui::{needs_relogin, should_retry_login, should_retry_login_spec};

verus! {

/// How long a logged-in session is reused, in milliseconds (25 minutes).
pub const SESSION_TTL_MS: u64 = 1_500_000;

/// How long an idle tunnel to a panel is kept, in milliseconds (30
/// minutes).
pub const PANEL_TUNNEL_TTL_MS: u64 = 1_800_000;

/// Is a session cached at `cached_at_ms` still reused at `now_ms` (times on
/// the caller's monotonic clock)?
pub fn session_is_fresh(cached_at_ms: u64, now_ms: u64) -> (b: bool)
    ensures
        b == (now_ms < cached_at_ms || now_ms - cached_at_ms < SESSION_TTL_MS),
{
    now_ms < cached_at_ms || now_ms - cached_at_ms < SESSION_TTL_MS
}

/// Is a tunnel last used at `last_used_ms` still kept at `now_ms`?
pub fn tunnel_is_fresh(last_used_ms: u64, now_ms: u64) -> (b: bool)
    ensures
        b == (now_ms < last_used_ms || now_ms - last_used_ms < PANEL_TUNNEL_TTL_MS),
{
    now_ms < last_used_ms || now_ms - last_used_ms < PANEL_TUNNEL_TTL_MS
}

/// A request's CSRF token: sent with every method but `GET`, `HEAD` and
/// `OPTIONS`, when the session has one.
pub fn csrf_header(method: &str, token: &Option<String>) -> (r: Option<String>)
    ensures
        opt_view(r) == if method@ == "GET"@ || method@ == "HEAD"@ || method@ == "OPTIONS"@ {
            None
        } else {
            opt_view(*token)
        },
{
    if str_eq(method, "GET") || str_eq(method, "HEAD") || str_eq(method, "OPTIONS") {
        None
    } else {
        match token {
            Some(t) => Some(t.clone()),
            None => None,
        }
    }
}

/// What a panel call is: an action, whose empty reply means success, or a
/// request for data.
#[derive(Clone, Copy, Debug, PartialEq, Eq, Structural)]
pub enum CallKind {
    Action,
    Request,
}

pub open spec fn failed_prefix(kind: CallKind) -> Seq<char> {
    match kind {
        CallKind::Action => "3x-ui action failed"@,
        CallKind::Request => "3x-ui request failed"@,
    }
}

/// The next step after a reply's status and text.
#[derive(Debug)]
pub enum ReplyStep {
    /// Log in again and send the call once more.
    Relogin,
    /// The call failed with this message.
    Fail(String),
    /// The call succeeded with nothing to read.
    Done,
    /// Read the reply's JSON.
    Read,
}

/// After a reply: a reply that asks for a login is retried once after
/// logging in again; another failure status fails; an action's empty reply
/// succeeds; otherwise the reply is read. `status_text` is how the status
/// is written (its code and reason).
pub fn reply_step(kind: CallKind, attempt: u32, status: u16, status_text: &str, text: &str) -> (r: ReplyStep)
    ensures
        ({
            let relogin = (status == 401 || status == 403 || should_retry_login_spec(Some(text@)))
                && attempt == 0;
            if relogin {
                r is Relogin
            } else if !(200 <= status <= 299) {
                r matches ReplyStep::Fail(m) && m@ == failed_prefix(kind) + " ("@ + status_text@ + "): "@
                    + trim(text@)
            } else if kind == CallKind::Action && trim(text@).len() == 0 {
                r is Done
            } else {
                r is Read
            }
        }),
{
    if needs_relogin(status, text) && attempt == 0 {
        return ReplyStep::Relogin;
    }
    if !(200 <= status && status <= 299) {
        let mut m = match kind {
            CallKind::Action => copy_str("3x-ui action failed"),
            CallKind::Request => copy_str("3x-ui request failed"),
        };
        push_str(&mut m, " (");
        push_str(&mut m, status_text);
        push_str(&mut m, "): ");
        push_str(&mut m, trim_str(text).as_str());
        return ReplyStep::Fail(m);
    }
    match kind {
        CallKind::Action => {
            if trim_str(text).as_str().is_empty() {
                return ReplyStep::Done;
            }
        },
        CallKind::Request => {},
    }
    ReplyStep::Read
}

/// The next step after the reply's `success` and `msg`.
#[derive(Debug)]
pub enum AnswerStep {
    Relogin,
    Fail(String),
    Accept,
}

/// After reading a reply: a refusal that speaks of the login is retried
/// once after logging in again; another refusal fails with the panel's
/// message; anything else is accepted.
pub fn answer_step(kind: CallKind, attempt: u32, success: Option<bool>, msg: Option<&str>) -> (r: AnswerStep)
    ensures
        success == Some(false) && should_retry_login_spec(
            match msg {
                Some(m) => Some(m@),
                None => None,
            },
        ) && attempt == 0 ==> r is Relogin,
        success == Some(false) && !(should_retry_login_spec(
            match msg {
                Some(m) => Some(m@),
                None => None,
            },
        ) && attempt == 0) ==> (r matches AnswerStep::Fail(m) && m@ == failed_prefix(kind) + ": "@
            + match msg {
            Some(t) => t@,
            None => "unknown error"@,
        }),
        success != Some(false) ==> r is Accept,
{
    if success == Some(false) {
        if should_retry_login(msg) && attempt == 0 {
            return AnswerStep::Relogin;
        }
        let mut m = match kind {
            CallKind::Action => copy_str("3x-ui action failed"),
            CallKind::Request => copy_str("3x-ui request failed"),
        };
        push_str(&mut m, ": ");
        match msg {
            Some(t) => push_str(&mut m, t),
            None => push_str(&mut m, "unknown error"),
        }
        return AnswerStep::Fail(m);
    }
    AnswerStep::Accept
}

/// The message when a call still asks for a login after logging in again.
pub fn failed_after_relogin(kind: CallKind) -> (r: String)
    ensures
        r@ == failed_prefix(kind) + " after relogin"@,
{
    let mut m = match kind {
        CallKind::Action => copy_str("3x-ui action failed"),
        CallKind::Request => copy_str("3x-ui request failed"),
    };
    push_str(&mut m, " after relogin");
    m
}

/// The message of a refused login: by status (with the reply's text), or
/// by the panel's answer (its message, else `invalid credentials`); the
/// route through a bastion is named.
pub fn login_failure(uses_bastion: bool, status_text: Option<&str>, text: &str, msg: Option<&str>) -> (r: String)
    ensures
        r@ == (if uses_bastion {
            "3x-ui login failed through bastion"@
        } else {
            "3x-ui login failed"@
        }) + match status_text {
            Some(s) => " ("@ + s@ + "): "@ + trim(text@),
            None => ": "@ + match msg {
                Some(m) => m@,
                None => "invalid credentials"@,
            },
        },
{
    let mut m = if uses_bastion {
        copy_str("3x-ui login failed through bastion")
    } else {
        copy_str("3x-ui login failed")
    };
    match status_text {
        Some(s) => {
            push_str(&mut m, " (");
            push_str(&mut m, s);
            push_str(&mut m, "): ");
            push_str(&mut m, trim_str(text).as_str());
        },
        None => {
            push_str(&mut m, ": ");
            match msg {
                Some(t) => push_str(&mut m, t),
                None => push_str(&mut m, "invalid credentials"),
            }
        },
    }
    m
}

/// A CSRF token from the panel's token endpoint, unless blank.
pub fn endpoint_csrf_token(obj: Option<String>) -> (r: Option<String>)
    ensures
        opt_view(r) == match obj {
            Some(t) => if trim(t@).len() > 0 {
                Some(t@)
            } else {
                None
            },
            None => None,
        },
{
    match obj {
        Some(t) => {
            if trim_str(t.as_str()).as_str().is_empty() {
                None
            } else {
                Some(t)
            }
        },
        None => None,
    }
}

/// How saved panel credentials are read from the Keychain: a JSON record
/// (starting with `{`), or a bare password for the server's panel user
/// (`admin` when it has none).
#[derive(Debug)]
pub enum StoredCredentials {
    Json(String),
    Password { username: String, password: String },
}

pub fn stored_credentials(raw: String, server: &ServerConfig) -> (r: StoredCredentials)
    ensures
        raw@.len() > 0 && raw@[0] == '{' ==> r == StoredCredentials::Json(raw),
        !(raw@.len() > 0 && raw@[0] == '{') ==> (r matches StoredCredentials::Password { username: u, password: p }
            && p == raw && u@ == match server.panel_user {
            Some(n) => n@,
            None => "admin"@,
        }),
{
    let c = crate::text::chars_of(raw.as_str());
    if c.len() > 0 && c[0] == '{' {
        StoredCredentials::Json(raw)
    } else {
        let username = match &server.panel_user {
            Some(n) => n.clone(),
            None => copy_str("admin"),
        };
        StoredCredentials::Password { username, password: raw }
    }
}

} // verus!
