//! What the application reads of a 3x-ui panel's setup from the server:
//! the commands that ask for it and their order, the `x-ui settings`
//! report, the panel's database values, and the panel address built from
//! them.
use vstd::prelude::*;
use crate::config::{AppConfig, ServerConfig};
use crate::registry::{find_index, first_index, has_key};
use crate::text::{
    chars_of, contains, contains_str, copy_str, decimal, find_char, first_u16, first_u16_vec,
    has_char, is_first_char, lines, lower_seq, lower_vec, push_char, push_decimal, push_str,
    set_pred, split_lines, str_eq, string_of_range, strip, strip_ansi, strip_ansi_codes, strip_str,
    trim, trim_str, views, CharSet, parse_u16_spec, parse_u16_str, starts_with, starts_with_str,
    push_escaped, escape, Escape, strip_vec, is_ws, lemma_first_char_unique, string_views,
};

verus! {

/// The panel's port, login and base path as found on the server, and where
/// they were found (`cli`, `sqlite`, `fallback` or `default`).
#[derive(Clone, Debug)]
pub struct PanelSetupInfo {
    pub port: u16,
    pub username: String,
    pub password: String,
    pub web_base_path: String,
    pub source: String,
}

/// The port the panel listens on unless the server says otherwise.
pub open spec fn default_panel_port() -> u16 {
    65333
}

/// What follows the first `:` of a line, or else the first `=`.
pub open spec fn after_separator(s: Seq<char>) -> Option<Seq<char>> {
    if has_char(s, ':') {
        let i = choose|i: int| is_first_char(s, ':', i);
        Some(s.subrange(i + 1, s.len() as int))
    } else if has_char(s, '=') {
        let i = choose|i: int| is_first_char(s, '=', i);
        Some(s.subrange(i + 1, s.len() as int))
    } else {
        None
    }
}

/// A reported value cleaned up: trimmed, control sequences removed, and
/// quotes and surrounding space stripped.
pub open spec fn clean_value(v: Seq<char>) -> Seq<char> {
    trim(
        strip(
            strip(strip_ansi(trim(v)), set_pred(CharSet::One('"'))),
            set_pred(CharSet::One('\'')),
        ),
    )
}

/// The value of a `key: value` or `key=value` line, if it is not blank.
pub open spec fn separator_value(line: Seq<char>) -> Option<Seq<char>> {
    match after_separator(line) {
        Some(v) => if clean_value(v).len() > 0 {
            Some(clean_value(v))
        } else {
            None
        },
        None => None,
    }
}
pub fn value_after_separator_vec(line: &Vec<char>) -> (r: Option<String>)
    ensures
        opt_seq(r) == separator_value(line@),
{
    let idx = match find_char(line, ':') {
        Some(i) => {
            proof {
                let k = choose|k: int| is_first_char(line@, ':', k);
                lemma_first_char_unique(line@, ':', i as int, k);
            }
            i
        },
        None => match find_char(line, '=') {
            Some(i) => {
                proof {
                    let k = choose|k: int| is_first_char(line@, '=', k);
                    lemma_first_char_unique(line@, '=', i as int, k);
                }
                i
            },
            None => {
                return None;
            },
        },
    };
    assert(idx < line.len());
    let raw = string_of_range(line, idx + 1, line.len());
    let t1 = trim_str(raw.as_str());
    let t2 = strip_ansi_codes(t1.as_str());
    let t3 = strip_str(t2.as_str(), CharSet::One('"'));
    let t4 = strip_str(t3.as_str(), CharSet::One('\''));
    let t5 = trim_str(t4.as_str());
    if t5.as_str().is_empty() {
        None
    } else {
        Some(t5)
    }
}

pub open spec fn opt_seq(o: Option<String>) -> Option<Seq<char>> {
    match o {
        Some(s) => Some(s@),
        None => None,
    }
}

/// The value of a `key: value` or `key=value` line, cleaned of quotes and
/// terminal control sequences; `None` when there is no separator or the
/// value is blank.
pub fn value_after_separator(line: &str) -> (r: Option<String>)
    ensures
        opt_seq(r) == separator_value(line@),
{
    let v = chars_of(line);
    value_after_separator_vec(&v)
}

/// A panel base path as the panel address uses it: without quotes or
/// surrounding slashes, with one leading `/`, or empty.
pub open spec fn normalized_base_path(v: Seq<char>) -> Seq<char> {
    let t = strip(
        strip(strip(trim(v), set_pred(CharSet::One('"'))), set_pred(CharSet::One('\''))),
        set_pred(CharSet::One('/')),
    );
    if t.len() == 0 {
        seq![]
    } else {
        seq!['/'] + t
    }
}

pub fn normalize_panel_base_path(value: &str) -> (r: String)
    ensures
        r@ == normalized_base_path(value@),
{
    let t1 = trim_str(value);
    let t2 = strip_str(t1.as_str(), CharSet::One('"'));
    let t3 = strip_str(t2.as_str(), CharSet::One('\''));
    let t4 = strip_str(t3.as_str(), CharSet::One('/'));
    if t4.as_str().is_empty() {
        String::new()
    } else {
        let mut r = String::new();
        push_char(&mut r, '/');
        push_str(&mut r, t4.as_str());
        assert(r@ =~= seq!['/'] + t4@);
        r
    }
}

/// The panel address for a host, port and base path.
pub open spec fn panel_url_spec(host: Seq<char>, port: u16, base: Seq<char>) -> Seq<char> {
    "http://"@ + host + ":"@ + decimal(port as nat) + normalized_base_path(base)
}

pub fn panel_url_from_setup_info(host: &str, port: u16, web_base_path: &str) -> (r: String)
    ensures
        r@ == panel_url_spec(host@, port, web_base_path@),
{
    let base = normalize_panel_base_path(web_base_path);
    let mut r = copy_str("http://");
    push_str(&mut r, host);
    push_str(&mut r, ":");
    push_decimal(&mut r, port as u64);
    push_str(&mut r, base.as_str());
    r
}

/// The port given on the first line that mentions a port and holds a
/// number that fits one.
pub open spec fn first_port(ls: Seq<Seq<char>>) -> Option<u16>
    decreases ls.len(),
{
    if ls.len() == 0 {
        None
    } else if contains(lower_seq(ls[0]), "port"@) && first_u16(ls[0]) is Some {
        first_u16(ls[0])
    } else {
        first_port(ls.drop_first())
    }
}

/// The value on the first line that mentions `k1` or `k2` (in lower case)
/// and holds a non-blank value.
pub open spec fn first_value(ls: Seq<Seq<char>>, k1: Seq<char>, k2: Seq<char>) -> Option<
    Seq<char>,
>
    decreases ls.len(),
{
    if ls.len() == 0 {
        None
    } else if (contains(lower_seq(ls[0]), k1) || contains(lower_seq(ls[0]), k2))
        && separator_value(ls[0]) is Some {
        separator_value(ls[0])
    } else {
        first_value(ls.drop_first(), k1, k2)
    }
}

pub open spec fn or_default(o: Option<Seq<char>>, d: Seq<char>) -> Seq<char> {
    match o {
        Some(v) => v,
        None => d,
    }
}

/// The setup that a report such as `x-ui settings` gives: the first port,
/// user name, password and base path it mentions, with the panel's defaults
/// for what it does not.
pub open spec fn setup_from_report(output: Seq<char>) -> (u16, Seq<char>, Seq<char>, Seq<char>) {
    let ls = lines(output);
    (
        match first_port(ls) {
            Some(p) => p,
            None => default_panel_port(),
        },
        or_default(first_value(ls, "username"@, "user"@), "admin"@),
        or_default(first_value(ls, "password"@, "pass"@), seq![]),
        match first_value(ls, "webbasepath"@, "web base path"@) {
            Some(v) => normalized_base_path(v),
            None => seq![],
        },
    )
}

pub fn mentions(lower: &Vec<char>, k1: &str, k2: &str) -> (b: bool)
    ensures
        b == (contains(lower@, k1@) || contains(lower@, k2@)),
{
    contains_str(lower, k1) || contains_str(lower, k2)
}

/// Reads the panel setup out of a report; `source` names where the report
/// came from.
pub fn parse_panel_setup_info(output: &str, source: &str) -> (r: PanelSetupInfo)
    ensures
        (r.port, r.username@, r.password@, r.web_base_path@) == setup_from_report(output@),
        r.source@ == source@,
{
    let ls = split_lines(output);
    let ghost all = views(ls@);
    let mut port: Option<u16> = None;
    let mut username: Option<String> = None;
    let mut password: Option<String> = None;
    let mut web_base_path: Option<String> = None;
    let mut i: usize = 0;
    assert(all.subrange(0, all.len() as int) =~= all);
    while i < ls.len()
        invariant
            all == views(ls@),
            all == lines(output@),
            i <= ls@.len(),
            first_port(all) == (if port is Some {
                port
            } else {
                first_port(all.subrange(i as int, all.len() as int))
            }),
            first_value(all, "username"@, "user"@) == (if username is Some {
                opt_seq(username)
            } else {
                first_value(all.subrange(i as int, all.len() as int), "username"@, "user"@)
            }),
            first_value(all, "password"@, "pass"@) == (if password is Some {
                opt_seq(password)
            } else {
                first_value(all.subrange(i as int, all.len() as int), "password"@, "pass"@)
            }),
            first_value(all, "webbasepath"@, "web base path"@) == (if web_base_path is Some {
                opt_seq(web_base_path)
            } else {
                first_value(
                    all.subrange(i as int, all.len() as int),
                    "webbasepath"@,
                    "web base path"@,
                )
            }),
        decreases ls.len() - i,
    {
        let line = &ls[i];
        let lower = lower_vec(line);
        let ghost rest = all.subrange(i as int, all.len() as int);
        assert(rest[0] == line@);
        assert(rest.drop_first() =~= all.subrange(i + 1, all.len() as int));
        if port.is_none() && contains_str(&lower, "port") {
            port = first_u16_vec(line);
        }
        if username.is_none() && mentions(&lower, "username", "user") {
            username = value_after_separator_vec(line);
        }
        if password.is_none() && mentions(&lower, "password", "pass") {
            password = value_after_separator_vec(line);
        }
        if web_base_path.is_none() && mentions(&lower, "webbasepath", "web base path") {
            web_base_path = value_after_separator_vec(line);
        }
        i = i + 1;
    }
    let ghost end = all.subrange(i as int, all.len() as int);
    assert(end.len() == 0);
    let port = match port {
        Some(p) => p,
        None => 65333,
    };
    let username = match username {
        Some(u) => u,
        None => copy_str("admin"),
    };
    let password = match password {
        Some(p) => p,
        None => String::new(),
    };
    let web_base_path = match web_base_path {
        Some(w) => normalize_panel_base_path(w.as_str()),
        None => String::new(),
    };
    PanelSetupInfo { port, username, password, web_base_path, source: copy_str(source) }
}

/// Fills in what `base` lacks from `candidate`: a user name other than the
/// default, a port other than the default, a password, a base path.
pub fn merge_panel_setup_info(base: &mut PanelSetupInfo, candidate: PanelSetupInfo)
    ensures
        final(base).username@ == (if old(base).username@ == "admin"@ && candidate.username@
            != "admin"@ {
            candidate.username@
        } else {
            old(base).username@
        }),
        final(base).port == (if old(base).port == 65333 && candidate.port != 65333 {
            candidate.port
        } else {
            old(base).port
        }),
        final(base).password@ == (if old(base).password@.len() == 0
            && candidate.password@.len() > 0 {
            candidate.password@
        } else {
            old(base).password@
        }),
        final(base).web_base_path@ == (if old(base).web_base_path@.len() == 0
            && candidate.web_base_path@.len() > 0 {
            candidate.web_base_path@
        } else {
            old(base).web_base_path@
        }),
        final(base).source == old(base).source,
{
    let PanelSetupInfo { port, username, password, web_base_path, source: _ } = candidate;
    if str_eq(base.username.as_str(), "admin") && !str_eq(username.as_str(), "admin") {
        base.username = username;
    }
    if base.port == 65333 && port != 65333 {
        base.port = port;
    }
    if base.password.as_str().is_empty() && !password.as_str().is_empty() {
        base.password = password;
    }
    if base.web_base_path.as_str().is_empty() && !web_base_path.as_str().is_empty() {
        base.web_base_path = web_base_path;
    }
}


// ---------------------------------------------------------------------
// The panel's database, read with `sqlite3` on the server
// ---------------------------------------------------------------------

/// The `sqlite3` command that prints the value of one key of the panel's
/// `settings` table, the key quoted as an SQL string.
pub open spec fn sqlite_setting_command_spec(key: Seq<char>) -> Seq<char> {
    "sqlite3 /etc/x-ui/x-ui.db \"SELECT value FROM settings WHERE key='"@ + escape(
        Escape::SqlQuoted,
        key,
    ) + "' LIMIT 1;\" 2>/dev/null || true"@
}

pub fn sqlite_setting_command(key: &str) -> (r: String)
    ensures
        r@ == sqlite_setting_command_spec(key@),
{
    let mut r = copy_str("sqlite3 /etc/x-ui/x-ui.db \"SELECT value FROM settings WHERE key='");
    push_escaped(&mut r, Escape::SqlQuoted, key);
    push_str(&mut r, "' LIMIT 1;\" 2>/dev/null || true");
    r
}

/// The first line that is not blank, trimmed.
pub open spec fn first_nonblank(ls: Seq<Seq<char>>) -> Option<Seq<char>>
    decreases ls.len(),
{
    if ls.len() == 0 {
        None
    } else if trim(ls[0]).len() > 0 {
        Some(trim(ls[0]))
    } else {
        first_nonblank(ls.drop_first())
    }
}

/// The value a `sqlite3` query printed: its first non-blank line, trimmed.
pub fn first_nonblank_line(output: &str) -> (r: Option<String>)
    ensures
        opt_seq(r) == first_nonblank(lines(output@)),
{
    let ls = split_lines(output);
    let ghost all = views(ls@);
    assert(all.subrange(0, all.len() as int) =~= all);
    let mut i: usize = 0;
    while i < ls.len()
        invariant
            all == views(ls@),
            all == lines(output@),
            i <= ls@.len(),
            first_nonblank(all) == first_nonblank(all.subrange(i as int, all.len() as int)),
        decreases ls.len() - i,
    {
        let t = strip_vec(&ls[i], CharSet::Space);
        assert(set_pred(CharSet::Space) =~= (|c: char| is_ws(c)));
        let ghost rest = all.subrange(i as int, all.len() as int);
        assert(rest[0] == ls@[i as int]@);
        if !t.as_str().is_empty() {
            return Some(t);
        }
        assert(rest.drop_first() =~= all.subrange(i + 1, all.len() as int));
        i = i + 1;
    }
    None
}

/// A password from the panel's `users` table, unless it is a bcrypt hash
/// (starting with `$2`), which cannot be used to log in.
pub open spec fn usable_password_spec(v: Option<Seq<char>>) -> Option<Seq<char>> {
    match v {
        Some(p) => if starts_with(p, "$2"@) {
            None
        } else {
            Some(p)
        },
        None => None,
    }
}

pub fn usable_password(v: Option<String>) -> (r: Option<String>)
    ensures
        opt_seq(r) == usable_password_spec(opt_seq(v)),
{
    match v {
        Some(p) => {
            let c = chars_of(p.as_str());
            if starts_with_str(&c, "$2") {
                None
            } else {
                Some(p)
            }
        },
        None => None,
    }
}

/// What the panel's database gave: the login from the settings table or
/// else the `users` table, and the port and base path from the settings.
pub struct PanelDatabaseValues {
    pub username: Option<String>,
    pub password: Option<String>,
    pub port: Option<String>,
    pub web_base_path: Option<String>,
}

/// After the report and the database have been read: either the answer, or
/// the setup so far, to be completed from the `x-ui` menu's output.
pub enum SetupStep {
    Done(PanelSetupInfo),
    NeedsFallback(PanelSetupInfo),
}

/// The report's values with the database's put over them: the user name,
/// the port when it parses, the base path normalized.
pub open spec fn with_database(info: PanelSetupInfo, db: PanelDatabaseValues) -> (
    u16,
    Seq<char>,
    Seq<char>,
) {
    (
        match db.port {
            Some(p) => match parse_u16_spec(p@) {
                Some(n) => n,
                None => info.port,
            },
            None => info.port,
        },
        match db.username {
            Some(u) => u@,
            None => info.username@,
        },
        match db.web_base_path {
            Some(w) => normalized_base_path(w@),
            None => info.web_base_path@,
        },
    )
}

/// The database gave a user name, a port that parses, or a base path.
pub open spec fn database_found(db: PanelDatabaseValues) -> bool {
    ||| db.username is Some
    ||| (db.port is Some && parse_u16_spec(db.port->0@) is Some)
    ||| db.web_base_path is Some
}

/// Puts the database's values over what `x-ui settings` reported. A
/// password from the database ends the search, with the source `sqlite`;
/// so does a password from the report, with its source kept. Without a
/// password the search goes on, the source set to `sqlite` when the
/// database gave anything.
pub fn apply_database_values(info: PanelSetupInfo, db: PanelDatabaseValues) -> (r: SetupStep)
    ensures
        ({
            let (port, username, path) = with_database(info, db);
            match r {
                SetupStep::Done(x) => {
                    &&& (x.port, x.username@, x.web_base_path@) == (port, username, path)
                    &&& (db.password is Some || info.password@.len() > 0)
                    &&& match db.password {
                        Some(p) => x.password@ == p@ && x.source@ == "sqlite"@,
                        None => x.password@ == info.password@ && x.source@ == info.source@,
                    }
                },
                SetupStep::NeedsFallback(x) => {
                    &&& (x.port, x.username@, x.web_base_path@) == (port, username, path)
                    &&& db.password is None && info.password@.len() == 0
                    &&& x.password@.len() == 0
                    &&& x.source@ == if database_found(db) {
                        "sqlite"@
                    } else {
                        info.source@
                    }
                },
            }
        }),
{
    let PanelDatabaseValues { username, password, port, web_base_path } = db;
    let mut info = info;
    let mut found = false;
    if let Some(u) = username {
        info.username = u;
        found = true;
    }
    if let Some(p) = port {
        if let Some(n) = parse_u16_str(p.as_str()) {
            info.port = n;
            found = true;
        }
    }
    if let Some(w) = web_base_path {
        info.web_base_path = normalize_panel_base_path(w.as_str());
        found = true;
    }
    if let Some(p) = password {
        info.password = p;
        info.source = copy_str("sqlite");
        return SetupStep::Done(info);
    }
    if !info.password.as_str().is_empty() {
        return SetupStep::Done(info);
    }
    if found {
        info.source = copy_str("sqlite");
    }
    SetupStep::NeedsFallback(info)
}

/// Completes the setup from what the `x-ui` menu printed: the missing parts
/// are merged in; with a password then the source is `fallback`, and a
/// setup that came from nowhere but the report's defaults is `default`.
pub fn finish_with_fallback(info: PanelSetupInfo, fallback: PanelSetupInfo) -> (r: PanelSetupInfo)
    ensures
        r.username@ == (if info.username@ == "admin"@ && fallback.username@ != "admin"@ {
            fallback.username@
        } else {
            info.username@
        }),
        r.port == (if info.port == 65333 && fallback.port != 65333 {
            fallback.port
        } else {
            info.port
        }),
        r.password@ == (if info.password@.len() == 0 {
            fallback.password@
        } else {
            info.password@
        }),
        r.web_base_path@ == (if info.web_base_path@.len() == 0 {
            fallback.web_base_path@
        } else {
            info.web_base_path@
        }),
        r.source@ == (if r.password@.len() > 0 {
            "fallback"@
        } else if info.source@ == "cli"@ {
            "default"@
        } else {
            info.source@
        }),
{
    let mut info = info;
    merge_panel_setup_info(&mut info, fallback);
    if !info.password.as_str().is_empty() {
        info.source = copy_str("fallback");
    } else if str_eq(info.source.as_str(), "cli") {
        info.source = copy_str("default");
    }
    info
}

/// The shell command that tells whether 3x-ui is installed: it prints
/// `xui_available=0` when one of the checks succeeds.
pub open spec fn xui_probe_spec() -> Seq<char> {
    "command -v x-ui >/dev/null 2>&1 || test -f /etc/x-ui/x-ui.db || test -f /usr/local/x-ui/config.json || systemctl list-unit-files 'x-ui.service' '3x-ui.service' --no-legend 2>/dev/null | grep -q .; printf 'xui_available=%s\\n' \"$?\""@
}

pub fn xui_probe_command() -> (r: String)
    ensures
        r@ == xui_probe_spec(),
{
    copy_str(
        "command -v x-ui >/dev/null 2>&1 || test -f /etc/x-ui/x-ui.db || test -f /usr/local/x-ui/config.json || systemctl list-unit-files 'x-ui.service' '3x-ui.service' --no-legend 2>/dev/null | grep -q .; printf 'xui_available=%s\\n' \"$?\"",
    )
}

/// The probe's answer: the first line that starts with `xui_available=`
/// says `0`, spaces aside.
pub open spec fn xui_available_in(ls: Seq<Seq<char>>) -> bool
    decreases ls.len(),
{
    if ls.len() == 0 {
        false
    } else if starts_with(ls[0], "xui_available="@) {
        trim(ls[0].skip(14)) == "0"@
    } else {
        xui_available_in(ls.drop_first())
    }
}

pub fn xui_available(output: &str) -> (b: bool)
    ensures
        b == xui_available_in(lines(output@)),
{
    let ls = split_lines(output);
    let ghost all = views(ls@);
    assert(all.subrange(0, all.len() as int) =~= all);
    let mut i: usize = 0;
    while i < ls.len()
        invariant
            all == views(ls@),
            all == lines(output@),
            i <= ls@.len(),
            xui_available_in(all) == xui_available_in(all.subrange(i as int, all.len() as int)),
        decreases ls.len() - i,
    {
        let ghost rest = all.subrange(i as int, all.len() as int);
        assert(rest[0] == ls@[i as int]@);
        if starts_with_str(&ls[i], "xui_available=") {
            proof {
                reveal_strlit("xui_available=");
            }
            let line = &ls[i];
            let value = string_of_range(line, 14, line.len());
            let t = trim_str(value.as_str());
            assert(value@ =~= ls@[i as int]@.skip(14));
            return str_eq(t.as_str(), "0");
        }
        assert(rest.drop_first() =~= all.subrange(i + 1, all.len() as int));
        i = i + 1;
    }
    false
}


/// Whether 3x-ui can be asked for its setup: the probe's answer, or the
/// error shown when it is not there.
pub fn xui_check(output: &str) -> (r: Result<(), String>)
    ensures
        xui_available_in(lines(output@)) ==> r is Ok,
        !xui_available_in(lines(output@)) ==> (r matches Err(m) && m@
            == "3x-ui is not installed or is not visible on this server"@),
{
    if xui_available(output) {
        Ok(())
    } else {
        Err(copy_str("3x-ui is not installed or is not visible on this server"))
    }
}

/// The command that prints 3x-ui's settings report.
pub const XUI_SETTINGS_COMMAND: &'static str = "x-ui settings 2>&1 || true";

/// The query for the first panel user's name.
pub const XUI_USER_QUERY: &'static str =
    "sqlite3 /etc/x-ui/x-ui.db \"SELECT username FROM users ORDER BY id LIMIT 1;\" 2>/dev/null || true";

/// The query for the first panel user's password.
pub const XUI_PASSWORD_QUERY: &'static str =
    "sqlite3 /etc/x-ui/x-ui.db \"SELECT password FROM users ORDER BY id LIMIT 1;\" 2>/dev/null || true";

/// The command that prints the lines of the `x-ui` menu about the port, the
/// user and the password.
pub const XUI_MENU_COMMAND: &'static str = "x-ui | grep -E \"(port|user|pass)\" 2>/dev/null || true";

/// The commands the search for a panel's setup runs, in order: the probe,
/// the settings report, the user name from the settings table and then from
/// the users table, the password likewise, the port, the base path, and
/// last, when no password was found, the `x-ui` menu.
pub open spec fn setup_command(k: int) -> Seq<char> {
    if k == 0 {
        xui_probe_spec()
    } else if k == 1 {
        XUI_SETTINGS_COMMAND@
    } else if k == 2 {
        sqlite_setting_command_spec("webUsername"@)
    } else if k == 3 {
        XUI_USER_QUERY@
    } else if k == 4 {
        sqlite_setting_command_spec("webPassword"@)
    } else if k == 5 {
        XUI_PASSWORD_QUERY@
    } else if k == 6 {
        sqlite_setting_command_spec("webPort"@)
    } else if k == 7 {
        sqlite_setting_command_spec("webBasePath"@)
    } else {
        XUI_MENU_COMMAND@
    }
}

/// The value a database query printed.
pub open spec fn query_value(output: Seq<char>) -> Option<Seq<char>> {
    first_nonblank(lines(output))
}

pub open spec fn or_else(a: Option<Seq<char>>, b: Option<Seq<char>>) -> Option<Seq<char>> {
    if a is Some {
        a
    } else {
        b
    }
}

/// The password the database gave: from the settings table, or else a
/// usable one from the users table.
pub open spec fn database_password(o: Seq<Seq<char>>) -> Option<Seq<char>> {
    or_else(query_value(o[4]), usable_password_spec(query_value(o[5])))
}

/// No password came from the database nor from the settings report, so the
/// `x-ui` menu is read too.
pub open spec fn setup_needs_menu(o: Seq<Seq<char>>) -> bool {
    database_password(o) is None && setup_from_report(o[1]).2.len() == 0
}

/// The setup found from the outputs of the commands, in the order they ran:
/// port, user name, password, base path and source.
pub open spec fn setup_answer(o: Seq<Seq<char>>) -> (u16, Seq<char>, Seq<char>, Seq<char>, Seq<char>) {
    let (report_port, report_user, report_password, report_path) = setup_from_report(o[1]);
    let user = or_else(query_value(o[2]), query_value(o[3]));
    let port_value = query_value(o[6]);
    let path_value = query_value(o[7]);
    let port = match port_value {
        Some(p) => match parse_u16_spec(p) {
            Some(n) => n,
            None => report_port,
        },
        None => report_port,
    };
    let username = match user {
        Some(u) => u,
        None => report_user,
    };
    let path = match path_value {
        Some(w) => normalized_base_path(w),
        None => report_path,
    };
    let found = user is Some || (port_value is Some && parse_u16_spec(port_value->0) is Some)
        || path_value is Some;
    match database_password(o) {
        Some(p) => (port, username, p, path, "sqlite"@),
        None => if report_password.len() > 0 {
            (port, username, report_password, path, "cli"@)
        } else {
            let source: Seq<char> = if found {
                "sqlite"@
            } else {
                "cli"@
            };
            let (menu_port, menu_user, menu_password, menu_path) = setup_from_report(o[8]);
            (
                if port == 65333 && menu_port != 65333 {
                    menu_port
                } else {
                    port
                },
                if username == "admin"@ && menu_user != "admin"@ {
                    menu_user
                } else {
                    username
                },
                menu_password,
                if path.len() == 0 {
                    menu_path
                } else {
                    path
                },
                if menu_password.len() > 0 {
                    "fallback"@
                } else if source == "cli"@ {
                    "default"@
                } else {
                    source
                },
            )
        },
    }
}

/// What the search for a panel's setup does next.
pub enum SetupAction {
    /// Run this command on the server and add its output to the outputs.
    Run(String),
    /// The search is over: the panel's setup.
    Finish(PanelSetupInfo),
    /// The search failed with this message.
    Fail(String),
}

fn setup_query(k: usize) -> (r: String)
    requires
        2 <= k <= 8,
    ensures
        r@ == setup_command(k as int),
{
    if k == 2 {
        sqlite_setting_command("webUsername")
    } else if k == 3 {
        copy_str(XUI_USER_QUERY)
    } else if k == 4 {
        sqlite_setting_command("webPassword")
    } else if k == 5 {
        copy_str(XUI_PASSWORD_QUERY)
    } else if k == 6 {
        sqlite_setting_command("webPort")
    } else if k == 7 {
        sqlite_setting_command("webBasePath")
    } else {
        copy_str(XUI_MENU_COMMAND)
    }
}

/// The next step of the search for a panel's setup, given the outputs of
/// the commands run so far: the commands of `setup_command` one after the
/// other; the search fails when the probe finds no 3x-ui, and ends after
/// the port and base path when a password was found, else after the menu.
pub fn panel_setup_next(outputs: &Vec<String>) -> (a: SetupAction)
    ensures
        ({
            let o = string_views(outputs@);
            let k = o.len();
            if k == 1 && !xui_available_in(lines(o[0])) {
                a matches SetupAction::Fail(m) && m@ == "3x-ui is not installed or is not visible on this server"@
            } else if k < 8 || (k == 8 && setup_needs_menu(o)) {
                a matches SetupAction::Run(c) && c@ == setup_command(k as int)
            } else {
                a matches SetupAction::Finish(info) && (
                info.port,
                info.username@,
                info.password@,
                info.web_base_path@,
                info.source@,
                ) == setup_answer(o)
            }
        }),
{
    let k = outputs.len();
    let ghost o = string_views(outputs@);
    if k == 0 {
        return SetupAction::Run(xui_probe_command());
    }
    if k == 1 {
        return match xui_check(outputs[0].as_str()) {
            Ok(()) => SetupAction::Run(copy_str(XUI_SETTINGS_COMMAND)),
            Err(m) => SetupAction::Fail(m),
        };
    }
    if k < 8 {
        return SetupAction::Run(setup_query(k));
    }
    assert(o[1] == outputs@[1]@ && o[2] == outputs@[2]@ && o[3] == outputs@[3]@ && o[4] == outputs@[4]@);
    assert(o[5] == outputs@[5]@ && o[6] == outputs@[6]@ && o[7] == outputs@[7]@);
    let info = parse_panel_setup_info(outputs[1].as_str(), "cli");
    let username = match first_nonblank_line(outputs[2].as_str()) {
        Some(u) => Some(u),
        None => first_nonblank_line(outputs[3].as_str()),
    };
    let password = match first_nonblank_line(outputs[4].as_str()) {
        Some(p) => Some(p),
        None => usable_password(first_nonblank_line(outputs[5].as_str())),
    };
    let port = first_nonblank_line(outputs[6].as_str());
    let web_base_path = first_nonblank_line(outputs[7].as_str());
    proof {
        reveal_strlit("sqlite");
        reveal_strlit("cli");
        reveal_strlit("admin");
        reveal_strlit("fallback");
        reveal_strlit("default");
    }
    let db = PanelDatabaseValues { username, password, port, web_base_path };
    match apply_database_values(info, db) {
        SetupStep::Done(x) => SetupAction::Finish(x),
        SetupStep::NeedsFallback(x) => {
            if k == 8 {
                SetupAction::Run(copy_str(XUI_MENU_COMMAND))
            } else {
                assert(o[8] == outputs@[8]@);
                let menu = parse_panel_setup_info(outputs[8].as_str(), "fallback");
                SetupAction::Finish(finish_with_fallback(x, menu))
            }
        },
    }
}

/// `new` is the server `old` with the panel address built from the setup and
/// the panel user set to its user name, every other field kept.
pub open spec fn has_panel_setup(new: ServerConfig, old: ServerConfig, info: PanelSetupInfo) -> bool {
    &&& new == (ServerConfig { panel_url: new.panel_url, panel_user: new.panel_user, ..old })
    &&& new.panel_url matches Some(u) && u@ == panel_url_spec(old.host@, info.port, info.web_base_path@)
    &&& new.panel_user matches Some(n) && n@ == info.username@
}

/// Records a found panel setup on the configured server of id `server_id`
/// (the first of that id), and returns the updated server; a configuration
/// without such a server is returned unchanged, with no server.
pub fn apply_panel_setup(config: AppConfig, server_id: &str, info: &PanelSetupInfo) -> (r: (
    AppConfig,
    Option<ServerConfig>,
))
    ensures
        r.0 == (AppConfig { servers: r.0.servers, ..config }),
        match r.1 {
            Some(s) => exists|i: int|
                first_index(config.servers@, server_id@, i) && has_panel_setup(
                    s,
                    #[trigger] config.servers@[i],
                    *info,
                ) && r.0.servers@ == config.servers@.update(i, s),
            None => !has_key(config.servers@, server_id@) && r.0.servers@ == config.servers@,
        },
{
    let mut config = config;
    match find_index(&config.servers, server_id) {
        Some(i) => {
            let ghost old_servers = config.servers@;
            let mut s = config.servers[i].duplicate();
            s.panel_url = Some(
                panel_url_from_setup_info(s.host.as_str(), info.port, info.web_base_path.as_str()),
            );
            s.panel_user = Some(info.username.clone());
            let updated = s.duplicate();
            config.servers.set(i, s);
            assert(has_panel_setup(updated, old_servers[i as int], *info));
            assert(config.servers@ =~= old_servers.update(i as int, updated));
            (config, Some(updated))
        },
        None => (config, None),
    }
}

} // verus!
