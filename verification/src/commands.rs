//! What the application's commands decide for themselves: where new SSH keys
//! go and what they are called, which host a log request is about and which
//! log it reads, and how a connection test that tries out secrets puts the
//! saved ones back. Running the commands on the servers and touching the
//! files and the keychain is the caller's part.
use vstd::prelude::*;
use crate::config::{config_error_text, opt_view, AppConfig, ConfigError, ServerConfig};
use crate::monitor::{is_bastion_server, is_monitor_server_result, monitor_server, server_from_bastion};
use crate::registry::{find_index, lemma_lookup_first, lemma_lookup_none, lookup};
use crate::config::join_path;
use crate::config::join_path_str;
use crate::text::{
    chars_of, copy_str, decimal, join, join_strings, lemma_decimal_injective, name_chars, name_chars_exec, push_decimal, push_str,
    set_pred, starts_with, starts_with_str, str_eq, string_of_range, string_views, strip, strip_vec,
    trim, trim_str, CharSet,
};

verus! {

// ---------------------------------------------------------------------
// SSH key files
// ---------------------------------------------------------------------

/// The two files of a generated key pair.
#[derive(Debug)]
pub struct SshKeyPair {
    pub private_key_path: String,
    pub public_key_path: String,
}

/// The public key's file is the private key's with `.pub` appended.
pub fn public_key_path_for_private(private_key_path: &str) -> (r: String)
    ensures
        r@ == private_key_path@ + ".pub"@,
{
    let mut r = copy_str(private_key_path);
    push_str(&mut r, ".pub");
    r
}

/// The pair of files for a private key.
pub fn key_pair_paths(private_key_path: &str) -> (r: SshKeyPair)
    ensures
        r.private_key_path@ == private_key_path@,
        r.public_key_path@ == private_key_path@ + ".pub"@,
{
    SshKeyPair {
        private_key_path: copy_str(private_key_path),
        public_key_path: public_key_path_for_private(private_key_path),
    }
}

/// A key name as a file name: trimmed, every character but ASCII letters,
/// digits, `.`, `_` and `-` made `_`, and `.`, `_` and `-` stripped from
/// both ends.
pub open spec fn sanitized_key_name(name: Seq<char>) -> Seq<char> {
    strip(name_chars(trim(name)), set_pred(CharSet::NamePunct))
}

/// The file name for a new key, or the error when nothing of the name is
/// left.
pub fn sanitize_ssh_key_name(key_name: &str) -> (r: Result<String, String>)
    ensures
        match r {
            Ok(s) => s@ == sanitized_key_name(key_name@) && s@.len() > 0,
            Err(m) => sanitized_key_name(key_name@).len() == 0 && m@
                == "SSH key name is required"@,
        },
{
    let t = trim_str(key_name);
    let v = name_chars_exec(t.as_str());
    let s = strip_vec(&v, CharSet::NamePunct);
    if s.as_str().is_empty() {
        Err(copy_str("SSH key name is required"))
    } else {
        Ok(s)
    }
}

/// The file name tried for a new key at the given attempt: the name itself
/// at first, then the name with `_2`, `_3` and so on.
pub open spec fn key_file_name(name: Seq<char>, attempt: u64) -> Seq<char> {
    if attempt < 2 {
        name
    } else {
        name + "_"@ + decimal(attempt as nat)
    }
}

pub fn key_file_candidate(key_name: &str, attempt: u64) -> (r: String)
    ensures
        r@ == key_file_name(key_name@, attempt),
{
    let mut r = copy_str(key_name);
    if attempt >= 2 {
        push_str(&mut r, "_");
        push_decimal(&mut r, attempt);
    }
    r
}

/// A key file name is in use when a file of that name, or its `.pub`
/// file, is among the names present.
pub open spec fn key_name_taken(present: Seq<Seq<char>>, candidate: Seq<char>) -> bool {
    present.contains(candidate) || present.contains(candidate + ".pub"@)
}

/// `found` is the name of the first attempt whose name is not in use.
pub open spec fn is_first_free_key_name(key_name: Seq<char>, present: Seq<Seq<char>>, found: Seq<char>) -> bool {
    exists|a: u64|
        #![trigger key_file_name(key_name, a)]
        1 <= a && found == key_file_name(key_name, a) && !key_name_taken(present, found) && forall|b: u64|
            1 <= b < a ==> key_name_taken(present, #[trigger] key_file_name(key_name, b))
}

/// Different attempts give different names.
pub proof fn lemma_key_file_name_injective(key_name: Seq<char>, a: u64, b: u64)
    requires
        1 <= a,
        1 <= b,
        key_file_name(key_name, a) == key_file_name(key_name, b),
    ensures
        a == b,
{
    let n: int = key_name.len() as int;
    if a >= 2 {
        assert(decimal(a as nat).len() >= 1) by {
            reveal_with_fuel(decimal, 2);
        }
    }
    if b >= 2 {
        assert(decimal(b as nat).len() >= 1) by {
            reveal_with_fuel(decimal, 2);
        }
    }
    if a >= 2 && b >= 2 {
        reveal_strlit("_");
        let ka = key_file_name(key_name, a);
        assert(ka.subrange(n + 1, ka.len() as int) =~= decimal(a as nat));
        assert(ka.subrange(n + 1, ka.len() as int) =~= decimal(b as nat));
        lemma_decimal_injective(a as nat, b as nat);
    }
}

/// Appending `.pub` to two different names gives two different names.
proof fn lemma_pub_suffix_injective(x: Seq<char>, y: Seq<char>)
    requires
        x + ".pub"@ == y + ".pub"@,
    ensures
        x == y,
{
    assert((x + ".pub"@).len() == x.len() + ".pub"@.len());
    assert((y + ".pub"@).len() == y.len() + ".pub"@.len());
    assert(x.len() == y.len());
    assert(x =~= (x + ".pub"@).subrange(0, x.len() as int));
    assert(y =~= (y + ".pub"@).subrange(0, y.len() as int));
}

/// Among the first `2 * n + 2` attempts some name is free, where `n` is the
/// number of names present: each name present takes at most two attempts'
/// names (as a key and as a `.pub` file), and the attempts' names differ.
pub proof fn lemma_some_key_name_free(key_name: Seq<char>, present: Seq<Seq<char>>)
    requires
        2 * present.len() + 2 <= u64::MAX,
    ensures
        exists|b: u64| 1 <= b <= 2 * present.len() + 2 && !key_name_taken(present, #[trigger] key_file_name(key_name, b)),
{
    let k: int = 2 * present.len() as int + 2;
    if forall|b: u64| 1 <= b <= k ==> key_name_taken(present, #[trigger] key_file_name(key_name, b)) {
        let f = |i: int| key_file_name(key_name, i as u64);
        let attempts = vstd::set_lib::set_int_range(1, k + 1);
        vstd::set_lib::lemma_int_range(1, k + 1);
        let names = attempts.map(f);
        assert(vstd::relations::injective_on(f, attempts)) by {
            assert forall|i: int, j: int| attempts.contains(i) && attempts.contains(j) && #[trigger] f(i) == #[trigger] f(j) implies i == j by {
                lemma_key_file_name_injective(key_name, i as u64, j as u64);
            }
        }
        vstd::set_lib::lemma_map_size(attempts, names, f);
        let held = present.to_set();
        present.lemma_cardinality_of_set();
        let as_key = names.intersect(held);
        vstd::set_lib::lemma_len_subset(as_key, held);
        let as_pub = names.filter(|c: Seq<char>| held.contains(c + ".pub"@));
        vstd::set_lib::lemma_len_subset(as_pub, names);
        let g = |c: Seq<char>| c + ".pub"@;
        assert(vstd::relations::injective_on(g, as_pub)) by {
            assert forall|x: Seq<char>, y: Seq<char>| as_pub.contains(x) && as_pub.contains(y) && #[trigger] g(x) == #[trigger] g(y) implies x == y by {
                lemma_pub_suffix_injective(x, y);
            }
        }
        vstd::set_lib::lemma_map_size(as_pub, as_pub.map(g), g);
        vstd::set_lib::lemma_len_subset(as_pub.map(g), held);
        assert(names.subset_of(as_key.union(as_pub))) by {
            assert forall|c: Seq<char>| names.contains(c) implies #[trigger] as_key.union(as_pub).contains(c) by {
                let i = choose|i: int| attempts.contains(i) && f(i) == c;
                assert(key_name_taken(present, key_file_name(key_name, i as u64)));
            }
        }
        vstd::set_lib::lemma_len_union(as_key, as_pub);
        vstd::set_lib::lemma_len_subset(names, as_key.union(as_pub));
        assert(false);
    }
}

/// Whether `name` is among the names present.
fn is_present(present: &Vec<String>, name: &str) -> (b: bool)
    ensures
        b == string_views(present@).contains(name@),
{
    let mut i: usize = 0;
    while i < present.len()
        invariant
            i <= present.len(),
            forall|j: int| 0 <= j < i ==> present@[j]@ != name@,
        decreases present.len() - i,
    {
        if str_eq(present[i].as_str(), name) {
            assert(string_views(present@)[i as int] == name@);
            return true;
        }
        i = i + 1;
    }
    proof {
        if string_views(present@).contains(name@) {
            let j = choose|j: int| 0 <= j < string_views(present@).len() && string_views(present@)[j] == name@;
            assert(present@[j]@ == name@);
        }
    }
    false
}

/// The name of a new key: the first of the name itself, then the name with
/// `_2`, `_3` and so on, such that neither a file of that name nor its
/// `.pub` file is among the names present.
pub fn free_key_file_name(key_name: &str, present: &Vec<String>) -> (r: String)
    requires
        present.len() < 0x4000_0000_0000_0000,
    ensures
        is_first_free_key_name(key_name@, string_views(present@), r@),
{
    let ghost names = string_views(present@);
    let ghost bound: int = 2 * present.len() + 2;
    proof {
        lemma_some_key_name_free(key_name@, names);
    }
    let mut attempt: u64 = 1;
    loop
        invariant
            1 <= attempt <= bound,
            bound == 2 * present.len() + 2,
            names == string_views(present@),
            exists|b: u64| attempt <= b <= bound && !key_name_taken(names, #[trigger] key_file_name(key_name@, b)),
            forall|b: u64| 1 <= b < attempt ==> key_name_taken(names, #[trigger] key_file_name(key_name@, b)),
        decreases bound - attempt,
    {
        let candidate = key_file_candidate(key_name, attempt);
        let public = public_key_path_for_private(candidate.as_str());
        let key_held = is_present(present, candidate.as_str());
        let public_held = is_present(present, public.as_str());
        if !key_held && !public_held {
            assert(key_file_name(key_name@, attempt) == candidate@);
            return candidate;
        }
        assert(key_name_taken(names, key_file_name(key_name@, attempt)));
        attempt = attempt + 1;
    }
}

/// Where a public key given by the user is read from: the path trimmed,
/// with a leading `~/` under the home directory. A blank path, and a `~/`
/// path without a home directory, are errors.
pub open spec fn public_key_location(path: Seq<char>, home: Option<Seq<char>>) -> Result<
    Seq<char>,
    Seq<char>,
> {
    let t = trim(path);
    if t.len() == 0 {
        Err("SSH public key path is required"@)
    } else if starts_with(t, "~/"@) {
        match home {
            Some(h) => Ok(join_path(h, t.skip(2))),
            None => Err("unable to resolve user directories"@),
        }
    } else {
        Ok(t)
    }
}

pub open spec fn result_view(r: Result<String, String>) -> Result<Seq<char>, Seq<char>> {
    match r {
        Ok(s) => Ok(s@),
        Err(e) => Err(e@),
    }
}

pub fn expand_public_key_path(path: &str, home: Option<&str>) -> (r: Result<String, String>)
    ensures
        result_view(r) == public_key_location(
            path@,
            match home {
                Some(h) => Some(h@),
                None => None,
            },
        ),
{
    let t = trim_str(path);
    if t.as_str().is_empty() {
        return Err(copy_str("SSH public key path is required"));
    }
    let v = chars_of(t.as_str());
    if starts_with_str(&v, "~/") {
        proof {
            reveal_strlit("~/");
        }
        match home {
            Some(h) => {
                let rest = string_of_range(&v, 2, v.len());
                assert(rest@ =~= t@.skip(2));
                Ok(join_path_str(h, rest.as_str()))
            },
            None => Err(copy_str("unable to resolve user directories")),
        }
    } else {
        Ok(t)
    }
}

// ---------------------------------------------------------------------
// Remote logs
// ---------------------------------------------------------------------

/// Why a log request names no host.
#[derive(Debug)]
pub enum LogsTargetError {
    Config(ConfigError),
    MonitorNotConfigured,
    ServerNotSelected,
    ServerNotFound(String),
    BastionNotSelected,
    BastionNotFound(String),
    UnknownTarget(String),
}

pub open spec fn logs_error_text(e: LogsTargetError) -> Seq<char> {
    match e {
        LogsTargetError::Config(c) => config_error_text(c),
        LogsTargetError::MonitorNotConfigured => "monitor target is not configured"@,
        LogsTargetError::ServerNotSelected => "server is not selected"@,
        LogsTargetError::ServerNotFound(id) => "server '"@ + id@ + "' was not found"@,
        LogsTargetError::BastionNotSelected => "bastion is not selected"@,
        LogsTargetError::BastionNotFound(id) => "bastion '"@ + id@ + "' was not found"@,
        LogsTargetError::UnknownTarget(k) => "unknown logs target '"@ + k@ + "'"@,
    }
}

impl LogsTargetError {
    /// The message the application shows for the error.
    pub fn message(&self) -> (m: String)
        ensures
            m@ == logs_error_text(*self),
    {
        match self {
            LogsTargetError::Config(c) => c.message(),
            LogsTargetError::MonitorNotConfigured => copy_str("monitor target is not configured"),
            LogsTargetError::ServerNotSelected => copy_str("server is not selected"),
            LogsTargetError::ServerNotFound(id) => {
                let mut m = copy_str("server '");
                push_str(&mut m, id.as_str());
                push_str(&mut m, "' was not found");
                m
            },
            LogsTargetError::BastionNotSelected => copy_str("bastion is not selected"),
            LogsTargetError::BastionNotFound(id) => {
                let mut m = copy_str("bastion '");
                push_str(&mut m, id.as_str());
                push_str(&mut m, "' was not found");
                m
            },
            LogsTargetError::UnknownTarget(k) => {
                let mut m = copy_str("unknown logs target '");
                push_str(&mut m, k.as_str());
                push_str(&mut m, "'");
                m
            },
        }
    }
}

/// A selected id: trimmed, and none when blank.
pub open spec fn selected_id(id: Option<Seq<char>>) -> Option<Seq<char>> {
    match id {
        Some(t) => if trim(t).len() > 0 {
            Some(trim(t))
        } else {
            None
        },
        None => None,
    }
}

pub open spec fn str_opt_view(o: Option<&str>) -> Option<Seq<char>> {
    match o {
        Some(s) => Some(s@),
        None => None,
    }
}

fn selected_id_exec(id: Option<&str>) -> (r: Option<String>)
    ensures
        match r {
            Some(s) => selected_id(str_opt_view(id)) == Some(s@),
            None => selected_id(str_opt_view(id)) is None,
        },
{
    match id {
        Some(t) => {
            let s = trim_str(t);
            if s.as_str().is_empty() {
                None
            } else {
                Some(s)
            }
        },
        None => None,
    }
}

/// The host whose logs are read: the monitor host, a configured server, or
/// a configured bastion taken as a server.
pub fn logs_target_server(config: &AppConfig, target_kind: &str, target_id: Option<&str>) -> (r:
    Result<ServerConfig, LogsTargetError>)
    ensures
        target_kind@ == "monitor"@ ==> match r {
            Ok(s) => is_monitor_server_result(*config, Ok(Some(s))),
            Err(LogsTargetError::MonitorNotConfigured) => is_monitor_server_result(*config, Ok(None)),
            Err(LogsTargetError::Config(e)) => is_monitor_server_result(*config, Err(e)),
            Err(_) => false,
        },
        target_kind@ == "server"@ ==> match selected_id(str_opt_view(target_id)) {
            None => r matches Err(LogsTargetError::ServerNotSelected),
            Some(id) => match lookup(config.servers@, id) {
                Some(x) => r == Ok::<ServerConfig, LogsTargetError>(x),
                None => r matches Err(LogsTargetError::ServerNotFound(m)) && m@ == id,
            },
        },
        target_kind@ == "bastion"@ ==> match selected_id(str_opt_view(target_id)) {
            None => r matches Err(LogsTargetError::BastionNotSelected),
            Some(id) => match lookup(config.bastions@, id) {
                Some(x) => r matches Ok(v) && is_bastion_server(v, x),
                None => r matches Err(LogsTargetError::BastionNotFound(m)) && m@ == id,
            },
        },
        target_kind@ != "monitor"@ && target_kind@ != "server"@ && target_kind@ != "bastion"@
            ==> (r matches Err(LogsTargetError::UnknownTarget(k)) && k@ == target_kind@),
{
    proof {
        reveal_strlit("monitor");
        reveal_strlit("server");
        reveal_strlit("bastion");
        assert("server"@[0] != "bastion"@[0]);
        assert("monitor"@[0] != "bastion"@[0]);
        assert("monitor"@[0] != "server"@[0]);
    }
    if str_eq(target_kind, "monitor") {
        match monitor_server(config) {
            Ok(Some(s)) => Ok(s),
            Ok(None) => Err(LogsTargetError::MonitorNotConfigured),
            Err(e) => Err(LogsTargetError::Config(e)),
        }
    } else if str_eq(target_kind, "server") {
        let id = match selected_id_exec(target_id) {
            Some(id) => id,
            None => {
                return Err(LogsTargetError::ServerNotSelected);
            },
        };
        match find_index(&config.servers, id.as_str()) {
            Some(i) => {
                proof {
                    lemma_lookup_first(config.servers@, id@, i as int);
                }
                Ok(config.servers[i].duplicate())
            },
            None => {
                proof {
                    lemma_lookup_none(config.servers@, id@);
                }
                Err(LogsTargetError::ServerNotFound(id))
            },
        }
    } else if str_eq(target_kind, "bastion") {
        let id = match selected_id_exec(target_id) {
            Some(id) => id,
            None => {
                return Err(LogsTargetError::BastionNotSelected);
            },
        };
        match find_index(&config.bastions, id.as_str()) {
            Some(i) => {
                proof {
                    lemma_lookup_first(config.bastions@, id@, i as int);
                }
                Ok(server_from_bastion_for_logs(&config.bastions[i]))
            },
            None => {
                proof {
                    lemma_lookup_none(config.bastions@, id@);
                }
                Err(LogsTargetError::BastionNotFound(id))
            },
        }
    } else {
        Err(LogsTargetError::UnknownTarget(copy_str(target_kind)))
    }
}

/// The server record under which a bastion's own logs are read.
pub fn server_from_bastion_for_logs(bastion: &crate::config::BastionConfig) -> (r: ServerConfig)
    ensures
        is_bastion_server(r, *bastion),
{
    server_from_bastion(bastion)
}

/// The shell command that prints a log: the monitor's journal, the panel's
/// journal or log files, or the system journal.
pub open spec fn logs_command_spec(log_kind: Seq<char>) -> Seq<char> {
    if log_kind == "monitor"@ {
        "journalctl -u nodenet-monitor.service -u nodenet-monitor.timer -n 240 --no-pager -o short-iso 2>&1 || systemctl status nodenet-monitor.service nodenet-monitor.timer --no-pager 2>&1 || true"@
    } else if log_kind == "panel"@ {
        "journalctl -u x-ui -u 3x-ui -u xray -n 240 --no-pager -o short-iso 2>&1 || tail -n 240 /var/log/x-ui.log /var/log/xray/*.log 2>&1 || true"@
    } else {
        "journalctl -n 240 --no-pager -o short-iso 2>&1 || tail -n 240 /var/log/syslog /var/log/messages 2>&1 || true"@
    }
}

pub fn logs_command(log_kind: &str) -> (r: &'static str)
    ensures
        r@ == logs_command_spec(log_kind@),
{
    if str_eq(log_kind, "monitor") {
        "journalctl -u nodenet-monitor.service -u nodenet-monitor.timer -n 240 --no-pager -o short-iso 2>&1 || systemctl status nodenet-monitor.service nodenet-monitor.timer --no-pager 2>&1 || true"
    } else if str_eq(log_kind, "panel") {
        "journalctl -u x-ui -u 3x-ui -u xray -n 240 --no-pager -o short-iso 2>&1 || tail -n 240 /var/log/x-ui.log /var/log/xray/*.log 2>&1 || true"
    } else {
        "journalctl -n 240 --no-pager -o short-iso 2>&1 || tail -n 240 /var/log/syslog /var/log/messages 2>&1 || true"
    }
}


// ---------------------------------------------------------------------
// Connection tests that try out secrets
// ---------------------------------------------------------------------

/// A secret as a connection test takes it: a blank one counts as not given.
pub open spec fn given(o: Option<String>) -> Option<Seq<char>> {
    match o {
        Some(s) => if s@.len() > 0 {
            Some(s@)
        } else {
            None
        },
        None => None,
    }
}

pub fn non_blank(o: Option<String>) -> (r: Option<String>)
    ensures
        opt_view(r) == given(o),
{
    match o {
        Some(s) => if s.as_str().is_empty() {
            None
        } else {
            Some(s)
        },
        None => None,
    }
}

/// The secrets a connection test is run with. Each given one is saved for
/// the test and the one saved before is put back afterwards.
pub struct TrialSecrets {
    pub ssh_password: Option<String>,
    pub key_passphrase: Option<String>,
    pub bastion_password: Option<String>,
    pub panel_password: Option<String>,
}

impl TrialSecrets {
    pub fn new(
        ssh_password: Option<String>,
        key_passphrase: Option<String>,
        bastion_password: Option<String>,
        panel_password: Option<String>,
    ) -> (r: TrialSecrets)
        ensures
            opt_view(r.ssh_password) == given(ssh_password),
            opt_view(r.key_passphrase) == given(key_passphrase),
            opt_view(r.bastion_password) == given(bastion_password),
            opt_view(r.panel_password) == given(panel_password),
    {
        TrialSecrets {
            ssh_password: non_blank(ssh_password),
            key_passphrase: non_blank(key_passphrase),
            bastion_password: non_blank(bastion_password),
            panel_password: non_blank(panel_password),
        }
    }

    /// After the test the pooled SSH connections of the server are closed
    /// when an SSH secret was tried, so that none opened with it is reused.
    pub fn resets_connections(&self) -> (b: bool)
        ensures
            b == (self.ssh_password is Some || self.key_passphrase is Some
                || self.bastion_password is Some),
    {
        self.ssh_password.is_some() || self.key_passphrase.is_some()
            || self.bastion_password.is_some()
    }

    /// After the test the panel session of the server is dropped when a
    /// panel password or a bastion password was tried.
    pub fn clears_panel_cache(&self) -> (b: bool)
        ensures
            b == (self.panel_password is Some || self.bastion_password is Some),
    {
        self.panel_password.is_some() || self.bastion_password.is_some()
    }
}

/// The panel user a tried panel password is saved under.
pub fn panel_login_user(server: &ServerConfig) -> (r: String)
    ensures
        r@ == match server.panel_user {
            Some(u) => u@,
            None => "admin"@,
        },
{
    match &server.panel_user {
        Some(u) => u.clone(),
        None => copy_str("admin"),
    }
}

/// How a tried secret is put back: the one saved before is saved again, or
/// the tried one is deleted when there was none.
#[derive(Debug)]
pub enum Restore<T> {
    Save(T),
    Delete,
}

pub fn restore_action<T>(previous: Option<T>) -> (r: Restore<T>)
    ensures
        match previous {
            Some(p) => r == Restore::Save(p),
            None => r == Restore::<T>::Delete,
        },
{
    match previous {
        Some(p) => Restore::Save(p),
        None => Restore::Delete,
    }
}

/// The secrets a connection test puts back.
#[derive(Clone, Copy, Debug, PartialEq, Eq, Structural)]
pub enum SecretKind {
    SshPassword,
    KeyPassphrase,
    BastionPassword,
    PanelCredentials,
}

pub open spec fn secret_label(kind: SecretKind) -> Seq<char> {
    match kind {
        SecretKind::SshPassword => "SSH password"@,
        SecretKind::KeyPassphrase => "SSH key passphrase"@,
        SecretKind::BastionPassword => "bastion password"@,
        SecretKind::PanelCredentials => "panel credentials"@,
    }
}

/// One failure to put a secret back: the secret's name and the error.
pub fn restore_failure(kind: SecretKind, error: &str) -> (r: String)
    ensures
        r@ == secret_label(kind) + ": "@ + error@,
{
    let mut r = match kind {
        SecretKind::SshPassword => copy_str("SSH password"),
        SecretKind::KeyPassphrase => copy_str("SSH key passphrase"),
        SecretKind::BastionPassword => copy_str("bastion password"),
        SecretKind::PanelCredentials => copy_str("panel credentials"),
    };
    push_str(&mut r, ": ");
    push_str(&mut r, error);
    r
}

/// The alert raised when some secret could not be put back: none when all
/// were.
pub fn restore_report(errors: &Vec<String>) -> (r: Option<String>)
    ensures
        errors@.len() == 0 ==> r is None,
        errors@.len() > 0 ==> (r matches Some(m) && m@
            == "credential restore failed after connection test: "@ + join(
            string_views(errors@),
            "; "@,
        )),
{
    if errors.len() == 0 {
        return None;
    }
    let mut m = copy_str("credential restore failed after connection test: ");
    let joined = join_strings(errors, "; ");
    push_str(&mut m, joined.as_str());
    Some(m)
}

/// What a connection test reports of SSH and of the panel.
#[derive(Debug)]
pub struct ConnectionCheck {
    pub ssh_ok: bool,
    pub ssh_message: String,
    pub panel_ok: Option<bool>,
    pub panel_message: Option<String>,
}

/// The report from the outcome of collecting metrics over SSH and, for a
/// server with a panel, of listing its inbounds.
pub fn connection_check(ssh: Result<(), String>, panel: Option<Result<(), String>>) -> (r:
    ConnectionCheck)
    ensures
        match ssh {
            Ok(_) => r.ssh_ok && r.ssh_message@ == "SSH OK"@,
            Err(e) => !r.ssh_ok && r.ssh_message == e,
        },
        match panel {
            None => r.panel_ok is None && r.panel_message is None,
            Some(Ok(_)) => r.panel_ok == Some(true) && (r.panel_message matches Some(m) && m@
                == "Panel OK"@),
            Some(Err(e)) => r.panel_ok == Some(false) && r.panel_message == Some(e),
        },
{
    let (ssh_ok, ssh_message) = match ssh {
        Ok(_) => (true, copy_str("SSH OK")),
        Err(e) => (false, e),
    };
    let (panel_ok, panel_message) = match panel {
        None => (None, None),
        Some(Ok(_)) => (Some(true), Some(copy_str("Panel OK"))),
        Some(Err(e)) => (Some(false), Some(e)),
    };
    ConnectionCheck { ssh_ok, ssh_message, panel_ok, panel_message }
}

/// One step of a connection test.
#[derive(Clone, Copy, Debug, PartialEq, Eq, Structural)]
pub enum TrialStep {
    /// Read the secret saved before (a failure ends the test).
    ReadPrevious(SecretKind),
    /// Save the tried secret (a failure skips the rest of the saves and the
    /// checks, not what follows them).
    SaveTried(SecretKind),
    /// Ping the server, collect its metrics, and list the panel's inbounds.
    RunChecks,
    /// Close the server's pooled SSH connections.
    CloseConnections,
    /// Drop the server's panel session.
    ClearPanelCache,
    /// Put the secret saved before back, or delete the tried one.
    PutBack(SecretKind),
}

/// The kinds of secret tried, in the order they are handled.
pub open spec fn tried_kinds(t: TrialSecrets) -> Seq<SecretKind> {
    (if t.ssh_password is Some { seq![SecretKind::SshPassword] } else { seq![] })
        + (if t.key_passphrase is Some { seq![SecretKind::KeyPassphrase] } else { seq![] })
        + (if t.bastion_password is Some { seq![SecretKind::BastionPassword] } else { seq![] })
        + (if t.panel_password is Some { seq![SecretKind::PanelCredentials] } else { seq![] })
}

/// The step of phase `phase` (0 reading, 1 saving, 2 putting back) for a
/// kind of secret.
pub open spec fn phase_step(phase: u8, k: SecretKind) -> TrialStep {
    if phase == 0 {
        TrialStep::ReadPrevious(k)
    } else if phase == 1 {
        TrialStep::SaveTried(k)
    } else {
        TrialStep::PutBack(k)
    }
}

pub open spec fn phase_steps(phase: u8, ks: Seq<SecretKind>) -> Seq<TrialStep> {
    ks.map_values(|k: SecretKind| phase_step(phase, k))
}

/// A connection test: the secrets saved before are read, the tried ones
/// saved, the checks run, the connections and panel session opened with
/// tried secrets dropped, and every tried secret put back.
pub open spec fn trial_plan_spec(t: TrialSecrets) -> Seq<TrialStep> {
    let ks = tried_kinds(t);
    phase_steps(0, ks) + phase_steps(1, ks) + seq![TrialStep::RunChecks] + (if t.ssh_password is Some
        || t.key_passphrase is Some || t.bastion_password is Some {
        seq![TrialStep::CloseConnections]
    } else {
        seq![]
    }) + (if t.panel_password is Some || t.bastion_password is Some {
        seq![TrialStep::ClearPanelCache]
    } else {
        seq![]
    }) + phase_steps(2, ks)
}

fn push_phase(r: &mut Vec<TrialStep>, ks: &Vec<SecretKind>, phase: u8)
    ensures
        final(r)@ == old(r)@ + phase_steps(phase, ks@),
{
    let ghost start = r@;
    let mut i: usize = 0;
    while i < ks.len()
        invariant
            i <= ks@.len(),
            r@ == start + phase_steps(phase, ks@.subrange(0, i as int)),
        decreases ks.len() - i,
    {
        let step = if phase == 0 {
            TrialStep::ReadPrevious(ks[i])
        } else if phase == 1 {
            TrialStep::SaveTried(ks[i])
        } else {
            TrialStep::PutBack(ks[i])
        };
        r.push(step);
        assert(phase_steps(phase, ks@.subrange(0, i + 1)) =~= phase_steps(phase, ks@.subrange(0, i as int)).push(
            phase_step(phase, ks@[i as int]),
        ));
        i = i + 1;
    }
    assert(ks@.subrange(0, ks@.len() as int) =~= ks@);
}

impl TrialSecrets {
    fn kinds(&self) -> (r: Vec<SecretKind>)
        ensures
            r@ == tried_kinds(*self),
    {
        let mut r: Vec<SecretKind> = Vec::new();
        if self.ssh_password.is_some() {
            r.push(SecretKind::SshPassword);
        }
        if self.key_passphrase.is_some() {
            r.push(SecretKind::KeyPassphrase);
        }
        if self.bastion_password.is_some() {
            r.push(SecretKind::BastionPassword);
        }
        if self.panel_password.is_some() {
            r.push(SecretKind::PanelCredentials);
        }
        assert(r@ =~= tried_kinds(*self));
        r
    }

    /// The steps of the connection test with these secrets, in order.
    pub fn trial_plan(&self) -> (r: Vec<TrialStep>)
        ensures
            r@ == trial_plan_spec(*self),
    {
        let ks = self.kinds();
        let mut r: Vec<TrialStep> = Vec::new();
        push_phase(&mut r, &ks, 0);
        push_phase(&mut r, &ks, 1);
        r.push(TrialStep::RunChecks);
        if self.resets_connections() {
            r.push(TrialStep::CloseConnections);
        }
        if self.clears_panel_cache() {
            r.push(TrialStep::ClearPanelCache);
        }
        push_phase(&mut r, &ks, 2);
        assert(r@ =~= trial_plan_spec(*self));
        r
    }
}

} // verus!
