//! Secrets kept out of the configuration file: the `security` tool's
//! command lines for the macOS Keychain and how their outcomes are read,
//! and the migration of passwords that older versions wrote into the
//! configuration. Running the tool and editing the file are the caller's
//! part.
use vstd::prelude::*;
use crate::config::{opt_view, ServerConfig};
use crate::text::{chars_of, contains, contains_str, copy_str, push_str, string_views, trim, trim_str};

verus! {

fn push_lit(args: &mut Vec<String>, a: &str)
    ensures
        string_views(final(args)@) == string_views(old(args)@).push(a@),
{
    let ghost before = args@;
    args.push(copy_str(a));
    assert(string_views(args@) =~= string_views(before).push(a@));
}

// ---------------------------------------------------------------------
// The Keychain, through `/usr/bin/security`
// ---------------------------------------------------------------------

/// The arguments that store a password, replacing any stored before.
pub fn keychain_save_args(service: &str, account: &str, password: &str) -> (r: Vec<String>)
    ensures
        string_views(r@) == seq![
            "add-generic-password"@,
            "-U"@,
            "-s"@,
            service@,
            "-a"@,
            account@,
            "-w"@,
            password@,
        ],
{
    let mut a: Vec<String> = Vec::new();
    push_lit(&mut a, "add-generic-password");
    push_lit(&mut a, "-U");
    push_lit(&mut a, "-s");
    push_lit(&mut a, service);
    push_lit(&mut a, "-a");
    push_lit(&mut a, account);
    push_lit(&mut a, "-w");
    push_lit(&mut a, password);
    assert(string_views(a@) =~= seq![
        "add-generic-password"@,
        "-U"@,
        "-s"@,
        service@,
        "-a"@,
        account@,
        "-w"@,
        password@,
    ]);
    a
}

/// The arguments that print a stored password.
pub fn keychain_read_args(service: &str, account: &str) -> (r: Vec<String>)
    ensures
        string_views(r@) == seq!["find-generic-password"@, "-s"@, service@, "-a"@, account@, "-w"@],
{
    let mut a: Vec<String> = Vec::new();
    push_lit(&mut a, "find-generic-password");
    push_lit(&mut a, "-s");
    push_lit(&mut a, service);
    push_lit(&mut a, "-a");
    push_lit(&mut a, account);
    push_lit(&mut a, "-w");
    assert(string_views(a@) =~= seq!["find-generic-password"@, "-s"@, service@, "-a"@, account@, "-w"@]);
    a
}

/// The arguments that delete a stored password.
pub fn keychain_delete_args(service: &str, account: &str) -> (r: Vec<String>)
    ensures
        string_views(r@) == seq!["delete-generic-password"@, "-s"@, service@, "-a"@, account@],
{
    let mut a: Vec<String> = Vec::new();
    push_lit(&mut a, "delete-generic-password");
    push_lit(&mut a, "-s");
    push_lit(&mut a, service);
    push_lit(&mut a, "-a");
    push_lit(&mut a, account);
    assert(string_views(a@) =~= seq!["delete-generic-password"@, "-s"@, service@, "-a"@, account@]);
    a
}

/// A stored password as read: what the tool printed, trimmed, when it
/// succeeded and printed something; none otherwise.
pub fn keychain_read_outcome(success: bool, stdout: &str) -> (r: Option<String>)
    ensures
        opt_view(r) == if success && trim(stdout@).len() > 0 {
            Some(trim(stdout@))
        } else {
            None
        },
{
    if !success {
        return None;
    }
    let t = trim_str(stdout);
    if t.as_str().is_empty() {
        None
    } else {
        Some(t)
    }
}

/// The outcome of storing a password.
pub fn keychain_write_outcome(success: bool, stderr: &str) -> (r: Result<(), String>)
    ensures
        success ==> r is Ok,
        !success ==> (r matches Err(m) && m@ == "keychain write failed: "@ + trim(stderr@)),
{
    if success {
        Ok(())
    } else {
        let mut m = copy_str("keychain write failed: ");
        push_str(&mut m, trim_str(stderr).as_str());
        Err(m)
    }
}

/// The outcome of deleting a password: a password that was not there
/// counts as deleted.
pub fn keychain_delete_outcome(success: bool, stderr: &str) -> (r: Result<(), String>)
    ensures
        (success || contains(stderr@, "could not be found"@)) ==> r is Ok,
        !(success || contains(stderr@, "could not be found"@)) ==> (r matches Err(m) && m@
            == "keychain delete failed: "@ + trim(stderr@)),
{
    if success {
        return Ok(());
    }
    if contains_str(&chars_of(stderr), "could not be found") {
        return Ok(());
    }
    let mut m = copy_str("keychain delete failed: ");
    push_str(&mut m, trim_str(stderr).as_str());
    Err(m)
}

// ---------------------------------------------------------------------
// Passwords left in the configuration file
// ---------------------------------------------------------------------

/// A field of a server's JSON record that may hold a secret.
#[derive(Debug)]
pub enum SecretField {
    /// A string.
    Text(String),
    /// Any other JSON value.
    Other,
}

/// The secret a list of fields gives: the first field, in the list's
/// order, present with a non-blank string, trimmed. All the fields are
/// removed from the record either way.
pub open spec fn first_secret(values: Seq<Option<SecretField>>) -> Option<Seq<char>>
    decreases values.len(),
{
    if values.len() == 0 {
        None
    } else {
        match values[0] {
            Some(SecretField::Text(t)) => if trim(t@).len() > 0 {
                Some(trim(t@))
            } else {
                first_secret(values.drop_first())
            },
            _ => first_secret(values.drop_first()),
        }
    }
}

/// `values` are the record's values for the fields of one list, in the
/// list's order (none where the record lacks the field).
pub fn take_first_string(values: &Vec<Option<SecretField>>) -> (r: Option<String>)
    ensures
        opt_view(r) == first_secret(values@),
{
    let mut i: usize = 0;
    assert(values@.subrange(0, values@.len() as int) =~= values@);
    while i < values.len()
        invariant
            i <= values@.len(),
            first_secret(values@) == first_secret(values@.subrange(i as int, values@.len() as int)),
        decreases values.len() - i,
    {
        let ghost rest = values@.subrange(i as int, values@.len() as int);
        assert(rest[0] == values@[i as int]);
        assert(rest.drop_first() =~= values@.subrange(i + 1, values@.len() as int));
        match &values[i] {
            Some(SecretField::Text(t)) => {
                let s = trim_str(t.as_str());
                if !s.as_str().is_empty() {
                    return Some(s);
                }
            },
            _ => {},
        }
        i = i + 1;
    }
    None
}

/// The fields an SSH password was kept under, in the order they are tried.
pub fn ssh_secret_fields() -> (r: Vec<String>)
    ensures
        string_views(r@) == seq!["sshPassword"@, "sshPass"@, "ssh_password"@, "password"@],
{
    let mut a: Vec<String> = Vec::new();
    push_lit(&mut a, "sshPassword");
    push_lit(&mut a, "sshPass");
    push_lit(&mut a, "ssh_password");
    push_lit(&mut a, "password");
    assert(string_views(a@) =~= seq!["sshPassword"@, "sshPass"@, "ssh_password"@, "password"@]);
    a
}

/// The fields a key passphrase was kept under.
pub fn ssh_key_secret_fields() -> (r: Vec<String>)
    ensures
        string_views(r@) == seq!["sshKeyPassphrase"@, "ssh_key_passphrase"@],
{
    let mut a: Vec<String> = Vec::new();
    push_lit(&mut a, "sshKeyPassphrase");
    push_lit(&mut a, "ssh_key_passphrase");
    assert(string_views(a@) =~= seq!["sshKeyPassphrase"@, "ssh_key_passphrase"@]);
    a
}

/// The fields a panel password was kept under.
pub fn panel_secret_fields() -> (r: Vec<String>)
    ensures
        string_views(r@) == seq![
            "panelPassword"@,
            "panelPass"@,
            "threeXUiPassword"@,
            "threeXPassword"@,
            "xuiPassword"@,
            "xuiPass"@,
        ],
{
    let mut a: Vec<String> = Vec::new();
    push_lit(&mut a, "panelPassword");
    push_lit(&mut a, "panelPass");
    push_lit(&mut a, "threeXUiPassword");
    push_lit(&mut a, "threeXPassword");
    push_lit(&mut a, "xuiPassword");
    push_lit(&mut a, "xuiPass");
    assert(string_views(a@) =~= seq![
        "panelPassword"@,
        "panelPass"@,
        "threeXUiPassword"@,
        "threeXPassword"@,
        "xuiPassword"@,
        "xuiPass"@,
    ]);
    a
}

/// The user a migrated panel password is stored for: the server's panel
/// user unless it is blank, else `admin`.
pub fn migrated_panel_user(server: &ServerConfig) -> (r: String)
    ensures
        r@ == match server.panel_user {
            Some(u) => if trim(u@).len() > 0 {
                u@
            } else {
                "admin"@
            },
            None => "admin"@,
        },
{
    match &server.panel_user {
        Some(u) => {
            let t = trim_str(u.as_str());
            if t.as_str().is_empty() {
                copy_str("admin")
            } else {
                u.clone()
            }
        },
        None => copy_str("admin"),
    }
}

/// Does the former application's configuration still hold a password, so
/// that it is to be set aside?
pub open spec fn holds_plaintext_secret(raw: Seq<char>) -> bool {
    ||| contains(raw, "sshPassword"@)
    ||| contains(raw, "panelPassword"@)
    ||| contains(raw, "sshKeyPassphrase"@)
    ||| contains(raw, "threeXUiPassword"@)
    ||| contains(raw, "\"password\""@)
}

pub fn legacy_file_holds_secrets(raw: &str) -> (b: bool)
    ensures
        b == holds_plaintext_secret(raw@),
{
    let v = chars_of(raw);
    contains_str(&v, "sshPassword") || contains_str(&v, "panelPassword") || contains_str(
        &v,
        "sshKeyPassphrase",
    ) || contains_str(&v, "threeXUiPassword") || contains_str(&v, "\"password\"")
}

/// Which configuration file the migration reads: the current one, or the
/// former application's when there is no current one yet and it exists.
#[derive(Clone, Copy, Debug, PartialEq, Eq, Structural)]
pub enum MigrationSource {
    Current,
    Legacy,
}

pub fn migration_source(config_exists: bool, legacy_exists: bool) -> (r: MigrationSource)
    ensures
        r == if !config_exists && legacy_exists {
            MigrationSource::Legacy
        } else {
            MigrationSource::Current
        },
{
    if !config_exists && legacy_exists {
        MigrationSource::Legacy
    } else {
        MigrationSource::Current
    }
}

/// The secrets found in one server's entry of a configuration file that
/// still holds them in plain text, to be moved to the Keychain: the SSH
/// password, the key passphrase, and the panel password with the user it is
/// saved for.
#[derive(Debug)]
pub struct MigratedSecrets {
    pub ssh_password: Option<String>,
    pub key_passphrase: Option<String>,
    pub panel_login: Option<(String, String)>,
}

impl MigratedSecrets {
    /// Whether the entry held a secret, so that the file is rewritten
    /// without it.
    pub fn changes_file(&self) -> (b: bool)
        ensures
            b == (self.ssh_password is Some || self.key_passphrase is Some || self.panel_login is Some),
    {
        self.ssh_password.is_some() || self.key_passphrase.is_some() || self.panel_login.is_some()
    }
}

/// What one server's entry gives, from the values under the SSH password
/// fields, the key passphrase fields and the panel password fields (each in
/// the order of `ssh_secret_fields`, `ssh_key_secret_fields` and
/// `panel_secret_fields`): the first non-blank text of each, trimmed; the
/// panel password goes with the server's panel user, `admin` when it has
/// none.
pub fn server_secrets(
    server: &ServerConfig,
    ssh_values: &Vec<Option<SecretField>>,
    key_values: &Vec<Option<SecretField>>,
    panel_values: &Vec<Option<SecretField>>,
) -> (r: MigratedSecrets)
    ensures
        opt_view(r.ssh_password) == first_secret(ssh_values@),
        opt_view(r.key_passphrase) == first_secret(key_values@),
        match first_secret(panel_values@) {
            Some(p) => r.panel_login matches Some((u, q)) && q@ == p && u@ == match server.panel_user {
                Some(n) => if trim(n@).len() > 0 {
                    n@
                } else {
                    "admin"@
                },
                None => "admin"@,
            },
            None => r.panel_login is None,
        },
{
    let ssh_password = take_first_string(ssh_values);
    let key_passphrase = take_first_string(key_values);
    let panel_login = match take_first_string(panel_values) {
        Some(p) => Some((migrated_panel_user(server), p)),
        None => None,
    };
    MigratedSecrets { ssh_password, key_passphrase, panel_login }
}

} // verus!
