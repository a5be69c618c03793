//! The command lines the application runs `ssh` and `sftp` with: the
//! pooled master connection, commands over it, file transfers and their
//! batch files, the control requests, and the bastion tunnel; and what the
//! outcome of a run is taken to be. Running the programs is the caller's
//! part.
use vstd::prelude::*;
use crate::config::{clean_id, clean_opt, opt_view, ServerConfig};
use crate::ssh::{
    bastion_host, bastion_host_spec, bastion_port, bastion_port_spec, bastion_proxy_command,
    bastion_proxy_jump, bastion_user, bastion_user_spec, expand_tilde, expand_tilde_spec, has_bastion,
    is_connection_reuse_error, is_connection_reuse_error_spec, proxy_command_spec, proxy_jump_spec,
};
use crate::text::{
    copy_str, decimal, push_decimal, push_str, sftp_quote, sftp_quoted, string_views, trim, trim_str,
};

verus! {

/// Seconds an SSH connection may take to be set up.
pub const SSH_CONNECT_TIMEOUT_SECS: u64 = 8;

/// Seconds a master connection stays open while idle.
pub const SSH_IDLE_TIMEOUT_SECS: u64 = 120;

fn push_arg(args: &mut Vec<String>, a: String)
    ensures
        string_views(final(args)@) == string_views(old(args)@).push(a@),
{
    let ghost before = args@;
    args.push(a);
    assert(string_views(args@) =~= string_views(before).push(a@));
}

fn push_lit(args: &mut Vec<String>, a: &str)
    ensures
        string_views(final(args)@) == string_views(old(args)@).push(a@),
{
    push_arg(args, copy_str(a));
}

/// The home directory as the contracts take it.
pub open spec fn home_view(home: Option<&str>) -> Option<Seq<char>> {
    match home {
        Some(h) => Some(h@),
        None => None,
    }
}

/// The arguments that select the server's own key, when it has one.
pub open spec fn key_args(s: ServerConfig, home: Option<Seq<char>>) -> Seq<Seq<char>> {
    match s.ssh_key_path {
        Some(k) => seq!["-i"@, expand_tilde_spec(k@, home), "-o"@, "IdentitiesOnly=yes"@],
        None => seq![],
    }
}

/// The arguments that route the connection through the bastion: a
/// `ProxyCommand` when the bastion has its own key, else a `ProxyJump`.
pub open spec fn proxy_args(s: ServerConfig, home: Option<Seq<char>>) -> Seq<Seq<char>> {
    match proxy_command_spec(s, home) {
        Some(c) => seq!["-o"@, "ProxyCommand="@ + c],
        None => match proxy_jump_spec(s) {
            Some(j) => seq!["-o"@, "ProxyJump="@ + j],
            None => seq![],
        },
    }
}

/// `user@host` of the server.
pub open spec fn target_arg(s: ServerConfig) -> Seq<char> {
    s.ssh_user@ + "@"@ + s.host@
}

fn push_key_args(args: &mut Vec<String>, server: &ServerConfig, home: Option<&str>)
    ensures
        string_views(final(args)@) == string_views(old(args)@) + key_args(*server, home_view(home)),
{
    let ghost before = string_views(args@);
    match &server.ssh_key_path {
        Some(k) => {
            push_lit(args, "-i");
            push_arg(args, expand_tilde(k.as_str(), home));
            push_lit(args, "-o");
            push_lit(args, "IdentitiesOnly=yes");
        },
        None => {},
    }
    assert(string_views(args@) =~= before + key_args(*server, home_view(home)));
}

fn push_proxy_args(args: &mut Vec<String>, server: &ServerConfig, home: Option<&str>)
    ensures
        string_views(final(args)@) == string_views(old(args)@) + proxy_args(*server, home_view(home)),
{
    let ghost before = string_views(args@);
    match bastion_proxy_command(server, home) {
        Some(c) => {
            push_lit(args, "-o");
            let mut o = copy_str("ProxyCommand=");
            push_str(&mut o, c.as_str());
            push_arg(args, o);
        },
        None => match bastion_proxy_jump(server) {
            Some(j) => {
                push_lit(args, "-o");
                let mut o = copy_str("ProxyJump=");
                push_str(&mut o, j.as_str());
                push_arg(args, o);
            },
            None => {},
        },
    }
    assert(string_views(args@) =~= before + proxy_args(*server, home_view(home)));
}

fn push_target(args: &mut Vec<String>, server: &ServerConfig)
    ensures
        string_views(final(args)@) == string_views(old(args)@).push(target_arg(*server)),
{
    let mut t = server.ssh_user.clone();
    push_str(&mut t, "@");
    push_str(&mut t, server.host.as_str());
    push_arg(args, t);
}

/// The arguments of the master connection that later commands reuse
/// through its control socket.
pub open spec fn master_args(s: ServerConfig, control_path: Seq<char>, home: Option<Seq<char>>) -> Seq<Seq<char>> {
    seq![
        "-M"@,
        "-N"@,
        "-f"@,
        "-p"@,
        decimal(s.ssh_port as nat),
        "-o"@,
        "BatchMode=no"@,
        "-o"@,
        "ConnectTimeout=8"@,
        "-o"@,
        "ControlPath="@ + control_path,
        "-o"@,
        "ControlPersist=120"@,
        "-o"@,
        "ExitOnForwardFailure=yes"@,
        "-o"@,
        "ServerAliveInterval=10"@,
        "-o"@,
        "ServerAliveCountMax=3"@,
        "-o"@,
        "StrictHostKeyChecking=accept-new"@,
        "-o"@,
        "PreferredAuthentications=publickey,password"@,
    ] + key_args(s, home) + proxy_args(s, home) + seq![target_arg(s)]
}

fn port_arg(port: u16) -> (r: String)
    ensures
        r@ == decimal(port as nat),
{
    let mut r = String::new();
    push_decimal(&mut r, port as u64);
    r
}

fn prefixed(prefix: &str, value: &str) -> (r: String)
    ensures
        r@ == prefix@ + value@,
{
    let mut r = copy_str(prefix);
    push_str(&mut r, value);
    r
}

pub fn master_command_args(server: &ServerConfig, control_path: &str, home: Option<&str>) -> (r: Vec<String>)
    ensures
        string_views(r@) == master_args(*server, control_path@, home_view(home)),
{
    let mut a: Vec<String> = Vec::new();
    push_lit(&mut a, "-M");
    push_lit(&mut a, "-N");
    push_lit(&mut a, "-f");
    push_lit(&mut a, "-p");
    push_arg(&mut a, port_arg(server.ssh_port));
    push_lit(&mut a, "-o");
    push_lit(&mut a, "BatchMode=no");
    push_lit(&mut a, "-o");
    push_lit(&mut a, "ConnectTimeout=8");
    push_lit(&mut a, "-o");
    push_arg(&mut a, prefixed("ControlPath=", control_path));
    push_lit(&mut a, "-o");
    push_lit(&mut a, "ControlPersist=120");
    push_lit(&mut a, "-o");
    push_lit(&mut a, "ExitOnForwardFailure=yes");
    push_lit(&mut a, "-o");
    push_lit(&mut a, "ServerAliveInterval=10");
    push_lit(&mut a, "-o");
    push_lit(&mut a, "ServerAliveCountMax=3");
    push_lit(&mut a, "-o");
    push_lit(&mut a, "StrictHostKeyChecking=accept-new");
    push_lit(&mut a, "-o");
    push_lit(&mut a, "PreferredAuthentications=publickey,password");
    push_key_args(&mut a, server, home);
    push_proxy_args(&mut a, server, home);
    push_target(&mut a, server);
    assert(string_views(a@) =~= master_args(*server, control_path@, home_view(home)));
    a
}

/// How long a command's connection is kept alive without answers: short
/// for plain commands, longer for streamed ones.
#[derive(Clone, Copy, Debug, PartialEq, Eq, Structural)]
pub enum Keepalive {
    Short,
    Long,
}

pub open spec fn alive_interval(k: Keepalive) -> Seq<char> {
    match k {
        Keepalive::Short => "ServerAliveInterval=5"@,
        Keepalive::Long => "ServerAliveInterval=10"@,
    }
}

pub open spec fn alive_count(k: Keepalive) -> Seq<char> {
    match k {
        Keepalive::Short => "ServerAliveCountMax=1"@,
        Keepalive::Long => "ServerAliveCountMax=6"@,
    }
}

/// The arguments that run a remote command over the master connection.
pub open spec fn run_args(
    s: ServerConfig,
    control_path: Seq<char>,
    command: Seq<char>,
    keepalive: Keepalive,
    home: Option<Seq<char>>,
) -> Seq<Seq<char>> {
    seq![
        "-p"@,
        decimal(s.ssh_port as nat),
        "-o"@,
        "BatchMode=no"@,
        "-o"@,
        "ConnectTimeout=8"@,
        "-o"@,
        alive_interval(keepalive),
        "-o"@,
        alive_count(keepalive),
        "-o"@,
        "StrictHostKeyChecking=accept-new"@,
        "-o"@,
        "PreferredAuthentications=publickey,password"@,
        "-o"@,
        "ControlPath="@ + control_path,
    ] + key_args(s, home) + proxy_args(s, home) + seq![target_arg(s), command]
}

pub fn run_command_args(
    server: &ServerConfig,
    control_path: &str,
    command: &str,
    keepalive: Keepalive,
    home: Option<&str>,
) -> (r: Vec<String>)
    ensures
        string_views(r@) == run_args(*server, control_path@, command@, keepalive, home_view(home)),
{
    let mut a: Vec<String> = Vec::new();
    push_lit(&mut a, "-p");
    push_arg(&mut a, port_arg(server.ssh_port));
    push_lit(&mut a, "-o");
    push_lit(&mut a, "BatchMode=no");
    push_lit(&mut a, "-o");
    push_lit(&mut a, "ConnectTimeout=8");
    push_lit(&mut a, "-o");
    match keepalive {
        Keepalive::Short => push_lit(&mut a, "ServerAliveInterval=5"),
        Keepalive::Long => push_lit(&mut a, "ServerAliveInterval=10"),
    }
    push_lit(&mut a, "-o");
    match keepalive {
        Keepalive::Short => push_lit(&mut a, "ServerAliveCountMax=1"),
        Keepalive::Long => push_lit(&mut a, "ServerAliveCountMax=6"),
    }
    push_lit(&mut a, "-o");
    push_lit(&mut a, "StrictHostKeyChecking=accept-new");
    push_lit(&mut a, "-o");
    push_lit(&mut a, "PreferredAuthentications=publickey,password");
    push_lit(&mut a, "-o");
    push_arg(&mut a, prefixed("ControlPath=", control_path));
    push_key_args(&mut a, server, home);
    push_proxy_args(&mut a, server, home);
    push_target(&mut a, server);
    push_lit(&mut a, command);
    assert(string_views(a@) =~= run_args(*server, control_path@, command@, keepalive, home_view(home)));
    a
}

/// The arguments of an `sftp` transfer driven by a batch file.
pub open spec fn transfer_args(
    s: ServerConfig,
    control_path: Seq<char>,
    batch_path: Seq<char>,
    home: Option<Seq<char>>,
) -> Seq<Seq<char>> {
    seq![
        "-P"@,
        decimal(s.ssh_port as nat),
        "-o"@,
        "BatchMode=no"@,
        "-o"@,
        "ConnectTimeout=8"@,
        "-o"@,
        "ControlMaster=auto"@,
        "-o"@,
        "ControlPersist=120"@,
        "-o"@,
        "ControlPath="@ + control_path,
        "-o"@,
        "ServerAliveInterval=5"@,
        "-o"@,
        "ServerAliveCountMax=1"@,
        "-o"@,
        "StrictHostKeyChecking=accept-new"@,
        "-o"@,
        "PreferredAuthentications=publickey,password"@,
        "-o"@,
        "NumberOfPasswordPrompts=1"@,
        "-b"@,
        batch_path,
    ] + key_args(s, home) + proxy_args(s, home) + seq![target_arg(s)]
}

pub fn transfer_command_args(
    server: &ServerConfig,
    control_path: &str,
    batch_path: &str,
    home: Option<&str>,
) -> (r: Vec<String>)
    ensures
        string_views(r@) == transfer_args(*server, control_path@, batch_path@, home_view(home)),
{
    let mut a: Vec<String> = Vec::new();
    push_lit(&mut a, "-P");
    push_arg(&mut a, port_arg(server.ssh_port));
    push_lit(&mut a, "-o");
    push_lit(&mut a, "BatchMode=no");
    push_lit(&mut a, "-o");
    push_lit(&mut a, "ConnectTimeout=8");
    push_lit(&mut a, "-o");
    push_lit(&mut a, "ControlMaster=auto");
    push_lit(&mut a, "-o");
    push_lit(&mut a, "ControlPersist=120");
    push_lit(&mut a, "-o");
    push_arg(&mut a, prefixed("ControlPath=", control_path));
    push_lit(&mut a, "-o");
    push_lit(&mut a, "ServerAliveInterval=5");
    push_lit(&mut a, "-o");
    push_lit(&mut a, "ServerAliveCountMax=1");
    push_lit(&mut a, "-o");
    push_lit(&mut a, "StrictHostKeyChecking=accept-new");
    push_lit(&mut a, "-o");
    push_lit(&mut a, "PreferredAuthentications=publickey,password");
    push_lit(&mut a, "-o");
    push_lit(&mut a, "NumberOfPasswordPrompts=1");
    push_lit(&mut a, "-b");
    push_lit(&mut a, batch_path);
    push_key_args(&mut a, server, home);
    push_proxy_args(&mut a, server, home);
    push_target(&mut a, server);
    assert(string_views(a@) =~= transfer_args(*server, control_path@, batch_path@, home_view(home)));
    a
}

/// The `sftp` batch that downloads a remote file to a local path.
pub fn download_batch(remote_path: &str, local_path: &str) -> (r: String)
    ensures
        r@ == "get "@ + sftp_quoted(remote_path@) + " "@ + sftp_quoted(local_path@) + "\n"@,
{
    let mut r = copy_str("get ");
    push_str(&mut r, sftp_quote(remote_path).as_str());
    push_str(&mut r, " ");
    push_str(&mut r, sftp_quote(local_path).as_str());
    push_str(&mut r, "\n");
    r
}

/// The `sftp` batch that uploads a local file to a remote path.
pub fn upload_batch(local_path: &str, remote_path: &str) -> (r: String)
    ensures
        r@ == "put "@ + sftp_quoted(local_path@) + " "@ + sftp_quoted(remote_path@) + "\n"@,
{
    let mut r = copy_str("put ");
    push_str(&mut r, sftp_quote(local_path).as_str());
    push_str(&mut r, " ");
    push_str(&mut r, sftp_quote(remote_path).as_str());
    push_str(&mut r, "\n");
    r
}

/// A request to the master connection: `check` whether it is alive, or
/// `exit`.
pub open spec fn control_args(s: ServerConfig, control_path: Seq<char>, op: Seq<char>, home: Option<Seq<char>>) -> Seq<
    Seq<char>,
> {
    seq!["-O"@, op, "-p"@, decimal(s.ssh_port as nat), "-o"@, "ControlPath="@ + control_path]
        + proxy_args(s, home) + seq![target_arg(s)]
}

pub fn control_command_args(server: &ServerConfig, control_path: &str, op: &str, home: Option<&str>) -> (r: Vec<
    String,
>)
    ensures
        string_views(r@) == control_args(*server, control_path@, op@, home_view(home)),
{
    let mut a: Vec<String> = Vec::new();
    push_lit(&mut a, "-O");
    push_lit(&mut a, op);
    push_lit(&mut a, "-p");
    push_arg(&mut a, port_arg(server.ssh_port));
    push_lit(&mut a, "-o");
    push_arg(&mut a, prefixed("ControlPath=", control_path));
    push_proxy_args(&mut a, server, home);
    push_target(&mut a, server);
    assert(string_views(a@) =~= control_args(*server, control_path@, op@, home_view(home)));
    a
}

/// The arguments of the tunnel from a local port through the bastion to a
/// target; none when the server has no bastion.
pub open spec fn tunnel_args(
    s: ServerConfig,
    local_port: u16,
    target_host: Seq<char>,
    target_port: u16,
    home: Option<Seq<char>>,
) -> Option<Seq<Seq<char>>> {
    match bastion_host_spec(s) {
        None => None,
        Some(h) => Some(
            seq![
                "-N"@,
                "-L"@,
                "127.0.0.1:"@ + decimal(local_port as nat) + ":"@ + target_host + ":"@ + decimal(
                    target_port as nat,
                ),
                "-p"@,
                decimal(bastion_port_spec(s) as nat),
                "-o"@,
                "BatchMode=no"@,
                "-o"@,
                "ConnectTimeout=8"@,
                "-o"@,
                "ExitOnForwardFailure=yes"@,
                "-o"@,
                "ServerAliveInterval=5"@,
                "-o"@,
                "ServerAliveCountMax=1"@,
                "-o"@,
                "StrictHostKeyChecking=accept-new"@,
                "-o"@,
                "PreferredAuthentications=publickey,password"@,
            ] + match clean_id(s.bastion_ssh_key_path) {
                Some(k) => seq!["-i"@, expand_tilde_spec(k, home), "-o"@, "IdentitiesOnly=yes"@],
                None => seq![],
            } + seq![bastion_user_spec(s) + "@"@ + h],
        ),
    }
}

pub fn tunnel_command_args(
    server: &ServerConfig,
    local_port: u16,
    target_host: &str,
    target_port: u16,
    home: Option<&str>,
) -> (r: Option<Vec<String>>)
    ensures
        match r {
            Some(a) => tunnel_args(*server, local_port, target_host@, target_port, home_view(home))
                == Some(string_views(a@)),
            None => tunnel_args(*server, local_port, target_host@, target_port, home_view(home)) is None,
        },
{
    let host = match bastion_host(server) {
        Some(h) => h,
        None => {
            return None;
        },
    };
    let mut a: Vec<String> = Vec::new();
    push_lit(&mut a, "-N");
    push_lit(&mut a, "-L");
    let mut fwd = copy_str("127.0.0.1:");
    push_decimal(&mut fwd, local_port as u64);
    push_str(&mut fwd, ":");
    push_str(&mut fwd, target_host);
    push_str(&mut fwd, ":");
    push_decimal(&mut fwd, target_port as u64);
    push_arg(&mut a, fwd);
    push_lit(&mut a, "-p");
    push_arg(&mut a, port_arg(bastion_port(server)));
    push_lit(&mut a, "-o");
    push_lit(&mut a, "BatchMode=no");
    push_lit(&mut a, "-o");
    push_lit(&mut a, "ConnectTimeout=8");
    push_lit(&mut a, "-o");
    push_lit(&mut a, "ExitOnForwardFailure=yes");
    push_lit(&mut a, "-o");
    push_lit(&mut a, "ServerAliveInterval=5");
    push_lit(&mut a, "-o");
    push_lit(&mut a, "ServerAliveCountMax=1");
    push_lit(&mut a, "-o");
    push_lit(&mut a, "StrictHostKeyChecking=accept-new");
    push_lit(&mut a, "-o");
    push_lit(&mut a, "PreferredAuthentications=publickey,password");
    match clean_opt(&server.bastion_ssh_key_path) {
        Some(k) => {
            push_lit(&mut a, "-i");
            push_arg(&mut a, expand_tilde(k.as_str(), home));
            push_lit(&mut a, "-o");
            push_lit(&mut a, "IdentitiesOnly=yes");
        },
        None => {},
    }
    let mut t = bastion_user(server);
    push_str(&mut t, "@");
    push_str(&mut t, host.as_str());
    push_arg(&mut a, t);
    assert(Some(string_views(a@)) =~= tunnel_args(*server, local_port, target_host@, target_port, home_view(home)));
    Some(a)
}

// ---------------------------------------------------------------------
// Outcomes
// ---------------------------------------------------------------------

/// What a remote command printed: its output, and its errors too when they
/// are asked for and not blank.
pub open spec fn combined_output(stdout: Seq<char>, stderr: Seq<char>, include_stderr: bool) -> Seq<char> {
    if include_stderr && trim(stderr).len() > 0 {
        stdout + stderr
    } else {
        stdout
    }
}

/// The outcome of a remote command: its output when it succeeded, else the
/// failure message; and whether the failure says the pooled connection is
/// broken, so that it must be dropped.
pub open spec fn run_outcome_spec(stdout: Seq<char>, stderr: Seq<char>, include_stderr: bool, success: bool) -> (
    Result<Seq<char>, Seq<char>>,
    bool,
) {
    let out = combined_output(stdout, stderr, include_stderr);
    if success {
        (Ok(out), false)
    } else {
        let m = "ssh command failed: "@ + trim(out);
        (Err(m), is_connection_reuse_error_spec(m))
    }
}

pub fn run_outcome(stdout: &str, stderr: &str, include_stderr: bool, success: bool) -> (r: (Result<String, String>, bool))
    ensures
        ((match r.0 {
            Ok(s) => Ok::<Seq<char>, Seq<char>>(s@),
            Err(e) => Err::<Seq<char>, Seq<char>>(e@),
        }), r.1) == run_outcome_spec(stdout@, stderr@, include_stderr, success),
{
    let t = trim_str(stderr);
    let out = if include_stderr && !t.as_str().is_empty() {
        let mut o = copy_str(stdout);
        push_str(&mut o, stderr);
        o
    } else {
        copy_str(stdout)
    };
    if success {
        (Ok(out), false)
    } else {
        let mut m = copy_str("ssh command failed: ");
        push_str(&mut m, trim_str(out.as_str()).as_str());
        let broken = is_connection_reuse_error(m.as_str());
        (Err(m), broken)
    }
}

/// The kinds of failure message of the other runs.
#[derive(Clone, Copy, Debug, PartialEq, Eq, Structural)]
pub enum FailedRun {
    Download,
    Upload,
    Master,
}

pub open spec fn failed_run_prefix(k: FailedRun) -> Seq<char> {
    match k {
        FailedRun::Download => "sftp download failed: "@,
        FailedRun::Upload => "sftp upload failed: "@,
        FailedRun::Master => "ssh master connection failed: "@,
    }
}

/// The failure message of a transfer or of the master connection, from
/// what the program wrote to its error output; and whether it says the
/// pooled connection is broken.
pub fn failure_message(kind: FailedRun, stderr: &str) -> (r: (String, bool))
    ensures
        r.0@ == failed_run_prefix(kind) + trim(stderr@),
        r.1 == is_connection_reuse_error_spec(r.0@),
{
    let mut m = match kind {
        FailedRun::Download => copy_str("sftp download failed: "),
        FailedRun::Upload => copy_str("sftp upload failed: "),
        FailedRun::Master => copy_str("ssh master connection failed: "),
    };
    push_str(&mut m, trim_str(stderr).as_str());
    let broken = is_connection_reuse_error(m.as_str());
    (m, broken)
}

/// A reachability check's result: the round trip in whole milliseconds and
/// whether it took over a second, or none when the server did not answer.
pub open spec fn ping_outcome_spec(latency: Option<(u128, bool)>, via_bastion: bool) -> (Option<u128>, Seq<char>, Seq<char>) {
    match latency {
        Some((ms, slow)) => (
            Some(ms),
            if slow {
                "warning"@
            } else {
                "online"@
            },
            if via_bastion {
                "SSH route through bastion OK"@
            } else {
                "SSH OK"@
            },
        ),
        None => (
            None,
            "offline"@,
            if via_bastion {
                "SSH route through bastion failed"@
            } else {
                "SSH failed"@
            },
        ),
    }
}

pub fn ping_outcome(latency: Option<(u128, bool)>, server: &ServerConfig) -> (r: (Option<u128>, String, String))
    ensures
        (r.0, r.1@, r.2@) == ping_outcome_spec(latency, bastion_host_spec(*server) is Some),
{
    let via = has_bastion(server);
    match latency {
        Some((ms, slow)) => (
            Some(ms),
            if slow {
                copy_str("warning")
            } else {
                copy_str("online")
            },
            if via {
                copy_str("SSH route through bastion OK")
            } else {
                copy_str("SSH OK")
            },
        ),
        None => (
            None,
            copy_str("offline"),
            if via {
                copy_str("SSH route through bastion failed")
            } else {
                copy_str("SSH failed")
            },
        ),
    }
}

/// The message when a run took longer than its time limit.
pub open spec fn timed_out_text(k: FailedRun) -> Seq<char> {
    match k {
        FailedRun::Download => "sftp download timed out"@,
        FailedRun::Upload => "sftp upload timed out"@,
        FailedRun::Master => "ssh master connection timed out"@,
    }
}

pub fn timed_out_message(kind: FailedRun) -> (r: String)
    ensures
        r@ == timed_out_text(kind),
{
    match kind {
        FailedRun::Download => copy_str("sftp download timed out"),
        FailedRun::Upload => copy_str("sftp upload timed out"),
        FailedRun::Master => copy_str("ssh master connection timed out"),
    }
}

/// The refusal of an upload whose local file does not exist.
pub fn missing_local_file_message(local_path: &str) -> (r: String)
    ensures
        r@ == "local file does not exist: "@ + local_path@,
{
    let mut r = copy_str("local file does not exist: ");
    push_str(&mut r, local_path);
    r
}

/// The arguments of a download by the application's former version: no
/// pooled connection and no bastion, the password through the helper.
pub open spec fn plain_transfer_args(s: ServerConfig, batch_path: Seq<char>, home: Option<Seq<char>>) -> Seq<
    Seq<char>,
> {
    seq![
        "-P"@,
        decimal(s.ssh_port as nat),
        "-o"@,
        "BatchMode=no"@,
        "-o"@,
        "ConnectTimeout=8"@,
        "-o"@,
        "StrictHostKeyChecking=accept-new"@,
        "-b"@,
        batch_path,
    ] + key_args(s, home) + seq![target_arg(s)]
}

pub fn plain_transfer_command_args(server: &ServerConfig, batch_path: &str, home: Option<&str>) -> (r: Vec<String>)
    ensures
        string_views(r@) == plain_transfer_args(*server, batch_path@, home_view(home)),
{
    let mut a: Vec<String> = Vec::new();
    push_lit(&mut a, "-P");
    push_arg(&mut a, port_arg(server.ssh_port));
    push_lit(&mut a, "-o");
    push_lit(&mut a, "BatchMode=no");
    push_lit(&mut a, "-o");
    push_lit(&mut a, "ConnectTimeout=8");
    push_lit(&mut a, "-o");
    push_lit(&mut a, "StrictHostKeyChecking=accept-new");
    push_lit(&mut a, "-b");
    push_lit(&mut a, batch_path);
    push_key_args(&mut a, server, home);
    push_target(&mut a, server);
    assert(string_views(a@) =~= plain_transfer_args(*server, batch_path@, home_view(home)));
    a
}

} // verus!
