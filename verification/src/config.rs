//! The application configuration: servers, bastions and settings, and the
//! edits the application makes to it. Reading and writing the file is the
//! caller's part; these functions take the loaded configuration and return
//! the configuration to save.
use vstd::prelude::*;
use crate::ids::{is_simple_id, new_simple_id};
use crate::registry::{
    contains_key, find_index, first_index, has_key, lookup, lemma_lookup_first,
    lemma_lookup_none, remove_key, remove_key_vec, upsert, upsert_vec, Keyed,
};
use crate::text::{copy_str, is_ws, push_str, str_eq, trim, trim_str};

verus! {

/// A VPN server reached over SSH, optionally through a bastion host.
#[derive(Clone, Debug)]
pub struct ServerConfig {
    pub id: String,
    pub name: String,
    pub host: String,
    pub ssh_port: u16,
    pub ssh_user: String,
    pub country: String,
    pub panel_url: Option<String>,
    pub panel_user: Option<String>,
    pub ssh_key_path: Option<String>,
    pub bastion_host: Option<String>,
    pub bastion_port: Option<u16>,
    pub bastion_user: Option<String>,
    pub bastion_ssh_key_path: Option<String>,
    pub ssh_key_passphrase: Option<String>,
    pub ssl_verify: bool,
}

/// A jump host that servers can be reached through.
#[derive(Clone, Debug)]
pub struct BastionConfig {
    pub id: String,
    pub name: String,
    pub host: String,
    pub port: u16,
    pub user: String,
    pub ssh_key_path: Option<String>,
}

/// The whole configuration file.
#[derive(Clone, Debug)]
pub struct AppConfig {
    pub theme: String,
    pub poll_interval_sec: u64,
    pub servers: Vec<ServerConfig>,
    pub bastions: Vec<BastionConfig>,
    pub monitor_server_id: Option<String>,
    pub monitor_bastion_id: Option<String>,
}

/// Why a configuration edit or lookup was refused.
#[derive(Debug)]
pub enum ConfigError {
    UnknownTheme(String),
    BothMonitorTargets,
    MonitorServerNotFound(String),
    MonitorBastionNotFound(String),
    ServerNotFound(String),
}

impl Keyed for ServerConfig {
    open spec fn key(&self) -> Seq<char> {
        self.id@
    }

    fn key_str(&self) -> (r: &str) {
        self.id.as_str()
    }
}

impl Keyed for BastionConfig {
    open spec fn key(&self) -> Seq<char> {
        self.id@
    }

    fn key_str(&self) -> (r: &str) {
        self.id.as_str()
    }
}

pub open spec fn opt_view(o: Option<String>) -> Option<Seq<char>> {
    match o {
        Some(s) => Some(s@),
        None => None,
    }
}

/// A copy of an optional string.
pub fn dup_opt(o: &Option<String>) -> (r: Option<String>)
    ensures
        r == *o,
{
    match o {
        Some(s) => Some(s.clone()),
        None => None,
    }
}

impl ServerConfig {
    /// A copy of the record.
    pub fn duplicate(&self) -> (r: ServerConfig)
        ensures
            r == *self,
    {
        ServerConfig {
            id: self.id.clone(),
            name: self.name.clone(),
            host: self.host.clone(),
            ssh_port: self.ssh_port,
            ssh_user: self.ssh_user.clone(),
            country: self.country.clone(),
            panel_url: dup_opt(&self.panel_url),
            panel_user: dup_opt(&self.panel_user),
            ssh_key_path: dup_opt(&self.ssh_key_path),
            bastion_host: dup_opt(&self.bastion_host),
            bastion_port: self.bastion_port,
            bastion_user: dup_opt(&self.bastion_user),
            bastion_ssh_key_path: dup_opt(&self.bastion_ssh_key_path),
            ssh_key_passphrase: dup_opt(&self.ssh_key_passphrase),
            ssl_verify: self.ssl_verify,
        }
    }
}

impl BastionConfig {
    /// A copy of the record.
    pub fn duplicate(&self) -> (r: BastionConfig)
        ensures
            r == *self,
    {
        BastionConfig {
            id: self.id.clone(),
            name: self.name.clone(),
            host: self.host.clone(),
            port: self.port,
            user: self.user.clone(),
            ssh_key_path: dup_opt(&self.ssh_key_path),
        }
    }
}

/// The theme a new configuration starts with.
pub fn default_theme() -> (r: String)
    ensures
        r@ == "dark"@,
{
    copy_str("dark")
}

impl Default for AppConfig {
    fn default() -> (r: AppConfig)
        ensures
            r.theme@ == "dark"@,
            r.poll_interval_sec == 10,
            r.servers@.len() == 0,
            r.bastions@.len() == 0,
            r.monitor_server_id is None,
            r.monitor_bastion_id is None,
    {
        AppConfig {
            theme: default_theme(),
            poll_interval_sec: 10,
            servers: Vec::new(),
            bastions: Vec::new(),
            monitor_server_id: None,
            monitor_bastion_id: None,
        }
    }
}

/// `PathBuf::join`: an absolute name replaces the directory; otherwise a
/// `/` is put between them unless the directory is empty or already ends
/// with one.
pub open spec fn join_path(dir: Seq<char>, name: Seq<char>) -> Seq<char> {
    if name.len() > 0 && name[0] == '/' {
        name
    } else if dir.len() == 0 {
        name
    } else if dir.last() == '/' {
        dir + name
    } else {
        dir + seq!['/'] + name
    }
}

pub fn join_path_str(dir: &str, name: &str) -> (r: String)
    ensures
        r@ == join_path(dir@, name@),
{
    let n = crate::text::chars_of(name);
    if n.len() > 0 && n[0] == '/' {
        return copy_str(name);
    }
    let d = crate::text::chars_of(dir);
    let mut r = copy_str(dir);
    if d.len() > 0 && d[d.len() - 1] != '/' {
        crate::text::push_char(&mut r, '/');
    }
    push_str(&mut r, name);
    proof {
        if d@.len() == 0 {
            assert(Seq::<char>::empty() + name@ =~= name@);
        }
    }
    r
}

/// The directory of the application's files under the user's data
/// directory.
pub fn config_dir(data_dir: &str) -> (r: String)
    ensures
        r@ == join_path(data_dir@, "NodeNet"@),
{
    join_path_str(data_dir, "NodeNet")
}

/// The configuration file under the user's data directory.
pub fn config_path(data_dir: &str) -> (r: String)
    ensures
        r@ == join_path(join_path(data_dir@, "NodeNet"@), "config.json"@),
{
    let dir = config_dir(data_dir);
    join_path_str(dir.as_str(), "config.json")
}

/// The local copy of the metrics history under the user's data directory.
pub fn metrics_cache_path(data_dir: &str) -> (r: String)
    ensures
        r@ == join_path(join_path(data_dir@, "NodeNet"@), "metrics-cache.json"@),
{
    let dir = config_dir(data_dir);
    join_path_str(dir.as_str(), "metrics-cache.json")
}

/// Where a downloaded panel configuration is kept: the `backups` directory
/// of the application's files, named by the server and the time `stamp` of
/// the download.
pub fn backup_path(data_dir: &str, server_id: &str, stamp: &str) -> (r: String)
    ensures
        r@ == join_path(
            join_path(join_path(data_dir@, "NodeNet"@), "backups"@),
            server_id@ + "-3x-ui-config-"@ + stamp@ + ".json"@,
        ),
{
    let app_dir = config_dir(data_dir);
    let dir = join_path_str(app_dir.as_str(), "backups");
    let mut name = copy_str(server_id);
    push_str(&mut name, "-3x-ui-config-");
    push_str(&mut name, stamp);
    push_str(&mut name, ".json");
    join_path_str(dir.as_str(), name.as_str())
}

/// The configuration file of the application's former name.
pub fn legacy_config_path(data_dir: &str) -> (r: String)
    ensures
        r@ == join_path(join_path(data_dir@, "vpnctrl"@), "config.json"@),
{
    let dir = join_path_str(data_dir, "vpnctrl");
    join_path_str(dir.as_str(), "config.json")
}

/// `server` and `other` agree in every field but the id.
pub open spec fn same_but_id(server: ServerConfig, other: ServerConfig) -> bool {
    other == ServerConfig { id: other.id, ..server }
}

/// Adds `server`, or replaces the server of the same id, keeping
/// everything else. The id is taken as it is.
pub fn upsert_server_entry(config: AppConfig, server: ServerConfig) -> (r: AppConfig)
    ensures
        r == (AppConfig { servers: r.servers, ..config }),
        r.servers@ == upsert(config.servers@, server),
{
    let AppConfig {
        theme,
        poll_interval_sec,
        servers,
        bastions,
        monitor_server_id,
        monitor_bastion_id,
    } = config;
    let servers = upsert_vec(servers, server);
    AppConfig { theme, poll_interval_sec, servers, bastions, monitor_server_id, monitor_bastion_id }
}

/// Adds `server`, or replaces the server of the same id. A server whose id
/// is blank is given a fresh random id first.
pub fn upsert_server(config: AppConfig, server: ServerConfig) -> (r: AppConfig)
    ensures
        r == (AppConfig { servers: r.servers, ..config }),
        trim(server.id@).len() > 0 ==> r.servers@ == upsert(config.servers@, server),
        trim(server.id@).len() == 0 ==> exists|s: ServerConfig|
            same_but_id(server, s) && is_simple_id(s.id@) && r.servers@ == upsert(
                config.servers@,
                s,
            ),
{
    let ghost orig = server;
    let mut server = server;
    let t = trim_str(server.id.as_str());
    if t.as_str().is_empty() {
        server.id = new_simple_id();
    } else {
    }
    let ghost s = server;
    let r = upsert_server_entry(config, server);
    assert(t@.len() == 0 ==> same_but_id(orig, s) && is_simple_id(s.id@) && r.servers@ == upsert(
        config.servers@,
        s,
    ));
    r
}

/// Adds `bastion`, or replaces the bastion of the same id, keeping
/// everything else. The id is taken as it is.
pub fn upsert_bastion_entry(config: AppConfig, bastion: BastionConfig) -> (r: AppConfig)
    ensures
        r == (AppConfig { bastions: r.bastions, ..config }),
        r.bastions@ == upsert(config.bastions@, bastion),
{
    let AppConfig {
        theme,
        poll_interval_sec,
        servers,
        bastions,
        monitor_server_id,
        monitor_bastion_id,
    } = config;
    let bastions = upsert_vec(bastions, bastion);
    AppConfig { theme, poll_interval_sec, servers, bastions, monitor_server_id, monitor_bastion_id }
}

/// `bastion` and `other` agree in every field but the id.
pub open spec fn bastion_same_but_id(bastion: BastionConfig, other: BastionConfig) -> bool {
    other == BastionConfig { id: other.id, ..bastion }
}

/// Adds `bastion`, or replaces the bastion of the same id. A bastion whose
/// id is blank is given a fresh random id first.
pub fn upsert_bastion(config: AppConfig, bastion: BastionConfig) -> (r: AppConfig)
    ensures
        r == (AppConfig { bastions: r.bastions, ..config }),
        trim(bastion.id@).len() > 0 ==> r.bastions@ == upsert(config.bastions@, bastion),
        trim(bastion.id@).len() == 0 ==> exists|b: BastionConfig|
            bastion_same_but_id(bastion, b) && is_simple_id(b.id@) && r.bastions@ == upsert(
                config.bastions@,
                b,
            ),
{
    let ghost orig = bastion;
    let mut bastion = bastion;
    let t = trim_str(bastion.id.as_str());
    if t.as_str().is_empty() {
        bastion.id = new_simple_id();
    } else {
    }
    let ghost b = bastion;
    let r = upsert_bastion_entry(config, bastion);
    assert(t@.len() == 0 ==> bastion_same_but_id(orig, b) && is_simple_id(b.id@) && r.bastions@
        == upsert(config.bastions@, b));
    r
}

/// Is `o` the string `id`?
pub fn opt_is(o: &Option<String>, id: &str) -> (b: bool)
    ensures
        b == (opt_view(*o) == Some(id@)),
{
    match o {
        Some(s) => str_eq(s.as_str(), id),
        None => false,
    }
}

/// Removes the servers of id `server_id`, and the monitor choice when it
/// named that server.
pub fn delete_server(config: AppConfig, server_id: &str) -> (r: AppConfig)
    ensures
        r.servers@ == remove_key(config.servers@, server_id@),
        r.monitor_server_id == (if opt_view(config.monitor_server_id) == Some(server_id@) {
            None
        } else {
            config.monitor_server_id
        }),
        r == (AppConfig { servers: r.servers, monitor_server_id: r.monitor_server_id, ..config }),
{
    let AppConfig {
        theme,
        poll_interval_sec,
        servers,
        bastions,
        monitor_server_id,
        monitor_bastion_id,
    } = config;
    let servers = remove_key_vec(servers, server_id);
    let monitor_server_id = if opt_is(&monitor_server_id, server_id) {
        None
    } else {
        monitor_server_id
    };
    AppConfig { theme, poll_interval_sec, servers, bastions, monitor_server_id, monitor_bastion_id }
}

/// Removes the bastions of id `bastion_id`, and the monitor choice when it
/// named that bastion.
pub fn delete_bastion(config: AppConfig, bastion_id: &str) -> (r: AppConfig)
    ensures
        r.bastions@ == remove_key(config.bastions@, bastion_id@),
        r.monitor_bastion_id == (if opt_view(config.monitor_bastion_id) == Some(bastion_id@) {
            None
        } else {
            config.monitor_bastion_id
        }),
        r == (AppConfig { bastions: r.bastions, monitor_bastion_id: r.monitor_bastion_id, ..config }),
{
    let AppConfig {
        theme,
        poll_interval_sec,
        servers,
        bastions,
        monitor_server_id,
        monitor_bastion_id,
    } = config;
    let bastions = remove_key_vec(bastions, bastion_id);
    let monitor_bastion_id = if opt_is(&monitor_bastion_id, bastion_id) {
        None
    } else {
        monitor_bastion_id
    };
    AppConfig { theme, poll_interval_sec, servers, bastions, monitor_server_id, monitor_bastion_id }
}

/// `seconds.clamp(2, 120)`.
pub open spec fn clamp_poll_interval(seconds: u64) -> u64 {
    if seconds < 2 {
        2
    } else if seconds > 120 {
        120
    } else {
        seconds
    }
}

/// Sets the poll interval, held between 2 and 120 seconds.
pub fn set_poll_interval(config: AppConfig, seconds: u64) -> (r: AppConfig)
    ensures
        r == (AppConfig { poll_interval_sec: clamp_poll_interval(seconds), ..config }),
        2 <= r.poll_interval_sec <= 120,
{
    let mut config = config;
    config.poll_interval_sec = if seconds < 2 {
        2
    } else if seconds > 120 {
        120
    } else {
        seconds
    };
    config
}

/// The themes the application knows.
pub open spec fn is_known_theme(theme: Seq<char>) -> bool {
    ||| theme == "dark"@
    ||| theme == "purple-dark"@
    ||| theme == "green-dark"@
    ||| theme == "full-dark"@
    ||| theme == "system"@
    ||| theme == "contrast"@
}

/// Sets the theme; a theme the application does not know is refused.
pub fn set_theme(config: AppConfig, theme: String) -> (r: Result<AppConfig, ConfigError>)
    ensures
        is_known_theme(theme@) ==> r == Ok::<AppConfig, ConfigError>(
            AppConfig { theme: theme, ..config },
        ),
        !is_known_theme(theme@) ==> r == Err::<AppConfig, ConfigError>(
            ConfigError::UnknownTheme(theme),
        ),
{
    let t = theme.as_str();
    let known = str_eq(t, "dark") || str_eq(t, "purple-dark") || str_eq(t, "green-dark") || str_eq(
        t,
        "full-dark",
    ) || str_eq(t, "system") || str_eq(t, "contrast");
    if known {
        let mut config = config;
        config.theme = theme;
        Ok(config)
    } else {
        Err(ConfigError::UnknownTheme(theme))
    }
}

/// An optional id as the monitor settings take it: trimmed, and absent when
/// blank.
pub open spec fn clean_id(o: Option<String>) -> Option<Seq<char>> {
    match o {
        Some(s) => if trim(s@).len() > 0 {
            Some(trim(s@))
        } else {
            None
        },
        None => None,
    }
}

pub fn clean_id_exec(o: Option<String>) -> (r: Option<String>)
    ensures
        opt_view(r) == clean_id(o),
{
    match o {
        Some(s) => {
            let t = trim_str(s.as_str());
            if !t.as_str().is_empty() {
                Some(t)
            } else {
                None
            }
        },
        None => None,
    }
}

/// `clean_id` of an optional string held by reference.
pub fn clean_opt(o: &Option<String>) -> (r: Option<String>)
    ensures
        opt_view(r) == clean_id(*o),
{
    match o {
        Some(s) => {
            let t = trim_str(s.as_str());
            if !t.as_str().is_empty() {
                Some(t)
            } else {
                None
            }
        },
        None => None,
    }
}

/// What choosing the monitor's host gives: an error when both a server and
/// a bastion are named, or when the named one is not in the configuration;
/// else the configuration with the two choices set, blank ones as none.
pub open spec fn monitor_target_outcome(
    config: AppConfig,
    server_id: Option<String>,
    bastion_id: Option<String>,
    r: Result<AppConfig, ConfigError>,
) -> bool {
    let s = clean_id(server_id);
    let b = clean_id(bastion_id);
    if s is Some && b is Some {
        r matches Err(ConfigError::BothMonitorTargets)
    } else if s is Some && !has_key(config.servers@, s->0) {
        r matches Err(ConfigError::MonitorServerNotFound(m)) && m@ == s->0
    } else if b is Some && !has_key(config.bastions@, b->0) {
        r matches Err(ConfigError::MonitorBastionNotFound(m)) && m@ == b->0
    } else {
        r matches Ok(c) && c == (AppConfig {
            monitor_server_id: c.monitor_server_id,
            monitor_bastion_id: c.monitor_bastion_id,
            ..config
        }) && opt_view(c.monitor_server_id) == s && opt_view(c.monitor_bastion_id) == b
    }
}

/// Chooses what the monitor runs on: a server, a bastion, or nothing. Ids
/// are trimmed and blank ones ignored; naming both, or an id that the
/// configuration does not hold, is refused.
pub fn set_monitor_target(
    config: AppConfig,
    server_id: Option<String>,
    bastion_id: Option<String>,
) -> (r: Result<AppConfig, ConfigError>)
    ensures
        monitor_target_outcome(config, server_id, bastion_id, r),
{
    let server_id = clean_id_exec(server_id);
    let bastion_id = clean_id_exec(bastion_id);
    if server_id.is_some() && bastion_id.is_some() {
        return Err(ConfigError::BothMonitorTargets);
    }
    if let Some(id) = &server_id {
        if !contains_key(&config.servers, id.as_str()) {
            return Err(ConfigError::MonitorServerNotFound(id.clone()));
        }
    }
    if let Some(id) = &bastion_id {
        if !contains_key(&config.bastions, id.as_str()) {
            return Err(ConfigError::MonitorBastionNotFound(id.clone()));
        }
    }
    let mut config = config;
    config.monitor_server_id = server_id;
    config.monitor_bastion_id = bastion_id;
    Ok(config)
}

/// Chooses a server for the monitor, or none.
pub fn set_monitor_server(config: AppConfig, server_id: Option<String>) -> (r: Result<
    AppConfig,
    ConfigError,
>)
    ensures
        ({
            let s = clean_id(server_id);
            if s is Some && !has_key(config.servers@, s->0) {
                r matches Err(ConfigError::MonitorServerNotFound(m)) && m@ == s->0
            } else {
                r matches Ok(c) && c == (AppConfig {
                    monitor_server_id: c.monitor_server_id,
                    monitor_bastion_id: None,
                    ..config
                }) && opt_view(c.monitor_server_id) == s
            }
        }),
{
    set_monitor_target(config, server_id, None)
}

/// The server of id `server_id`.
pub fn find_server(config: &AppConfig, server_id: &str) -> (r: Result<ServerConfig, ConfigError>)
    ensures
        match r {
            Ok(s) => lookup(config.servers@, server_id@) == Some(s),
            Err(e) => lookup(config.servers@, server_id@) is None && (e matches ConfigError::ServerNotFound(m)
                && m@ == server_id@),
        },
{
    match find_index(&config.servers, server_id) {
        Some(i) => {
            proof {
                lemma_lookup_first(config.servers@, server_id@, i as int);
            }
            Ok(config.servers[i].duplicate())
        },
        None => {
            proof {
                lemma_lookup_none(config.servers@, server_id@);
            }
            Err(ConfigError::ServerNotFound(copy_str(server_id)))
        },
    }
}

/// The bastion of id `bastion_id`, if there is one.
pub fn find_bastion(config: &AppConfig, bastion_id: &str) -> (r: Option<BastionConfig>)
    ensures
        r == lookup(config.bastions@, bastion_id@),
{
    match find_index(&config.bastions, bastion_id) {
        Some(i) => {
            proof {
                lemma_lookup_first(config.bastions@, bastion_id@, i as int);
            }
            Some(config.bastions[i].duplicate())
        },
        None => {
            proof {
                lemma_lookup_none(config.bastions@, bastion_id@);
            }
            None
        },
    }
}

/// The message the application shows for a configuration error.
pub open spec fn config_error_text(e: ConfigError) -> Seq<char> {
    match e {
        ConfigError::UnknownTheme(t) => "unknown theme '"@ + t@
            + "', allowed: dark, purple-dark, green-dark, full-dark, system, contrast"@,
        ConfigError::BothMonitorTargets => "monitor target must be either server or bastion"@,
        ConfigError::MonitorServerNotFound(id) => "monitor server '"@ + id@ + "' was not found"@,
        ConfigError::MonitorBastionNotFound(id) => "monitor bastion '"@ + id@ + "' was not found"@,
        ConfigError::ServerNotFound(id) => "server '"@ + id@ + "' was not found"@,
    }
}

impl ConfigError {
    /// The message the application shows for the error.
    pub fn message(&self) -> (m: String)
        ensures
            m@ == config_error_text(*self),
    {
        match self {
            ConfigError::UnknownTheme(t) => {
                let mut m = copy_str("unknown theme '");
                push_str(&mut m, t.as_str());
                push_str(
                    &mut m,
                    "', allowed: dark, purple-dark, green-dark, full-dark, system, contrast",
                );
                m
            },
            ConfigError::BothMonitorTargets => copy_str(
                "monitor target must be either server or bastion",
            ),
            ConfigError::MonitorServerNotFound(id) => {
                let mut m = copy_str("monitor server '");
                push_str(&mut m, id.as_str());
                push_str(&mut m, "' was not found");
                m
            },
            ConfigError::MonitorBastionNotFound(id) => {
                let mut m = copy_str("monitor bastion '");
                push_str(&mut m, id.as_str());
                push_str(&mut m, "' was not found");
                m
            },
            ConfigError::ServerNotFound(id) => {
                let mut m = copy_str("server '");
                push_str(&mut m, id.as_str());
                push_str(&mut m, "' was not found");
                m
            },
        }
    }
}

} // verus!
