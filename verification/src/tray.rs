//! The menu of the status-bar icon: its entries, one per server between
//! `Show NodeNet` and `Quit`, and what choosing an entry does. Drawing the
//! menu is the caller's part.
use vstd::prelude::*;
use crate::config::ServerConfig;
use crate::text::{chars_of, copy_str, push_str, starts_with, starts_with_str, str_eq};

verus! {

/// A menu entry: its id and its label. `None` stands for a separator.
pub type TrayEntry = Option<(String, String)>;

pub open spec fn entry_view(e: TrayEntry) -> Option<(Seq<char>, Seq<char>)> {
    match e {
        Some((id, label)) => Some((id@, label@)),
        None => None,
    }
}

/// The entry of a server: id `server-` and the server's id, label `* ` and
/// its name.
pub open spec fn server_entry(s: ServerConfig) -> Option<(Seq<char>, Seq<char>)> {
    Some(("server-"@ + s.id@, "* "@ + s.name@))
}

/// The menu: `Show NodeNet`, a separator, the servers in order, a
/// separator, `Quit`.
pub open spec fn tray_menu(servers: Seq<ServerConfig>) -> Seq<Option<(Seq<char>, Seq<char>)>> {
    seq![Some(("show"@, "Show NodeNet"@)), None] + servers.map_values(|s: ServerConfig| server_entry(s))
        + seq![None, Some(("quit"@, "Quit"@))]
}

fn entry(id: String, label: String) -> (r: TrayEntry)
    ensures
        entry_view(r) == Some((id@, label@)),
{
    Some((id, label))
}

pub fn tray_entries(servers: &Vec<ServerConfig>) -> (r: Vec<TrayEntry>)
    ensures
        r@.map_values(|e: TrayEntry| entry_view(e)) == tray_menu(servers@),
{
    let mut r: Vec<TrayEntry> = Vec::new();
    r.push(entry(copy_str("show"), copy_str("Show NodeNet")));
    r.push(None);
    let mut i: usize = 0;
    while i < servers.len()
        invariant
            i <= servers@.len(),
            r@.map_values(|e: TrayEntry| entry_view(e)) == seq![Some(("show"@, "Show NodeNet"@)), None]
                + servers@.subrange(0, i as int).map_values(|s: ServerConfig| server_entry(s)),
        decreases servers.len() - i,
    {
        let mut id = copy_str("server-");
        push_str(&mut id, servers[i].id.as_str());
        let mut label = copy_str("* ");
        push_str(&mut label, servers[i].name.as_str());
        let ghost before = r@.map_values(|e: TrayEntry| entry_view(e));
        r.push(entry(id, label));
        assert(servers@.subrange(0, i + 1).map_values(|s: ServerConfig| server_entry(s))
            =~= servers@.subrange(0, i as int).map_values(|s: ServerConfig| server_entry(s)).push(
            server_entry(servers@[i as int]),
        ));
        assert(r@.map_values(|e: TrayEntry| entry_view(e)) =~= before.push(server_entry(servers@[i as int])));
        i = i + 1;
    }
    assert(servers@.subrange(0, servers@.len() as int) =~= servers@);
    r.push(None);
    r.push(entry(copy_str("quit"), copy_str("Quit")));
    assert(r@.map_values(|e: TrayEntry| entry_view(e)) =~= tray_menu(servers@));
    r
}

/// What choosing a menu entry does.
#[derive(Clone, Copy, Debug, PartialEq, Eq, Structural)]
pub enum TrayAction {
    /// Show the main window and bring it to the front.
    ShowWindow,
    /// Quit the application.
    Quit,
    /// Nothing.
    Ignore,
}

pub open spec fn tray_action_spec(id: Seq<char>) -> TrayAction {
    if id == "show"@ {
        TrayAction::ShowWindow
    } else if id == "quit"@ {
        TrayAction::Quit
    } else if starts_with(id, "server-"@) {
        TrayAction::ShowWindow
    } else {
        TrayAction::Ignore
    }
}

/// The action of the entry with id `id`: a server's entry shows the window
/// as `Show NodeNet` does.
pub fn tray_action(id: &str) -> (r: TrayAction)
    ensures
        r == tray_action_spec(id@),
{
    if str_eq(id, "show") {
        TrayAction::ShowWindow
    } else if str_eq(id, "quit") {
        TrayAction::Quit
    } else if starts_with_str(&chars_of(id), "server-") {
        TrayAction::ShowWindow
    } else {
        TrayAction::Ignore
    }
}

} // verus!
