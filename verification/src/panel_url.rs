//! The panel's address: the configured URL normalized to the panel's base,
//! and the address of the local end of a tunnel to it; and the certificate
//! files the panel's inbounds name. URLs are parsed and written by the `url`
//! crate, which `reqwest` re-exports.
use vstd::prelude::*;
use crate::config::opt_view;
use crate::text::{
    chars_of, copy_str, push_str, starts_with, starts_with_str, str_eq, strip_suffixes, string_views,
    trim, trim_end_matches_str, trim_str,
};
use crate::three_x_ui::{key_le, key_le_exec, panel_base_path, panel_base_path_spec};

verus! {

/// The path of a URL as `Url::parse` reads it; none when it does not
/// parse.
pub uninterp spec fn url_path_of(text: Seq<char>) -> Option<Seq<char>>;

/// The URL with its path set to `path` and its query and fragment removed,
/// as `Url` writes it; none when `text` does not parse.
pub uninterp spec fn url_with_path(text: Seq<char>, path: Seq<char>) -> Option<Seq<char>>;

/// `Url::parse(text)` and its `path()`.
#[verifier::external_body]
fn parsed_url_path(text: &str) -> (r: Option<String>)
    ensures
        opt_view(r) == url_path_of(text@),
{
    match reqwest::Url::parse(text) {
        Ok(u) => Some(u.path().to_string()),
        Err(_) => None,
    }
}

/// `Url::parse(text)`, then `set_path(path)`, `set_query(None)`,
/// `set_fragment(None)` and `to_string()`. Whether it gives a URL depends
/// on the parse alone, as in `parsed_url_path`.
#[verifier::external_body]
fn rebuilt_url(text: &str, path: &str) -> (r: Option<String>)
    ensures
        opt_view(r) == url_with_path(text@, path@),
        r is Some <==> url_path_of(text@) is Some,
{
    match reqwest::Url::parse(text) {
        Ok(mut u) => {
            u.set_path(path);
            u.set_query(None);
            u.set_fragment(None);
            Some(u.to_string())
        },
        Err(_) => None,
    }
}

/// The configured panel URL trimmed, trailing `/` removed, and `https://`
/// put before it when it names no scheme.
pub open spec fn panel_url_text(url: Seq<char>) -> Seq<char> {
    let t = strip_suffixes(trim(url), "/"@);
    if starts_with(t, "http://"@) || starts_with(t, "https://"@) {
        t
    } else {
        "https://"@ + t
    }
}

/// The panel's base URL: the configured URL with its path cut back to the
/// panel's base path, without query or fragment or a trailing `/`. A blank
/// URL and one that does not parse are errors.
pub open spec fn normalized_panel_url(url: Seq<char>) -> Result<Seq<char>, Seq<char>> {
    if strip_suffixes(trim(url), "/"@).len() == 0 {
        Err("panelUrl is empty"@)
    } else {
        let text = panel_url_text(url);
        match url_path_of(text) {
            None => Err("panelUrl is invalid"@),
            Some(path) => match url_with_path(text, panel_base_path_spec(path)) {
                Some(u) => Ok(strip_suffixes(u, "/"@)),
                None => Err("panelUrl is invalid"@),
            },
        }
    }
}

pub fn normalize_panel_url(url: &str) -> (r: Result<String, String>)
    ensures
        match r {
            Ok(u) => normalized_panel_url(url@) == Ok::<Seq<char>, Seq<char>>(u@),
            Err(e) => normalized_panel_url(url@) == Err::<Seq<char>, Seq<char>>(e@),
        },
{
    let t0 = trim_str(url);
    let t = trim_end_matches_str(t0.as_str(), "/");
    if t.as_str().is_empty() {
        return Err(copy_str("panelUrl is empty"));
    }
    let tv = chars_of(t.as_str());
    let text = if starts_with_str(&tv, "http://") || starts_with_str(&tv, "https://") {
        t
    } else {
        let mut s = copy_str("https://");
        push_str(&mut s, t.as_str());
        s
    };
    let path = match parsed_url_path(text.as_str()) {
        Some(p) => p,
        None => {
            return Err(copy_str("panelUrl is invalid"));
        },
    };
    let base = panel_base_path(path.as_str());
    match rebuilt_url(text.as_str(), base.as_str()) {
        Some(u) => Ok(trim_end_matches_str(u.as_str(), "/")),
        None => Err(copy_str("panelUrl is invalid")),
    }
}

/// Why the address of a tunnel's local end could not be made.
#[derive(Clone, Copy, Debug, PartialEq, Eq, Structural)]
pub enum LocalUrlError {
    /// The panel URL does not parse, or takes no host.
    InvalidUrl,
    /// The panel URL takes no port.
    InvalidPort,
}

impl LocalUrlError {
    pub fn message(&self) -> (m: String)
        ensures
            m@ == match *self {
                LocalUrlError::InvalidUrl => "Bastion tunnel failed: invalid local panel URL"@,
                LocalUrlError::InvalidPort => "Bastion tunnel failed: invalid local panel port"@,
            },
    {
        match self {
            LocalUrlError::InvalidUrl => copy_str("Bastion tunnel failed: invalid local panel URL"),
            LocalUrlError::InvalidPort => copy_str("Bastion tunnel failed: invalid local panel port"),
        }
    }
}

/// The panel URL with host `127.0.0.1` and the given port, as `Url` writes
/// it, or which of the two settings `Url` refused.
pub uninterp spec fn url_on_local_port(text: Seq<char>, port: u16) -> Result<Seq<char>, LocalUrlError>;

/// `Url::parse(text)`, `set_host(Some("127.0.0.1"))`,
/// `set_port(Some(port))` and `to_string()`.
#[verifier::external_body]
fn local_url(text: &str, port: u16) -> (r: Result<String, LocalUrlError>)
    ensures
        match r {
            Ok(u) => url_on_local_port(text@, port) == Ok::<Seq<char>, LocalUrlError>(u@),
            Err(e) => url_on_local_port(text@, port) == Err::<Seq<char>, LocalUrlError>(e),
        },
{
    let mut u = match reqwest::Url::parse(text) {
        Ok(u) => u,
        Err(_) => return Err(LocalUrlError::InvalidUrl),
    };
    if u.set_host(Some("127.0.0.1")).is_err() {
        return Err(LocalUrlError::InvalidUrl);
    }
    if u.set_port(Some(port)).is_err() {
        return Err(LocalUrlError::InvalidPort);
    }
    Ok(u.to_string())
}

/// The address the panel is reached at through a tunnel's local end,
/// without a trailing `/`.
pub fn local_tunnel_url(panel_url: &str, local_port: u16) -> (r: Result<String, LocalUrlError>)
    ensures
        match url_on_local_port(panel_url@, local_port) {
            Ok(u) => r matches Ok(s) && s@ == strip_suffixes(u, "/"@),
            Err(e) => r == Err::<String, LocalUrlError>(e),
        },
{
    match local_url(panel_url, local_port) {
        Ok(u) => Ok(trim_end_matches_str(u.as_str(), "/")),
        Err(e) => Err(e),
    }
}

// ---------------------------------------------------------------------
// Certificate files named by the inbounds
// ---------------------------------------------------------------------

/// The non-blank file names, trimmed, in order.
pub open spec fn cert_files(files: Seq<Option<String>>) -> Seq<Seq<char>>
    decreases files.len(),
{
    if files.len() == 0 {
        seq![]
    } else {
        let rest = cert_files(files.drop_last());
        match files.last() {
            Some(f) => if trim(f@).len() > 0 {
                rest.push(trim(f@))
            } else {
                rest
            },
            None => rest,
        }
    }
}

/// Inserts `x` after every name that sorts no later: one step of an
/// insertion sort.
pub open spec fn insert_name(s: Seq<Seq<char>>, x: Seq<char>) -> Seq<Seq<char>>
    decreases s.len(),
{
    if s.len() == 0 {
        seq![x]
    } else if key_le(s.last(), x) {
        s.push(x)
    } else {
        insert_name(s.drop_last(), x).push(s.last())
    }
}

/// The names sorted, as `sort` leaves them.
pub open spec fn sort_names(s: Seq<Seq<char>>) -> Seq<Seq<char>>
    decreases s.len(),
{
    if s.len() == 0 {
        seq![]
    } else {
        insert_name(sort_names(s.drop_last()), s.last())
    }
}

/// The names with each run of equal names kept once, as `dedup` leaves
/// them.
pub open spec fn dedup_names(s: Seq<Seq<char>>) -> Seq<Seq<char>>
    decreases s.len(),
{
    if s.len() < 2 {
        s
    } else if s.last() == s[s.len() - 2] {
        dedup_names(s.drop_last())
    } else {
        dedup_names(s.drop_last()).push(s.last())
    }
}

proof fn lemma_insert_name_at(s: Seq<Seq<char>>, x: Seq<char>, j: int)
    requires
        0 <= j <= s.len(),
        forall|k: int| j <= k < s.len() ==> !key_le(#[trigger] s[k], x),
        j == 0 || key_le(s[j - 1], x),
    ensures
        insert_name(s, x) == s.insert(j, x),
    decreases s.len() - j,
{
    if s.len() == 0 {
        assert(s.insert(0, x) =~= seq![x]);
    } else if j == s.len() {
        assert(s.insert(j, x) =~= s.push(x));
    } else {
        let t = s.drop_last();
        assert(!key_le(s.last(), x));
        assert forall|k: int| j <= k < t.len() implies !key_le(#[trigger] t[k], x) by {
            assert(t[k] == s[k]);
        }
        if j > 0 {
            assert(t[j - 1] == s[j - 1]);
        }
        lemma_insert_name_at(t, x, j);
        assert(t.insert(j, x).push(s.last()) =~= s.insert(j, x));
    }
}

proof fn lemma_dedup_last(s: Seq<Seq<char>>)
    requires
        s.len() >= 1,
    ensures
        dedup_names(s).len() >= 1,
        dedup_names(s).last() == s.last(),
    decreases s.len(),
{
    if s.len() >= 2 {
        lemma_dedup_last(s.drop_last());
    }
}

/// The certificate files the panel's inbounds name (each inbound's TLS
/// then XTLS certificates, in order): sorted, each kept once.
pub fn certificate_paths(files: &Vec<Option<String>>) -> (r: Vec<String>)
    ensures
        string_views(r@) == dedup_names(sort_names(cert_files(files@))),
{
    let mut names: Vec<Vec<char>> = Vec::new();
    let mut i: usize = 0;
    while i < files.len()
        invariant
            i <= files@.len(),
            names@.map_values(|v: Vec<char>| v@) == sort_names(cert_files(files@.subrange(0, i as int))),
        decreases files.len() - i,
    {
        let ghost now = files@.subrange(0, i + 1);
        let ghost pre = files@.subrange(0, i as int);
        assert(now.drop_last() =~= pre);
        assert(now.last() == files@[i as int]);
        match &files[i] {
            Some(f) => {
                let t = trim_str(f.as_str());
                if !t.as_str().is_empty() {
                    let x = chars_of(t.as_str());
                    let mut j = names.len();
                    while j > 0 && !key_le_exec(&names[j - 1], &x)
                        invariant
                            j <= names@.len(),
                            forall|k: int| j <= k < names@.len() ==> !key_le((#[trigger] names@[k])@, x@),
                        decreases j,
                    {
                        j = j - 1;
                    }
                    let ghost before = names@.map_values(|v: Vec<char>| v@);
                    proof {
                        assert forall|k: int| j <= k < before.len() implies !key_le(#[trigger] before[k], x@) by {
                            assert(before[k] == names@[k]@);
                        }
                        if j > 0 {
                            assert(before[j - 1] == names@[j - 1]@);
                        }
                        lemma_insert_name_at(before, x@, j as int);
                    }
                    names.insert(j, x);
                    assert(names@.map_values(|v: Vec<char>| v@) =~= before.insert(j as int, t@));
                    assert(cert_files(now) == cert_files(pre).push(t@));
                    assert(cert_files(now).drop_last() =~= cert_files(pre));
                    assert(cert_files(now).last() == t@);
                } else {
                    assert(cert_files(now) == cert_files(pre));
                }
            },
            None => {
                assert(cert_files(now) == cert_files(pre));
            },
        }
        i = i + 1;
    }
    assert(files@.subrange(0, files@.len() as int) =~= files@);
    let ghost sorted = names@.map_values(|v: Vec<char>| v@);
    let mut out: Vec<String> = Vec::new();
    let mut k: usize = 0;
    while k < names.len()
        invariant
            sorted == names@.map_values(|v: Vec<char>| v@),
            k <= names@.len(),
            string_views(out@) == dedup_names(sorted.subrange(0, k as int)),
        decreases names.len() - k,
    {
        let ghost pre = sorted.subrange(0, k as int);
        let ghost now = sorted.subrange(0, k + 1);
        assert(now.drop_last() =~= pre);
        assert(now.last() == names@[k as int]@);
        let keep = if k == 0 {
            true
        } else {
            assert(now[now.len() - 2] == names@[k - 1]@);
            !crate::text::seq_eq(&names[k - 1], &names[k])
        };
        if keep {
            let ghost o0 = string_views(out@);
            out.push(crate::text::string_of(&names[k]));
            assert(string_views(out@) =~= o0.push(names@[k as int]@));
        }
        k = k + 1;
    }
    assert(sorted.subrange(0, sorted.len() as int) =~= sorted);
    out
}

} // verus!
