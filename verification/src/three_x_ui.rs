//! The rules of the application's dealings with a 3x-ui panel: addresses,
//! cache keys, login handling, client links and status, the Xray routing
//! rule it pins, and the CSV export. The HTTP exchanges are the caller's
//! part.
use vstd::prelude::*;
use crate::config::{opt_view, ServerConfig};
use crate::monitor::{json_quote, json_quoted};
use crate::terminal::{base64_text, encode_base64};
use vstd::string::StrSliceExecFns;
use crate::text::{
    all_digits, chars_of, contains, contains_seq, contains_str, copy_str, decimal, ends_with,
    ends_with_str, escape, find_char, find_seq, has_char, is_alnum, is_alnum_exec, is_first_char,
    is_first_occurrence, lower_seq, lower_vec, occurs_at, push_char, push_decimal, push_escaped,
    push_str, set_pred, str_eq, string_of_range, strip_end, trim, trim_str, CharSet, Escape,
};

verus! {

/// The base path of a panel address: the path before its `/panel`
/// component, when it has one, without trailing slashes.
pub open spec fn panel_base_path_spec(path: Seq<char>) -> Seq<char> {
    let slash = set_pred(CharSet::One('/'));
    if contains(path, "/panel/"@) {
        let i = choose|i: int| is_first_occurrence(path, "/panel/"@, i);
        strip_end(path.subrange(0, i), slash)
    } else if ends_with(path, "/panel"@) {
        strip_end(path.subrange(0, path.len() - "/panel"@.len()), slash)
    } else {
        strip_end(path, slash)
    }
}

pub proof fn lemma_first_occurrence_unique(s: Seq<char>, p: Seq<char>, i: int, j: int)
    requires
        is_first_occurrence(s, p, i),
        is_first_occurrence(s, p, j),
    ensures
        i == j,
{
    if i < j {
        assert(!occurs_at(s, p, i));
    } else if j < i {
        assert(!occurs_at(s, p, j));
    }
}

/// `s[0..to]` without trailing slashes.
fn strip_trailing_slashes(v: &Vec<char>, to: usize) -> (r: String)
    requires
        to <= v@.len(),
    ensures
        r@ == strip_end(v@.subrange(0, to as int), set_pred(CharSet::One('/'))),
{
    let mut hi = to;
    while hi > 0 && v[hi - 1] == '/'
        invariant
            hi <= to <= v@.len(),
            forall|k: int| hi <= k < to ==> v@[k] == '/',
        decreases hi,
    {
        hi = hi - 1;
    }
    proof {
        let t = v@.subrange(0, to as int);
        assert forall|k: int| hi <= k < t.len() implies set_pred(CharSet::One('/'))(
            #[trigger] t[k],
        ) by {
            assert(t[k] == v@[k]);
        }
        crate::text::lemma_strip_end_at(t, set_pred(CharSet::One('/')), hi as int);
        assert(t.subrange(0, hi as int) =~= v@.subrange(0, hi as int));
    }
    string_of_range(v, 0, hi)
}

pub fn panel_base_path(path: &str) -> (r: String)
    ensures
        r@ == panel_base_path_spec(path@),
{
    let v = chars_of(path);
    let marker = chars_of("/panel/");
    match find_seq(&v, &marker) {
        Some(i) => {
            proof {
                let k = choose|k: int| is_first_occurrence(path@, "/panel/"@, k);
                lemma_first_occurrence_unique(path@, "/panel/"@, i as int, k);
            }
            return strip_trailing_slashes(&v, i);
        },
        None => {},
    }
    let tail = chars_of("/panel");
    if tail.len() <= v.len() && ends_with_str(&v, "/panel") {
        return strip_trailing_slashes(&v, v.len() - tail.len());
    }
    let r = strip_trailing_slashes(&v, v.len());
    assert(v@.subrange(0, v@.len() as int) =~= v@);
    r
}

/// Where the token of a `csrf-token` meta tag starts, and the quote that
/// closes it, for the four ways of quoting the tag, tried in turn.
pub open spec fn csrf_marker(i: int) -> (Seq<char>, char) {
    if i == 0 {
        ("name=\"csrf-token\" content=\""@, '"')
    } else if i == 1 {
        ("name=\"csrf-token\" content='"@, '\'')
    } else if i == 2 {
        ("name='csrf-token' content=\""@, '"')
    } else {
        ("name='csrf-token' content='"@, '\'')
    }
}

/// The first of the four markers that occurs in the page.
pub open spec fn csrf_marker_index(html: Seq<char>) -> Option<int> {
    if contains(html, csrf_marker(0).0) {
        Some(0)
    } else if contains(html, csrf_marker(1).0) {
        Some(1)
    } else if contains(html, csrf_marker(2).0) {
        Some(2)
    } else if contains(html, csrf_marker(3).0) {
        Some(3)
    } else {
        None
    }
}

/// The CSRF token of a login page: what follows the first occurrence of the
/// first marker found, up to its closing quote, trimmed; none when there is
/// no marker, no closing quote, or the token is blank.
pub open spec fn csrf_token_spec(html: Seq<char>) -> Option<Seq<char>> {
    match csrf_marker_index(html) {
        None => None,
        Some(m) => {
            let (marker, quote) = csrf_marker(m);
            let pos = choose|p: int| is_first_occurrence(html, marker, p);
            let start = pos + marker.len();
            let rest = html.subrange(start, html.len() as int);
            if has_char(rest, quote) {
                let end = choose|e: int| is_first_char(rest, quote, e);
                let token = trim(rest.subrange(0, end));
                if token.len() > 0 {
                    Some(token)
                } else {
                    None
                }
            } else {
                None
            }
        },
    }
}

fn csrf_marker_exec(i: u8) -> (r: (&'static str, char))
    requires
        i < 4,
    ensures
        r.0@ == csrf_marker(i as int).0,
        r.1 == csrf_marker(i as int).1,
{
    if i == 0 {
        ("name=\"csrf-token\" content=\"", '"')
    } else if i == 1 {
        ("name=\"csrf-token\" content='", '\'')
    } else if i == 2 {
        ("name='csrf-token' content=\"", '"')
    } else {
        ("name='csrf-token' content='", '\'')
    }
}

pub fn csrf_token_from_html(html: &str) -> (r: Option<String>)
    ensures
        opt_view(r) == csrf_token_spec(html@),
{
    let v = chars_of(html);
    let mut m: u8 = 0;
    let mut found: Option<usize> = None;
    while m < 4 && found.is_none()
        invariant
            m <= 4,
            found is None ==> forall|k: int| 0 <= k < m ==> !contains(html@, csrf_marker(k).0),
            found is Some ==> m < 4 && csrf_marker_index(html@) == Some(m as int)
                && is_first_occurrence(html@, csrf_marker(m as int).0, found->0 as int),
            v@ == html@,
        decreases 4 - m + (if found is None { 1int } else { 0int }),
    {
        let (marker, _) = csrf_marker_exec(m);
        let mv = chars_of(marker);
        match find_seq(&v, &mv) {
            Some(p) => {
                found = Some(p);
            },
            None => {
                m = m + 1;
            },
        }
    }
    let pos = match found {
        Some(p) => p,
        None => {
            return None;
        },
    };
    let (marker, quote) = csrf_marker_exec(m);
    let mv = chars_of(marker);
    proof {
        let k = choose|p: int| is_first_occurrence(html@, csrf_marker(m as int).0, p);
        lemma_first_occurrence_unique(html@, csrf_marker(m as int).0, pos as int, k);
    }
    let n = v.len();
    assert(pos + mv@.len() <= n);
    let start = pos + mv.len();
    let rest_s = string_of_range(&v, start, v.len());
    let rest = chars_of(rest_s.as_str());
    match find_char(&rest, quote) {
        Some(e) => {
            proof {
                let k = choose|k: int| is_first_char(rest@, quote, k);
                crate::text::lemma_first_char_unique(rest@, quote, e as int, k);
            }
            let raw = string_of_range(&rest, 0, e);
            let token = trim_str(raw.as_str());
            if token.as_str().is_empty() {
                None
            } else {
                Some(token)
            }
        },
        None => None,
    }
}

/// The last component of a path, as `Path::file_name` gives it: none when
/// the path has no component, or ends in `..`.
pub open spec fn file_name_spec(path: Seq<char>) -> Option<Seq<char>> {
    let comps = path_components(path);
    if comps.len() == 0 || comps.last() == ".."@ {
        None
    } else {
        Some(comps.last())
    }
}

/// The components of a path that name something: the parts between
/// slashes, without empty parts and `.`.
pub open spec fn path_components(path: Seq<char>) -> Seq<Seq<char>>
    decreases path.len(),
{
    path_components_from(path, 0, seq![])
}

pub open spec fn push_component(comps: Seq<Seq<char>>, cur: Seq<char>) -> Seq<Seq<char>> {
    if cur.len() == 0 || cur == "."@ {
        comps
    } else {
        comps.push(cur)
    }
}

pub open spec fn path_components_from(path: Seq<char>, i: int, cur: Seq<char>) -> Seq<Seq<char>>
    decreases path.len() - i,
{
    if i >= path.len() {
        push_component(seq![], cur)
    } else if path[i] == '/' {
        push_component(seq![], cur) + path_components_from(path, i + 1, seq![])
    } else {
        path_components_from(path, i + 1, cur.push(path[i]))
    }
}


pub fn file_name(path: &str) -> (r: Option<String>)
    ensures
        opt_view(r) == file_name_spec(path@),
{
    let v = chars_of(path);
    let mut comps: Vec<Vec<char>> = Vec::new();
    let mut cur: Vec<char> = Vec::new();
    let mut i: usize = 0;
    let dot = chars_of(".");
    while i < v.len()
        invariant
            v@ == path@,
            dot@ == "."@,
            i <= v@.len(),
            crate::text::views(comps@) + path_components_from(v@, i as int, cur@)
                == path_components(v@),
        decreases v.len() - i,
    {
        if v[i] == '/' {
            let ghost c0 = crate::text::views(comps@);
            let ghost cur0 = cur@;
            if cur.len() > 0 && !crate::text::seq_eq(&cur, &dot) {
                comps.push(cur);
                assert(crate::text::views(comps@) =~= c0.push(cur0));
                assert(push_component(seq![], cur0) =~= seq![cur0]);
            } else {
                assert(push_component(seq![], cur0) =~= Seq::<Seq<char>>::empty());
            }
            cur = Vec::new();
            assert(crate::text::views(comps@) + path_components_from(v@, i + 1, cur@)
                =~= c0 + (push_component(seq![], cur0) + path_components_from(v@, i + 1, seq![])));
        } else {
            cur.push(v[i]);
        }
        i = i + 1;
    }
    let ghost c0 = crate::text::views(comps@);
    let ghost cur0 = cur@;
    if cur.len() > 0 && !crate::text::seq_eq(&cur, &dot) {
        comps.push(cur);
        assert(crate::text::views(comps@) =~= c0.push(cur0));
        assert(push_component(seq![], cur0) =~= seq![cur0]);
    } else {
        assert(push_component(seq![], cur0) =~= Seq::<Seq<char>>::empty());
    }
    assert(crate::text::views(comps@) =~= path_components(v@));
    if comps.len() == 0 {
        return None;
    }
    let last = &comps[comps.len() - 1];
    assert(crate::text::views(comps@).last() == last@);
    let dotdot = chars_of("..");
    if crate::text::seq_eq(last, &dotdot) {
        None
    } else {
        Some(crate::text::string_of(last))
    }
}

/// Why a routing file name was refused.
#[derive(Debug, PartialEq, Eq, Structural)]
pub enum RoutingNameError {
    Empty,
    TooLong,
    NotPlain,
    BadCharacters,
    NotDat,
}

impl RoutingNameError {
    pub fn message(&self) -> (m: &'static str)
        ensures
            m@ == match self {
                RoutingNameError::Empty => "routing file name is empty"@,
                RoutingNameError::TooLong => "routing file name is too long"@,
                RoutingNameError::NotPlain => "routing file name must be a plain file name"@,
                RoutingNameError::BadCharacters =>
                    "routing file name may only contain letters, digits, dot, dash, and underscore"@,
                RoutingNameError::NotDat => "routing file must use a .dat extension"@,
            },
    {
        match self {
            RoutingNameError::Empty => "routing file name is empty",
            RoutingNameError::TooLong => "routing file name is too long",
            RoutingNameError::NotPlain => "routing file name must be a plain file name",
            RoutingNameError::BadCharacters =>
                "routing file name may only contain letters, digits, dot, dash, and underscore",
            RoutingNameError::NotDat => "routing file must use a .dat extension",
        }
    }
}

pub open spec fn is_name_char(c: char) -> bool {
    is_alnum(c) || c == '.' || c == '_' || c == '-'
}

/// The name a routing file is uploaded under: the given name, trimmed, or
/// else the local file's name.
pub open spec fn routing_name_candidate(remote: Option<Seq<char>>, local_path: Seq<char>) -> Option<
    Seq<char>,
> {
    match remote {
        Some(r) if trim(r).len() > 0 => Some(trim(r)),
        _ => file_name_spec(local_path),
    }
}

/// The checks a routing file name must pass, in order.
pub open spec fn routing_name_check(f: Seq<char>) -> Result<Seq<char>, RoutingNameError> {
    if vstd::utf8::encode_utf8(f).len() > 128 {
        Err(RoutingNameError::TooLong)
    } else if (f.len() > 0 && f[0] == '.') || has_char(f, '/') || has_char(f, '\\') {
        Err(RoutingNameError::NotPlain)
    } else if !(forall|i: int| 0 <= i < f.len() ==> is_name_char(#[trigger] f[i])) {
        Err(RoutingNameError::BadCharacters)
    } else if !ends_with(lower_seq(f), ".dat"@) {
        Err(RoutingNameError::NotDat)
    } else {
        Ok(f)
    }
}

#[verifier::loop_isolation(false)]
pub fn validate_routing_filename(remote_filename: Option<&str>, local_path: &str) -> (r: Result<
    String,
    RoutingNameError,
>)
    ensures
        match routing_name_candidate(
            match remote_filename {
                Some(x) => Some(x@),
                None => None,
            },
            local_path@,
        ) {
            None => r == Err::<String, RoutingNameError>(RoutingNameError::Empty),
            Some(f) => match routing_name_check(f) {
                Ok(g) => r matches Ok(s) && s@ == g,
                Err(e) => r == Err::<String, RoutingNameError>(e),
            },
        },
{
    let mut candidate: Option<String> = None;
    if let Some(x) = remote_filename {
        let t = trim_str(x);
        if !t.as_str().is_empty() {
            candidate = Some(t);
        }
    }
    if candidate.is_none() {
        candidate = file_name(local_path);
    }
    let f = match candidate {
        Some(f) => f,
        None => {
            return Err(RoutingNameError::Empty);
        },
    };
    if f.as_str().as_bytes().len() > 128 {
        return Err(RoutingNameError::TooLong);
    }
    let v = chars_of(f.as_str());
    if (v.len() > 0 && v[0] == '.') || find_char(&v, '/').is_some() || find_char(&v, '\\').is_some() {
        return Err(RoutingNameError::NotPlain);
    }
    let mut i: usize = 0;
    while i < v.len()
        invariant
            i <= v@.len(),
            forall|k: int| 0 <= k < i ==> is_name_char(#[trigger] v@[k]),
        decreases v.len() - i,
    {
        let c = v[i];
        if !(is_alnum_exec(c) || c == '.' || c == '_' || c == '-') {
            assert(!is_name_char(f@[i as int]));
            return Err(RoutingNameError::BadCharacters);
        }
        i = i + 1;
    }
    let lower = lower_vec(&v);
    if !ends_with_str(&lower, ".dat") {
        return Err(RoutingNameError::NotDat);
    }
    Ok(f)
}


/// Is `port` the default port of `scheme`?
pub open spec fn is_default_port_spec(scheme: Seq<char>, port: u16) -> bool {
    (scheme == "http"@ && port == 80) || (scheme == "https"@ && port == 443)
}

pub fn is_default_port(scheme: &str, port: u16) -> (b: bool)
    ensures
        b == is_default_port_spec(scheme@, port),
{
    (str_eq(scheme, "http") && port == 80) || (str_eq(scheme, "https") && port == 443)
}

/// The `Host` header for a panel reached through a tunnel: the host with
/// the port the address gave explicitly, or with the port it stands for
/// unless that is the scheme's default.
pub open spec fn host_header_spec(
    explicit_port: Option<u16>,
    scheme: Seq<char>,
    host: Seq<char>,
    default_port: u16,
) -> Seq<char> {
    match explicit_port {
        Some(p) => host + ":"@ + decimal(p as nat),
        None => if is_default_port_spec(scheme, default_port) {
            host
        } else {
            host + ":"@ + decimal(default_port as nat)
        },
    }
}

pub fn host_header_value(explicit_port: Option<u16>, scheme: &str, host: &str, default_port: u16) -> (r:
    String)
    ensures
        r@ == host_header_spec(explicit_port, scheme@, host@, default_port),
{
    let mut r = copy_str(host);
    match explicit_port {
        Some(p) => {
            push_str(&mut r, ":");
            push_decimal(&mut r, p as u64);
        },
        None => {
            if !is_default_port(scheme, default_port) {
                push_str(&mut r, ":");
                push_decimal(&mut r, default_port as u64);
            }
        },
    }
    r
}

/// Does a panel message ask for a new login?
pub open spec fn should_retry_login_spec(message: Option<Seq<char>>) -> bool {
    match message {
        None => false,
        Some(m) => {
            let l = lower_seq(m);
            contains(l, "session"@) || contains(l, "login"@) || contains(l, "unauthorized"@)
                || contains(l, "forbidden"@)
        },
    }
}

pub fn should_retry_login(message: Option<&str>) -> (b: bool)
    ensures
        b == should_retry_login_spec(
            match message {
                Some(m) => Some(m@),
                None => None,
            },
        ),
{
    match message {
        None => false,
        Some(m) => {
            let l = lower_vec(&chars_of(m));
            contains_str(&l, "session") || contains_str(&l, "login") || contains_str(
                &l,
                "unauthorized",
            ) || contains_str(&l, "forbidden")
        },
    }
}

/// Does a panel response ask for a new login: status 401 or 403, or a body
/// that says so?
pub fn needs_relogin(status: u16, text: &str) -> (b: bool)
    ensures
        b == (status == 401 || status == 403 || should_retry_login_spec(Some(text@))),
{
    status == 401 || status == 403 || should_retry_login(Some(text))
}

/// Does an HTTP failure message speak of TLS certificate checking?
pub open spec fn is_tls_error_spec(message: Seq<char>) -> bool {
    let l = lower_seq(message);
    contains(l, "certificate"@) || contains(l, "tls"@) || contains(l, "invalid peer"@) || contains(
        l,
        "unknown issuer"@,
    ) || contains(l, "not valid for name"@)
}

pub fn is_tls_error(message: &str) -> (b: bool)
    ensures
        b == is_tls_error_spec(message@),
{
    let l = lower_vec(&chars_of(message));
    contains_str(&l, "certificate") || contains_str(&l, "tls") || contains_str(&l, "invalid peer")
        || contains_str(&l, "unknown issuer") || contains_str(&l, "not valid for name")
}

/// The message a failed panel request is reported with.
pub open spec fn send_error_message_spec(message: Seq<char>, uses_bastion: bool, context: Seq<char>) -> Seq<
    char,
> {
    if uses_bastion {
        if is_tls_error_spec(message) {
            "Panel TLS verification failed through bastion: "@ + message
        } else if contains(context, "login"@) {
            "3x-ui login failed through bastion: "@ + message
        } else {
            "Cannot reach 3x-ui panel through bastion: "@ + message
        }
    } else {
        context + ": "@ + message
    }
}

pub fn panel_send_error_message(message: &str, uses_bastion: bool, context: &str) -> (r: String)
    ensures
        r@ == send_error_message_spec(message@, uses_bastion, context@),
{
    let mut r = if uses_bastion {
        if is_tls_error(message) {
            copy_str("Panel TLS verification failed through bastion: ")
        } else if contains_str(&chars_of(context), "login") {
            copy_str("3x-ui login failed through bastion: ")
        } else {
            copy_str("Cannot reach 3x-ui panel through bastion: ")
        }
    } else {
        let mut c = copy_str(context);
        push_str(&mut c, ": ");
        c
    };
    push_str(&mut r, message);
    r
}

/// What distinguishes a server's bastion route in the panel caches.
pub open spec fn bastion_fingerprint_spec(s: ServerConfig) -> Seq<char> {
    let host = match s.bastion_host {
        Some(h) => h@,
        None => seq![],
    };
    let key = match s.bastion_ssh_key_path {
        Some(k) => k@,
        None => seq![],
    };
    if trim(host).len() == 0 {
        "direct"@
    } else {
        crate::ssh::bastion_user_spec(s) + "@"@ + host + ":"@ + decimal(
            crate::ssh::bastion_port_spec(s) as nat,
        ) + "|key:"@ + key
    }
}

pub fn bastion_fingerprint(server: &ServerConfig) -> (r: String)
    ensures
        r@ == bastion_fingerprint_spec(*server),
{
    let host = match &server.bastion_host {
        Some(h) => h.clone(),
        None => String::new(),
    };
    let key = match &server.bastion_ssh_key_path {
        Some(k) => k.clone(),
        None => String::new(),
    };
    let t = trim_str(host.as_str());
    if t.as_str().is_empty() {
        return copy_str("direct");
    }
    let mut r = crate::ssh::bastion_user(server);
    push_str(&mut r, "@");
    push_str(&mut r, host.as_str());
    push_str(&mut r, ":");
    push_decimal(&mut r, crate::ssh::bastion_port(server) as u64);
    push_str(&mut r, "|key:");
    push_str(&mut r, key.as_str());
    r
}

pub open spec fn panel_url_text(s: ServerConfig) -> Seq<char> {
    match s.panel_url {
        Some(u) => u@,
        None => seq![],
    }
}

/// The key of a server's cached panel session.
pub open spec fn session_cache_key_spec(s: ServerConfig) -> Seq<char> {
    s.id@ + "|"@ + panel_url_text(s) + "|ssl:"@ + crate::text::bool_text(s.ssl_verify) + "|"@
        + bastion_fingerprint_spec(s)
}

pub fn session_cache_key(server: &ServerConfig) -> (r: String)
    ensures
        r@ == session_cache_key_spec(*server),
{
    let mut r = copy_str(server.id.as_str());
    push_str(&mut r, "|");
    match &server.panel_url {
        Some(u) => push_str(&mut r, u.as_str()),
        None => {},
    }
    push_str(&mut r, "|ssl:");
    crate::text::push_bool(&mut r, server.ssl_verify);
    push_str(&mut r, "|");
    let fp = bastion_fingerprint(server);
    push_str(&mut r, fp.as_str());
    proof {
        if server.panel_url is None {
            assert(r@ =~= session_cache_key_spec(*server));
        }
    }
    r
}

/// The key of a cached tunnel to a server's panel.
pub open spec fn panel_tunnel_key_spec(s: ServerConfig, base_url: Seq<char>, host: Seq<char>, port: u16) -> Seq<
    char,
> {
    s.id@ + "|"@ + base_url + "|"@ + host + ":"@ + decimal(port as nat) + "|"@
        + bastion_fingerprint_spec(s)
}

pub fn panel_tunnel_key(server: &ServerConfig, base_url: &str, target_host: &str, target_port: u16) -> (r:
    String)
    ensures
        r@ == panel_tunnel_key_spec(*server, base_url@, target_host@, target_port),
{
    let mut r = copy_str(server.id.as_str());
    push_str(&mut r, "|");
    push_str(&mut r, base_url);
    push_str(&mut r, "|");
    push_str(&mut r, target_host);
    push_str(&mut r, ":");
    push_decimal(&mut r, target_port as u64);
    push_str(&mut r, "|");
    let fp = bastion_fingerprint(server);
    push_str(&mut r, fp.as_str());
    r
}

/// The keychain account of a server's panel credentials.
pub open spec fn panel_keychain_account_spec(s: ServerConfig) -> Seq<char> {
    s.id@ + ":"@ + panel_url_text(s)
}

pub fn keychain_account(server: &ServerConfig) -> (r: String)
    ensures
        r@ == panel_keychain_account_spec(*server),
{
    let mut r = copy_str(server.id.as_str());
    push_str(&mut r, ":");
    match &server.panel_url {
        Some(u) => push_str(&mut r, u.as_str()),
        None => {
            assert(r@ =~= panel_keychain_account_spec(*server));
        },
    }
    r
}

/// A CSV cell: quoted, with quotes doubled, when it holds a comma, a quote
/// or a line break.
pub open spec fn csv_cell_spec(value: Seq<char>) -> Seq<char> {
    if has_char(value, ',') || has_char(value, '"') || has_char(value, '\n') {
        seq!['"'] + escape(Escape::CsvQuoted, value) + seq!['"']
    } else {
        value
    }
}

pub fn csv_cell(value: &str) -> (r: String)
    ensures
        r@ == csv_cell_spec(value@),
{
    let v = chars_of(value);
    if find_char(&v, ',').is_some() || find_char(&v, '"').is_some() || find_char(&v, '\n').is_some() {
        let mut r = String::new();
        push_char(&mut r, '"');
        push_escaped(&mut r, Escape::CsvQuoted, value);
        push_char(&mut r, '"');
        assert(r@ =~= seq!['"'] + escape(Escape::CsvQuoted, value@) + seq!['"']);
        r
    } else {
        copy_str(value)
    }
}

/// One row of the clients export.
pub open spec fn csv_row_spec(
    email: Seq<char>,
    up: u64,
    down: u64,
    total: u64,
    expiry: Seq<char>,
    status: Seq<char>,
) -> Seq<char> {
    csv_cell_spec(email) + ","@ + decimal(up as nat) + ","@ + decimal(down as nat) + ","@ + decimal(
        total as nat,
    ) + ","@ + csv_cell_spec(expiry) + ","@ + csv_cell_spec(status) + "\n"@
}

pub fn csv_row(email: &str, up: u64, down: u64, total: u64, expiry: &str, status: &str) -> (r: String)
    ensures
        r@ == csv_row_spec(email@, up, down, total, expiry@, status@),
{
    let mut r = csv_cell(email);
    push_str(&mut r, ",");
    push_decimal(&mut r, up);
    push_str(&mut r, ",");
    push_decimal(&mut r, down);
    push_str(&mut r, ",");
    push_decimal(&mut r, total);
    push_str(&mut r, ",");
    let e = csv_cell(expiry);
    push_str(&mut r, e.as_str());
    push_str(&mut r, ",");
    let s = csv_cell(status);
    push_str(&mut r, s.as_str());
    push_str(&mut r, "\n");
    r
}

/// The header row of the clients export.
pub fn csv_header() -> (r: &'static str)
    ensures
        r@ == "email,up,down,total,expiry,status\n"@,
{
    "email,up,down,total,expiry,status\n"
}

/// Bytes left as they are in a URL component.
pub open spec fn is_unreserved(b: u8) -> bool {
    (65 <= b <= 90) || (97 <= b <= 122) || (48 <= b <= 57) || b == 45 || b == 95 || b == 46
        || b == 126
}

pub open spec fn hex_digit_upper(d: nat) -> char {
    if d < 10 {
        (48 + d) as char
    } else {
        (55 + d) as char
    }
}

pub open spec fn encode_byte(b: u8) -> Seq<char> {
    if is_unreserved(b) {
        seq![b as char]
    } else {
        seq!['%', hex_digit_upper((b / 16) as nat), hex_digit_upper((b % 16) as nat)]
    }
}

/// Percent-encoding of a byte string: unreserved bytes as they are, every
/// other byte as `%` and two upper-case hexadecimal digits.
pub open spec fn percent_encode(bytes: Seq<u8>) -> Seq<char>
    decreases bytes.len(),
{
    if bytes.len() == 0 {
        seq![]
    } else {
        percent_encode(bytes.drop_last()) + encode_byte(bytes.last())
    }
}

fn hex_upper_exec(d: u8) -> (c: char)
    requires
        d < 16,
    ensures
        c == hex_digit_upper(d as nat),
{
    if d < 10 {
        (48 + d) as char
    } else {
        (55 + d) as char
    }
}

/// A URL component, percent-encoded byte by byte (UTF-8).
pub fn encode_component(input: &str) -> (r: String)
    ensures
        r@ == percent_encode(vstd::utf8::encode_utf8(input@)),
{
    let bytes = input.as_bytes();
    let mut r = String::new();
    let mut i: usize = 0;
    while i < bytes.len()
        invariant
            bytes@ == vstd::utf8::encode_utf8(input@),
            i <= bytes@.len(),
            r@ == percent_encode(bytes@.subrange(0, i as int)),
        decreases bytes.len() - i,
    {
        let b = bytes[i];
        let ghost r0 = r@;
        if (65 <= b && b <= 90) || (97 <= b && b <= 122) || (48 <= b && b <= 57) || b == 45 || b
            == 95 || b == 46 || b == 126 {
            push_char(&mut r, b as char);
            assert(r@ =~= r0 + encode_byte(b));
        } else {
            push_char(&mut r, '%');
            push_char(&mut r, hex_upper_exec(b / 16));
            push_char(&mut r, hex_upper_exec(b % 16));
            assert(r@ =~= r0 + encode_byte(b));
        }
        i = i + 1;
        assert(bytes@.subrange(0, i as int).drop_last() =~= bytes@.subrange(0, i - 1));
    }
    assert(bytes@.subrange(0, bytes@.len() as int) =~= bytes@);
    r
}


/// The time now, in milliseconds since the Unix epoch, from
/// `chrono::Utc::now().timestamp_millis()`. Nothing is promised of the
/// value: it is the clock's.
#[verifier::external_body]
pub(crate) fn now_millis() -> (r: i64) {
    chrono::Utc::now().timestamp_millis()
}

/// A client's state: `disabled`, else `expired` once its expiry time has
/// passed, else `limited` once its traffic reached the limit, else
/// `active`. Zero means no expiry and no limit.
pub open spec fn client_status_spec(enable: bool, total: u64, used: u64, expiry_time: i64, now_ms: i64) -> Seq<
    char,
> {
    if !enable {
        "disabled"@
    } else if expiry_time > 0 && expiry_time <= now_ms {
        "expired"@
    } else if total > 0 && used >= total {
        "limited"@
    } else {
        "active"@
    }
}

pub fn client_status_at(enable: bool, total: u64, used: u64, expiry_time: i64, now_ms: i64) -> (r:
    String)
    ensures
        r@ == client_status_spec(enable, total, used, expiry_time, now_ms),
{
    if !enable {
        copy_str("disabled")
    } else if expiry_time > 0 && expiry_time <= now_ms {
        copy_str("expired")
    } else if total > 0 && used >= total {
        copy_str("limited")
    } else {
        copy_str("active")
    }
}

/// A client's state now.
pub fn client_status(enable: bool, total: u64, used: u64, expiry_time: i64) -> (r: String)
    ensures
        exists|now: i64| r@ == client_status_spec(enable, total, used, expiry_time, now),
{
    let now = now_millis();
    client_status_at(enable, total, used, expiry_time, now)
}

/// The traffic a client used: upload and download, added without overflow.
pub fn used_bytes(up: u64, down: u64) -> (r: u64)
    ensures
        r == (if up + down > u64::MAX {
            u64::MAX as int
        } else {
            up + down
        }),
{
    if up > u64::MAX - down {
        u64::MAX
    } else {
        up + down
    }
}

/// A client's traffic limit in bytes. Panels store it in bytes, older ones
/// in whole gigabytes: a positive value under 1000 is taken as gigabytes.
/// Without a limit in the client's settings, the traffic record's is used.
pub open spec fn client_total_spec(total_gb: Option<i64>, traffic_total: Option<u64>) -> u64 {
    match total_gb {
        Some(v) => {
            let raw: int = if v < 0 {
                0
            } else {
                v as int
            };
            if raw > 0 && raw < 1000 {
                (raw * 1073741824) as u64
            } else {
                raw as u64
            }
        },
        None => match traffic_total {
            Some(t) => t,
            None => 0,
        },
    }
}

pub fn client_total_bytes(total_gb: Option<i64>, traffic_total: Option<u64>) -> (r: u64)
    ensures
        r == client_total_spec(total_gb, traffic_total),
{
    match total_gb {
        Some(v) => {
            let raw: u64 = if v < 0 {
                0
            } else {
                v as u64
            };
            if raw > 0 && raw < 1000 {
                raw * 1073741824
            } else {
                raw
            }
        },
        None => match traffic_total {
            Some(t) => t,
            None => 0,
        },
    }
}

/// Why extending a client was refused.
#[derive(Debug, PartialEq, Eq, Structural)]
pub enum ExtendError {
    NotPositive,
    TooLarge,
}

impl ExtendError {
    pub fn message(&self) -> (m: &'static str)
        ensures
            m@ == match self {
                ExtendError::NotPositive => "extend days must be positive"@,
                ExtendError::TooLarge => "days value too large, would overflow expiry timestamp"@,
            },
    {
        match self {
            ExtendError::NotPositive => "extend days must be positive",
            ExtendError::TooLarge => "days value too large, would overflow expiry timestamp",
        }
    }
}

/// The new expiry time of a client extended by `days`: counted from its
/// current expiry, or from now when that has passed (or is unset).
pub open spec fn extended_expiry_spec(current: Option<i64>, now_ms: i64, days: i64) -> Result<
    i64,
    ExtendError,
> {
    let cur: int = match current {
        Some(c) => c as int,
        None => 0,
    };
    let base: int = if cur > now_ms {
        cur
    } else {
        now_ms as int
    };
    let delta: int = days * 86_400_000;
    if days <= 0 {
        Err(ExtendError::NotPositive)
    } else if delta > i64::MAX || base + delta > i64::MAX {
        Err(ExtendError::TooLarge)
    } else {
        Ok((base + delta) as i64)
    }
}

pub fn extended_expiry(current: Option<i64>, now_ms: i64, days: i64) -> (r: Result<i64, ExtendError>)
    ensures
        r == extended_expiry_spec(current, now_ms, days),
{
    if days <= 0 {
        return Err(ExtendError::NotPositive);
    }
    let cur: i64 = match current {
        Some(c) => c,
        None => 0,
    };
    let base: i64 = if cur > now_ms {
        cur
    } else {
        now_ms
    };
    match days.checked_mul(86_400_000) {
        Some(delta) => match base.checked_add(delta) {
            Some(v) => Ok(v),
            None => Err(ExtendError::TooLarge),
        },
        None => Err(ExtendError::TooLarge),
    }
}

pub open spec fn or_else(a: Option<Seq<char>>, b: Option<Seq<char>>) -> Option<Seq<char>> {
    if a is Some {
        a
    } else {
        b
    }
}

/// The id that names a client: its password for Trojan, its email for
/// Shadowsocks, its id for the other protocols, falling back in turn on
/// the other fields.
pub open spec fn client_identifier_spec(
    protocol: Seq<char>,
    id: Option<Seq<char>>,
    password: Option<Seq<char>>,
    email: Option<Seq<char>>,
) -> Seq<char> {
    let p = lower_seq(protocol);
    let chosen = if p == "trojan"@ {
        or_else(password, or_else(id, email))
    } else if p == "shadowsocks"@ {
        or_else(email, id)
    } else {
        or_else(id, or_else(password, email))
    };
    match chosen {
        Some(v) => v,
        None => seq![],
    }
}

fn first_of(a: &Option<String>, b: &Option<String>) -> (r: Option<String>)
    ensures
        opt_view(r) == or_else(opt_view(*a), opt_view(*b)),
{
    match a {
        Some(x) => Some(x.clone()),
        None => crate::config::dup_opt(b),
    }
}

pub fn client_identifier(
    protocol: &str,
    id: &Option<String>,
    password: &Option<String>,
    email: &Option<String>,
) -> (r: String)
    ensures
        r@ == client_identifier_spec(protocol@, opt_view(*id), opt_view(*password), opt_view(*email)),
{
    let p = lower_vec(&chars_of(protocol));
    let trojan = chars_of("trojan");
    let shadowsocks = chars_of("shadowsocks");
    let chosen = if crate::text::seq_eq(&p, &trojan) {
        let rest = first_of(id, email);
        first_of(password, &rest)
    } else if crate::text::seq_eq(&p, &shadowsocks) {
        first_of(email, id)
    } else {
        let rest = first_of(password, email);
        first_of(id, &rest)
    };
    match chosen {
        Some(v) => v,
        None => String::new(),
    }
}

/// The flow of the inbound's first client that has one, else empty.
pub open spec fn default_flow_spec(flows: Seq<Option<Seq<char>>>) -> Seq<char>
    decreases flows.len(),
{
    if flows.len() == 0 {
        seq![]
    } else if flows[0] is Some && flows[0]->0.len() > 0 {
        flows[0]->0
    } else {
        default_flow_spec(flows.drop_first())
    }
}

pub open spec fn opt_views(v: Seq<Option<String>>) -> Seq<Option<Seq<char>>> {
    v.map_values(|o: Option<String>| opt_view(o))
}

pub fn default_flow(flows: &Vec<Option<String>>) -> (r: String)
    ensures
        r@ == default_flow_spec(opt_views(flows@)),
{
    let ghost all = opt_views(flows@);
    let mut i: usize = 0;
    assert(all.subrange(0, all.len() as int) =~= all);
    while i < flows.len()
        invariant
            all == opt_views(flows@),
            i <= flows@.len(),
            default_flow_spec(all.subrange(i as int, all.len() as int)) == default_flow_spec(all),
        decreases flows.len() - i,
    {
        let ghost rest = all.subrange(i as int, all.len() as int);
        assert(rest[0] == opt_view(flows@[i as int]));
        assert(rest.drop_first() =~= all.subrange(i + 1, all.len() as int));
        match &flows[i] {
            Some(f) => {
                if !f.as_str().is_empty() {
                    return f.clone();
                }
            },
            None => {},
        }
        i = i + 1;
    }
    String::new()
}


/// Lexicographic order of character sequences, which for strings is the
/// order `String`'s `Ord` gives (UTF-8 keeps the order of code points).
pub open spec fn key_le(a: Seq<char>, b: Seq<char>) -> bool
    decreases a.len(),
{
    if a.len() == 0 {
        true
    } else if b.len() == 0 {
        false
    } else if a[0] != b[0] {
        (a[0] as u32) < (b[0] as u32)
    } else {
        key_le(a.drop_first(), b.drop_first())
    }
}

pub fn key_le_exec(a: &Vec<char>, b: &Vec<char>) -> (r: bool)
    ensures
        r == key_le(a@, b@),
{
    let mut i: usize = 0;
    assert(a@.subrange(0, a@.len() as int) =~= a@);
    assert(b@.subrange(0, b@.len() as int) =~= b@);
    while i < a.len() && i < b.len() && a[i] == b[i]
        invariant
            i <= a@.len(),
            i <= b@.len(),
            forall|k: int| 0 <= k < i ==> a@[k] == b@[k],
            key_le(a@, b@) == key_le(a@.subrange(i as int, a@.len() as int), b@.subrange(i as int, b@.len() as int)),
        decreases a.len() - i,
    {
        let ghost sa = a@.subrange(i as int, a@.len() as int);
        let ghost sb = b@.subrange(i as int, b@.len() as int);
        assert(sa.drop_first() =~= a@.subrange(i + 1, a@.len() as int));
        assert(sb.drop_first() =~= b@.subrange(i + 1, b@.len() as int));
        i = i + 1;
    }
    let ghost sa = a@.subrange(i as int, a@.len() as int);
    let ghost sb = b@.subrange(i as int, b@.len() as int);
    if i == a.len() {
        true
    } else if i == b.len() {
        false
    } else {
        assert(sa[0] == a@[i as int] && sb[0] == b@[i as int]);
        (a[i] as u32) < (b[i] as u32)
    }
}

pub open spec fn pair_views(v: Seq<(String, String)>) -> Seq<(Seq<char>, Seq<char>)> {
    v.map_values(|p: (String, String)| (p.0@, p.1@))
}

/// Inserts `x` after every entry whose key is at most its key, from the
/// end: one step of a stable insertion sort.
pub open spec fn insert_by_key(s: Seq<(Seq<char>, Seq<char>)>, x: (Seq<char>, Seq<char>)) -> Seq<
    (Seq<char>, Seq<char>),
>
    decreases s.len(),
{
    if s.len() == 0 {
        seq![x]
    } else if key_le(s.last().0, x.0) {
        s.push(x)
    } else {
        insert_by_key(s.drop_last(), x).push(s.last())
    }
}

/// The entries sorted by key, entries of equal key kept in their order, as
/// a stable sort by key leaves them.
pub open spec fn sort_by_key(s: Seq<(Seq<char>, Seq<char>)>) -> Seq<(Seq<char>, Seq<char>)>
    decreases s.len(),
{
    if s.len() == 0 {
        seq![]
    } else {
        insert_by_key(sort_by_key(s.drop_last()), s.last())
    }
}

pub proof fn lemma_insert_at(s: Seq<(Seq<char>, Seq<char>)>, x: (Seq<char>, Seq<char>), j: int)
    requires
        0 <= j <= s.len(),
        forall|k: int| j <= k < s.len() ==> !key_le((#[trigger] s[k]).0, x.0),
        j == 0 || key_le(s[j - 1].0, x.0),
    ensures
        insert_by_key(s, x) == s.insert(j, x),
    decreases s.len() - j,
{
    if s.len() == 0 {
        assert(s.insert(0, x) =~= seq![x]);
    } else if j == s.len() {
        assert(s.insert(j, x) =~= s.push(x));
    } else {
        let t = s.drop_last();
        assert(!key_le(s.last().0, x.0));
        assert forall|k: int| j <= k < t.len() implies !key_le((#[trigger] t[k]).0, x.0) by {
            assert(t[k] == s[k]);
        }
        if j > 0 {
            assert(t[j - 1] == s[j - 1]);
        }
        lemma_insert_at(t, x, j);
        assert(t.insert(j, x).push(s.last()) =~= s.insert(j, x));
    }
}

/// The entries sorted by key, stably.
pub fn sort_params(params: &Vec<(String, String)>) -> (r: Vec<(String, String)>)
    ensures
        pair_views(r@) == sort_by_key(pair_views(params@)),
{
    let ghost all = pair_views(params@);
    let mut out: Vec<(String, String)> = Vec::new();
    let mut i: usize = 0;
    while i < params.len()
        invariant
            all == pair_views(params@),
            i <= params@.len(),
            pair_views(out@) == sort_by_key(all.subrange(0, i as int)),
        decreases params.len() - i,
    {
        let x = (params[i].0.clone(), params[i].1.clone());
        let ghost xv = (x.0@, x.1@);
        assert(xv == all[i as int]);
        let xk = chars_of(x.0.as_str());
        let mut j = out.len();
        while j > 0 && !key_le_exec(&chars_of(out[j - 1].0.as_str()), &xk)
            invariant
                j <= out@.len(),
                xk@ == xv.0,
                forall|k: int| j <= k < out@.len() ==> !key_le((#[trigger] pair_views(out@)[k]).0, xv.0),
            decreases j,
        {
            j = j - 1;
        }
        let ghost before = pair_views(out@);
        proof {
            if j > 0 {
                assert(before[j - 1] == (out@[j - 1].0@, out@[j - 1].1@));
            }
            lemma_insert_at(before, xv, j as int);
        }
        out.insert(j, x);
        assert(pair_views(out@) =~= before.insert(j as int, xv));
        i = i + 1;
        assert(all.subrange(0, i as int).drop_last() =~= all.subrange(0, i - 1));
    }
    assert(all.subrange(0, all.len() as int) =~= all);
    out
}

/// `key=value`, the value percent-encoded.
pub open spec fn query_part(p: (Seq<char>, Seq<char>)) -> Seq<char> {
    p.0 + "="@ + percent_encode(vstd::utf8::encode_utf8(p.1))
}

/// The parts joined with `&`.
pub open spec fn join_query(ps: Seq<(Seq<char>, Seq<char>)>) -> Seq<char>
    decreases ps.len(),
{
    if ps.len() == 0 {
        seq![]
    } else if ps.len() == 1 {
        query_part(ps[0])
    } else {
        join_query(ps.drop_last()) + "&"@ + query_part(ps.last())
    }
}

/// A link's query: `?` and its parameters, sorted by name; empty without
/// parameters.
pub open spec fn build_query_spec(ps: Seq<(Seq<char>, Seq<char>)>) -> Seq<char> {
    if ps.len() == 0 {
        seq![]
    } else {
        "?"@ + join_query(sort_by_key(ps))
    }
}

pub proof fn lemma_sort_len(s: Seq<(Seq<char>, Seq<char>)>)
    ensures
        sort_by_key(s).len() == s.len(),
    decreases s.len(),
{
    if s.len() > 0 {
        lemma_sort_len(s.drop_last());
        lemma_insert_len(sort_by_key(s.drop_last()), s.last());
    }
}

pub proof fn lemma_insert_len(s: Seq<(Seq<char>, Seq<char>)>, x: (Seq<char>, Seq<char>))
    ensures
        insert_by_key(s, x).len() == s.len() + 1,
    decreases s.len(),
{
    if s.len() > 0 && !key_le(s.last().0, x.0) {
        lemma_insert_len(s.drop_last(), x);
    }
}

pub fn build_query(params: &Vec<(String, String)>) -> (r: String)
    ensures
        r@ == build_query_spec(pair_views(params@)),
{
    if params.len() == 0 {
        return String::new();
    }
    let sorted = sort_params(params);
    proof {
        lemma_sort_len(pair_views(params@));
    }
    let ghost sv = pair_views(sorted@);
    let mut r = copy_str("?");
    let mut i: usize = 0;
    while i < sorted.len()
        invariant
            sv == pair_views(sorted@),
            i <= sorted@.len(),
            r@ == "?"@ + join_query(sv.subrange(0, i as int)),
        decreases sorted.len() - i,
    {
        if i > 0 {
            push_str(&mut r, "&");
        }
        push_str(&mut r, sorted[i].0.as_str());
        push_str(&mut r, "=");
        let enc = encode_component(sorted[i].1.as_str());
        push_str(&mut r, enc.as_str());
        proof {
            let pre = sv.subrange(0, i + 1);
            assert(pre.drop_last() =~= sv.subrange(0, i as int));
            assert(pre.last() == (sorted@[i as int].0@, sorted@[i as int].1@));
            if i == 0 {
                assert(join_query(sv.subrange(0, 0)) =~= Seq::<char>::empty());
            }
        }
        i = i + 1;
        assert(r@ =~= "?"@ + join_query(sv.subrange(0, i as int)));
    }
    assert(sv.subrange(0, sv.len() as int) =~= sv);
    r
}


/// What a link is built from of a client's settings.
#[derive(Debug)]
pub struct LinkClient {
    pub id: Option<String>,
    pub password: Option<String>,
    pub email: Option<String>,
    pub flow: Option<String>,
    pub alter_id: Option<i64>,
}

/// What a link is built from of an inbound's stream settings.
#[derive(Debug)]
pub struct LinkStream {
    pub network: Option<String>,
    pub security: Option<String>,
    pub ws_host: Option<String>,
    pub ws_path: Option<String>,
    pub grpc_service_name: Option<String>,
    pub tls_server_name: Option<String>,
    pub reality_server_name: Option<String>,
    pub tls_fingerprint: Option<String>,
    pub reality_fingerprint: Option<String>,
    pub reality_public_key: Option<String>,
    pub reality_short_id: Option<String>,
    pub reality_spider_x: Option<String>,
}

/// The TLS server name: the TLS settings' one, else the first REALITY one.
pub open spec fn tls_sni_spec(st: LinkStream) -> Option<Seq<char>> {
    or_else(opt_view(st.tls_server_name), opt_view(st.reality_server_name))
}

pub open spec fn fingerprint_spec(st: LinkStream) -> Option<Seq<char>> {
    or_else(opt_view(st.tls_fingerprint), opt_view(st.reality_fingerprint))
}

pub open spec fn push_if(
    s: Seq<(Seq<char>, Seq<char>)>,
    k: Seq<char>,
    v: Option<Seq<char>>,
) -> Seq<(Seq<char>, Seq<char>)> {
    match v {
        Some(x) => if x.len() > 0 {
            s.push((k, x))
        } else {
            s
        },
        None => s,
    }
}

/// The query parameters of a VLESS or Trojan link: the transport and
/// security, then each of flow, host, path, service name, SNI,
/// fingerprint, public key, short id and spider path that is set and not
/// empty.
pub open spec fn link_params_spec(
    c: LinkClient,
    st: LinkStream,
    network: Seq<char>,
    security: Seq<char>,
) -> Seq<(Seq<char>, Seq<char>)> {
    let p0 = seq![("type"@, network), ("security"@, security)];
    let p1 = push_if(p0, "flow"@, opt_view(c.flow));
    let p2 = push_if(p1, "host"@, opt_view(st.ws_host));
    let p3 = push_if(p2, "path"@, opt_view(st.ws_path));
    let p4 = push_if(p3, "serviceName"@, opt_view(st.grpc_service_name));
    let p5 = push_if(p4, "sni"@, tls_sni_spec(st));
    let p6 = push_if(p5, "fp"@, fingerprint_spec(st));
    let p7 = push_if(p6, "pbk"@, opt_view(st.reality_public_key));
    let p8 = push_if(p7, "sid"@, opt_view(st.reality_short_id));
    push_if(p8, "spx"@, opt_view(st.reality_spider_x))
}

fn push_param(params: &mut Vec<(String, String)>, key: &str, value: Option<String>)
    ensures
        pair_views(final(params)@) == push_if(pair_views(old(params)@), key@, opt_view(value)),
{
    match value {
        Some(v) => {
            if !v.as_str().is_empty() {
                let ghost before = pair_views(params@);
                let ghost vv = v@;
                params.push((copy_str(key), v));
                assert(pair_views(params@) =~= before.push((key@, vv)));
            }
        },
        None => {},
    }
}

pub fn common_link_params(
    client: &LinkClient,
    stream: &LinkStream,
    network: &str,
    security: &str,
) -> (r: Vec<(String, String)>)
    ensures
        pair_views(r@) == link_params_spec(*client, *stream, network@, security@),
{
    let mut params: Vec<(String, String)> = Vec::new();
    params.push((copy_str("type"), copy_str(network)));
    params.push((copy_str("security"), copy_str(security)));
    assert(pair_views(params@) =~= seq![("type"@, network@), ("security"@, security@)]);
    push_param(&mut params, "flow", crate::config::dup_opt(&client.flow));
    push_param(&mut params, "host", crate::config::dup_opt(&stream.ws_host));
    push_param(&mut params, "path", crate::config::dup_opt(&stream.ws_path));
    push_param(&mut params, "serviceName", crate::config::dup_opt(&stream.grpc_service_name));
    push_param(&mut params, "sni", first_of(&stream.tls_server_name, &stream.reality_server_name));
    push_param(&mut params, "fp", first_of(&stream.tls_fingerprint, &stream.reality_fingerprint));
    push_param(&mut params, "pbk", crate::config::dup_opt(&stream.reality_public_key));
    push_param(&mut params, "sid", crate::config::dup_opt(&stream.reality_short_id));
    push_param(&mut params, "spx", crate::config::dup_opt(&stream.reality_spider_x));
    params
}

/// The fields of a VMess link's JSON document that depend on the client,
/// the inbound and the server.
#[derive(Debug)]
pub struct VmessFields {
    pub ps: String,
    pub add: String,
    pub port: String,
    pub id: String,
    pub aid: String,
    pub net: String,
    pub host: String,
    pub path: String,
    pub tls: String,
    pub sni: String,
}

/// A client link: a finished VLESS or Trojan URL, or the fields of a VMess
/// document, which `vmess_link` encodes.
#[derive(Debug)]
pub enum ClientLink {
    Url(String),
    Vmess(VmessFields),
}

/// Why no link could be made.
#[derive(Debug)]
pub enum LinkError {
    MissingVlessId,
    MissingTrojanPassword,
    MissingVmessId,
    Unsupported(String),
}

impl LinkError {
    pub fn message(&self) -> (m: String)
        ensures
            m@ == match self {
                LinkError::MissingVlessId => "vless client id is missing"@,
                LinkError::MissingTrojanPassword => "trojan client password is missing"@,
                LinkError::MissingVmessId => "vmess client id is missing"@,
                LinkError::Unsupported(p) => "link generation is not supported for protocol '"@
                    + p@ + "'"@,
            },
    {
        match self {
            LinkError::MissingVlessId => copy_str("vless client id is missing"),
            LinkError::MissingTrojanPassword => copy_str("trojan client password is missing"),
            LinkError::MissingVmessId => copy_str("vmess client id is missing"),
            LinkError::Unsupported(p) => {
                let mut m = copy_str("link generation is not supported for protocol '");
                push_str(&mut m, p.as_str());
                push_str(&mut m, "'");
                m
            },
        }
    }
}

pub open spec fn or_default_text(o: Option<Seq<char>>, d: Seq<char>) -> Seq<char> {
    match o {
        Some(v) => v,
        None => d,
    }
}

/// The link of a client: `vless://id@address:port?query#name`,
/// `trojan://password@address:port?query#name` (password and name
/// percent-encoded), or the VMess fields.
pub open spec fn client_link_ok(
    address: Seq<char>,
    protocol: Seq<char>,
    port: u16,
    remark: Seq<char>,
    c: LinkClient,
    st: LinkStream,
    link: ClientLink,
) -> bool {
    let p = lower_seq(protocol);
    let network = or_default_text(opt_view(st.network), "tcp"@);
    let security = or_default_text(opt_view(st.security), "none"@);
    let email = or_default_text(opt_view(c.email), remark);
    let query = build_query_spec(link_params_spec(c, st, network, security));
    let name = percent_encode(vstd::utf8::encode_utf8(email));
    if p == "vless"@ {
        link matches ClientLink::Url(u) && u@ == "vless://"@ + opt_view(c.id)->0 + "@"@ + address
            + ":"@ + decimal(port as nat) + query + "#"@ + name
    } else if p == "trojan"@ {
        link matches ClientLink::Url(u) && u@ == "trojan://"@ + percent_encode(
            vstd::utf8::encode_utf8(opt_view(c.password)->0),
        ) + "@"@ + address + ":"@ + decimal(port as nat) + query + "#"@ + name
    } else {
        link matches ClientLink::Vmess(v) && v.ps@ == email && v.add@ == address && v.port@
            == decimal(port as nat) && v.id@ == opt_view(c.id)->0 && v.aid@
            == crate::text::int_decimal(
            match c.alter_id {
                Some(a) => a as int,
                None => 0,
            },
        ) && v.net@ == network && v.host@ == or_default_text(opt_view(st.ws_host), seq![]) && v.path@
            == or_default_text(opt_view(st.ws_path), seq![]) && v.tls@ == (if security == "none"@ {
            seq![]
        } else {
            security
        }) && v.sni@ == or_default_text(tls_sni_spec(st), seq![])
    }
}

fn text_or(o: &Option<String>, d: &str) -> (r: String)
    ensures
        r@ == or_default_text(opt_view(*o), d@),
{
    match o {
        Some(v) => v.clone(),
        None => copy_str(d),
    }
}

pub fn generate_link_for_client(
    address: &str,
    protocol: &str,
    port: u16,
    remark: &str,
    client: &LinkClient,
    stream: &LinkStream,
) -> (r: Result<ClientLink, LinkError>)
    ensures
        ({
            let p = lower_seq(protocol@);
            if p == "vless"@ {
                if client.id is None {
                    r matches Err(LinkError::MissingVlessId)
                } else {
                    r matches Ok(l) && client_link_ok(address@, protocol@, port, remark@, *client, *stream, l)
                }
            } else if p == "trojan"@ {
                if client.password is None {
                    r matches Err(LinkError::MissingTrojanPassword)
                } else {
                    r matches Ok(l) && client_link_ok(address@, protocol@, port, remark@, *client, *stream, l)
                }
            } else if p == "vmess"@ {
                if client.id is None {
                    r matches Err(LinkError::MissingVmessId)
                } else {
                    r matches Ok(l) && client_link_ok(address@, protocol@, port, remark@, *client, *stream, l)
                }
            } else {
                r matches Err(LinkError::Unsupported(q)) && q@ == p
            }
        }),
{
    let pv = lower_vec(&chars_of(protocol));
    let network = text_or(&stream.network, "tcp");
    let security = text_or(&stream.security, "none");
    let email = text_or(&client.email, remark);
    if crate::text::seq_eq(&pv, &chars_of("vless")) {
        let id = match &client.id {
            Some(i) => i,
            None => {
                return Err(LinkError::MissingVlessId);
            },
        };
        let params = common_link_params(client, stream, network.as_str(), security.as_str());
        let query = build_query(&params);
        let mut u = copy_str("vless://");
        push_str(&mut u, id.as_str());
        push_str(&mut u, "@");
        push_str(&mut u, address);
        push_str(&mut u, ":");
        push_decimal(&mut u, port as u64);
        push_str(&mut u, query.as_str());
        push_str(&mut u, "#");
        let name = encode_component(email.as_str());
        push_str(&mut u, name.as_str());
        return Ok(ClientLink::Url(u));
    }
    if crate::text::seq_eq(&pv, &chars_of("trojan")) {
        let password = match &client.password {
            Some(p) => p,
            None => {
                return Err(LinkError::MissingTrojanPassword);
            },
        };
        let params = common_link_params(client, stream, network.as_str(), security.as_str());
        let query = build_query(&params);
        let mut u = copy_str("trojan://");
        let pw = encode_component(password.as_str());
        push_str(&mut u, pw.as_str());
        push_str(&mut u, "@");
        push_str(&mut u, address);
        push_str(&mut u, ":");
        push_decimal(&mut u, port as u64);
        push_str(&mut u, query.as_str());
        push_str(&mut u, "#");
        let name = encode_component(email.as_str());
        push_str(&mut u, name.as_str());
        return Ok(ClientLink::Url(u));
    }
    if crate::text::seq_eq(&pv, &chars_of("vmess")) {
        let id = match &client.id {
            Some(i) => i.clone(),
            None => {
                return Err(LinkError::MissingVmessId);
            },
        };
        let mut port_text = String::new();
        push_decimal(&mut port_text, port as u64);
        let mut aid = String::new();
        crate::text::push_decimal_i64(
            &mut aid,
            match client.alter_id {
                Some(a) => a,
                None => 0,
            },
        );
        let tls = if str_eq(security.as_str(), "none") {
            String::new()
        } else {
            security.clone()
        };
        let sni = match first_of(&stream.tls_server_name, &stream.reality_server_name) {
            Some(v) => v,
            None => String::new(),
        };
        let fields = VmessFields {
            ps: email,
            add: copy_str(address),
            port: port_text,
            id,
            aid,
            net: network,
            host: text_or(&stream.ws_host, ""),
            path: text_or(&stream.ws_path, ""),
            tls,
            sni,
        };
        proof {
            reveal_strlit("");
            assert(fields.port@ =~= decimal(port as nat));
            assert(fields.aid@ =~= crate::text::int_decimal(
                match client.alter_id {
                    Some(a) => a as int,
                    None => 0,
                },
            ));
            assert(fields.host@ == or_default_text(opt_view(stream.ws_host), seq![]));
            assert(fields.path@ == or_default_text(opt_view(stream.ws_path), seq![]));
            assert(fields.sni@ == or_default_text(tls_sni_spec(*stream), seq![]));
        }
        return Ok(ClientLink::Vmess(fields));
    }
    Err(LinkError::Unsupported(crate::text::string_of(&pv)))
}


/// `"key":` and the value as a JSON string.
pub open spec fn json_member(key: Seq<char>, value: Seq<char>) -> Seq<char> {
    json_quoted(key) + ":"@ + json_quoted(value)
}

/// The VMess link's JSON document, as `serde_json` writes the object
/// compactly: its keys in the order of `serde_json`'s default map (sorted),
/// every value a string.
pub open spec fn vmess_json(v: VmessFields) -> Seq<char> {
    "{"@ + json_member("add"@, v.add@) + ","@ + json_member("aid"@, v.aid@) + ","@ + json_member(
        "host"@,
        v.host@,
    ) + ","@ + json_member("id"@, v.id@) + ","@ + json_member("net"@, v.net@) + ","@ + json_member(
        "path"@,
        v.path@,
    ) + ","@ + json_member("port"@, v.port@) + ","@ + json_member("ps"@, v.ps@) + ","@ + json_member(
        "scy"@,
        "auto"@,
    ) + ","@ + json_member("sni"@, v.sni@) + ","@ + json_member("tls"@, v.tls@) + ","@ + json_member(
        "type"@,
        "none"@,
    ) + ","@ + json_member("v"@, "2"@) + "}"@
}

fn push_member(out: &mut String, key: &str, value: &str)
    ensures
        final(out)@ == old(out)@ + json_member(key@, value@),
{
    let k = json_quote(key);
    push_str(out, k.as_str());
    push_str(out, ":");
    let v = json_quote(value);
    push_str(out, v.as_str());
}

/// The VMess link's JSON document.
pub fn vmess_document(fields: &VmessFields) -> (r: String)
    ensures
        r@ == vmess_json(*fields),
{
    let mut r = copy_str("{");
    push_member(&mut r, "add", fields.add.as_str());
    push_str(&mut r, ",");
    push_member(&mut r, "aid", fields.aid.as_str());
    push_str(&mut r, ",");
    push_member(&mut r, "host", fields.host.as_str());
    push_str(&mut r, ",");
    push_member(&mut r, "id", fields.id.as_str());
    push_str(&mut r, ",");
    push_member(&mut r, "net", fields.net.as_str());
    push_str(&mut r, ",");
    push_member(&mut r, "path", fields.path.as_str());
    push_str(&mut r, ",");
    push_member(&mut r, "port", fields.port.as_str());
    push_str(&mut r, ",");
    push_member(&mut r, "ps", fields.ps.as_str());
    push_str(&mut r, ",");
    push_member(&mut r, "scy", "auto");
    push_str(&mut r, ",");
    push_member(&mut r, "sni", fields.sni.as_str());
    push_str(&mut r, ",");
    push_member(&mut r, "tls", fields.tls.as_str());
    push_str(&mut r, ",");
    push_member(&mut r, "type", "none");
    push_str(&mut r, ",");
    push_member(&mut r, "v", "2");
    push_str(&mut r, "}");
    assert(r@ =~= vmess_json(*fields));
    r
}

/// The VMess link: `vmess://` and the Base64 of the UTF-8 of the JSON
/// document. The document must fit the Base64 encoder's buffer.
pub fn vmess_link(fields: &VmessFields) -> (r: String)
    requires
        vstd::utf8::encode_utf8(vmess_json(*fields)).len() <= usize::MAX / 4,
    ensures
        r@ == "vmess://"@ + base64_text(vstd::utf8::encode_utf8(vmess_json(*fields))),
{
    let doc = vmess_document(fields);
    let bytes = doc.as_str().as_bytes_vec();
    let text = encode_base64(&bytes);
    let mut r = copy_str("vmess://");
    push_str(&mut r, text.as_str());
    r
}

/// The `inboundTag` of a routing rule: one tag, a list (each item a tag, or
/// `None` when it is not a string), or anything else.
#[derive(Clone, Debug)]
pub enum InboundTag {
    Text(String),
    List(Vec<Option<String>>),
    Other,
}

/// What the application reads of an Xray routing rule.
#[derive(Clone, Debug)]
pub struct RoutingRule {
    pub is_object: bool,
    /// The rule's `type`, when it is a string.
    pub rule_type: Option<String>,
    pub outbound_tag: Option<String>,
    pub inbound_tag: InboundTag,
}

/// Is the rule the one that routes the `api` inbound to the `api` outbound,
/// which the panel's statistics need?
pub open spec fn is_api_rule_spec(rule: RoutingRule) -> bool {
    &&& rule.is_object
    &&& opt_view(rule.outbound_tag) == Some("api"@)
    &&& match rule.inbound_tag {
        InboundTag::Text(t) => t@ == "api"@,
        InboundTag::List(ts) => exists|i: int|
            0 <= i < ts@.len() && opt_view(#[trigger] ts@[i]) == Some("api"@),
        InboundTag::Other => false,
    }
}

#[verifier::loop_isolation(false)]
pub fn is_api_routing_rule(rule: &RoutingRule) -> (b: bool)
    ensures
        b == is_api_rule_spec(*rule),
{
    if !rule.is_object {
        return false;
    }
    match &rule.outbound_tag {
        Some(t) => {
            if !str_eq(t.as_str(), "api") {
                return false;
            }
        },
        None => {
            return false;
        },
    }
    match &rule.inbound_tag {
        InboundTag::Text(t) => str_eq(t.as_str(), "api"),
        InboundTag::List(ts) => {
            let mut i: usize = 0;
            while i < ts.len()
                invariant
                    i <= ts@.len(),
                    forall|k: int| 0 <= k < i ==> opt_view(#[trigger] ts@[k]) != Some("api"@),
                decreases ts.len() - i,
            {
                match &ts[i] {
                    Some(t) => {
                        if str_eq(t.as_str(), "api") {
                            assert(opt_view(ts@[i as int]) == Some("api"@));
                            return true;
                        }
                    },
                    None => {},
                }
                i = i + 1;
            }
            false
        },
        InboundTag::Other => false,
    }
}

/// The index of the first `api` routing rule.
pub fn api_rule_position(rules: &Vec<RoutingRule>) -> (r: Option<usize>)
    ensures
        match r {
            Some(i) => i < rules@.len() && is_api_rule_spec(rules@[i as int]) && forall|j: int|
                0 <= j < i ==> !is_api_rule_spec(#[trigger] rules@[j]),
            None => forall|j: int| 0 <= j < rules@.len() ==> !is_api_rule_spec(#[trigger] rules@[j]),
        },
{
    let mut i: usize = 0;
    while i < rules.len()
        invariant
            i <= rules@.len(),
            forall|j: int| 0 <= j < i ==> !is_api_rule_spec(#[trigger] rules@[j]),
        decreases rules.len() - i,
    {
        if is_api_routing_rule(&rules[i]) {
            return Some(i);
        }
        i = i + 1;
    }
    None
}

/// The routing rules with the `api` rule first: the one at `index` moved to
/// the front, or `default` put there when there is none; the other rules
/// keep their order.
pub fn pin_to_front<T>(rules: Vec<T>, index: Option<usize>, default: T) -> (r: Vec<T>)
    requires
        index matches Some(i) ==> i < rules@.len(),
    ensures
        match index {
            Some(i) => r@ == seq![rules@[i as int]] + rules@.remove(i as int),
            None => r@ == seq![default] + rules@,
        },
{
    let mut rules = rules;
    match index {
        Some(i) => {
            let ghost before = rules@;
            let x = rules.remove(i);
            rules.insert(0, x);
            assert(rules@ =~= seq![before[i as int]] + before.remove(i as int));
        },
        None => {
            let ghost before = rules@;
            rules.insert(0, default);
            assert(rules@ =~= seq![default] + before);
        },
    }
    rules
}

/// The rule added when none routes the `api` inbound: an object of type
/// `field` with outbound tag `api` and the one inbound tag `api`.
pub open spec fn is_default_api_rule(r: RoutingRule) -> bool {
    &&& r.is_object
    &&& opt_view(r.rule_type) == Some("field"@)
    &&& opt_view(r.outbound_tag) == Some("api"@)
    &&& r.inbound_tag matches InboundTag::List(ts) && ts@.len() == 1 && opt_view(ts@[0]) == Some("api"@)
}

/// The rule the application adds when the configuration has none routing
/// the `api` inbound: `{"type": "field", "inboundTag": ["api"],
/// "outboundTag": "api"}`.
pub fn api_rule() -> (r: RoutingRule)
    ensures
        is_api_rule_spec(r),
        is_default_api_rule(r),
{
    let mut ts: Vec<Option<String>> = Vec::new();
    ts.push(Some(copy_str("api")));
    assert(opt_view(ts@[0]) == Some("api"@));
    RoutingRule {
        is_object: true,
        rule_type: Some(copy_str("field")),
        outbound_tag: Some(copy_str("api")),
        inbound_tag: InboundTag::List(ts),
    }
}

/// The routing rules with the `api` rule first: the first rule that routes
/// the `api` inbound to the `api` outbound is moved to the front, or a new
/// one is put there; the other rules keep their order.
pub fn ensure_api_routing_rule(rules: Vec<RoutingRule>) -> (r: Vec<RoutingRule>)
    ensures
        r@.len() >= 1,
        is_api_rule_spec(r@[0]),
        match api_rule_position_spec(rules@) {
            Some(i) => r@ == seq![rules@[i]] + rules@.remove(i),
            None => r@.drop_first() == rules@ && is_default_api_rule(r@[0]),
        },
{
    let index = api_rule_position(&rules);
    let r = pin_to_front(rules, index, api_rule());
    proof {
        if index is None {
            assert(r@.drop_first() =~= rules@);
        }
    }
    r
}

/// The index of the first `api` rule, if any.
pub open spec fn api_rule_position_spec(rules: Seq<RoutingRule>) -> Option<int> {
    if exists|i: int| 0 <= i < rules.len() && is_api_rule_spec(#[trigger] rules[i]) {
        Some(choose|i: int| 0 <= i < rules.len() && is_api_rule_spec(#[trigger] rules[i]) && forall|j: int|
            0 <= j < i ==> !is_api_rule_spec(#[trigger] rules[j]))
    } else {
        None
    }
}

/// The address the panel tests outbounds with: the configured one unless
/// it is missing or blank.
pub open spec fn outbound_test_url_spec(configured: Option<Seq<char>>) -> Seq<char> {
    match configured {
        Some(u) => if trim(u).len() > 0 {
            u
        } else {
            "https://www.google.com/generate_204"@
        },
        None => "https://www.google.com/generate_204"@,
    }
}

pub fn outbound_test_url(configured: Option<&str>) -> (r: String)
    ensures
        r@ == outbound_test_url_spec(
            match configured {
                Some(u) => Some(u@),
                None => None,
            },
        ),
{
    match configured {
        Some(u) => {
            let t = trim_str(u);
            if t.as_str().is_empty() {
                copy_str("https://www.google.com/generate_204")
            } else {
                copy_str(u)
            }
        },
        None => copy_str("https://www.google.com/generate_204"),
    }
}

/// The top-level keys by which a JSON object is taken for an Xray
/// configuration.
pub open spec fn is_xray_key(k: Seq<char>) -> bool {
    ||| k == "inbounds"@
    ||| k == "outbounds"@
    ||| k == "routing"@
    ||| k == "api"@
    ||| k == "dns"@
    ||| k == "log"@
    ||| k == "policy"@
    ||| k == "stats"@
}

/// Some key of the object is one of the Xray sections.
pub open spec fn has_xray_key(ks: Seq<String>) -> bool {
    exists|i: int| 0 <= i < ks.len() && is_xray_key(#[trigger] ks[i]@)
}

/// Does a JSON value look like an Xray configuration: an object (whose keys
/// are given) with at least one of the Xray sections?
pub fn is_xray_config(object_keys: Option<&Vec<String>>) -> (b: bool)
    ensures
        b == match object_keys {
            Some(ks) => has_xray_key(ks@),
            None => false,
        },
{
    let ks = match object_keys {
        Some(ks) => ks,
        None => {
            return false;
        },
    };
    let mut i: usize = 0;
    while i < ks.len()
        invariant
            object_keys == Some(ks),
            i <= ks@.len(),
            forall|j: int| 0 <= j < i ==> !is_xray_key(#[trigger] ks@[j]@),
        decreases ks.len() - i,
    {
        let k = ks[i].as_str();
        if str_eq(k, "inbounds") || str_eq(k, "outbounds") || str_eq(k, "routing") || str_eq(k, "api")
            || str_eq(k, "dns") || str_eq(k, "log") || str_eq(k, "policy") || str_eq(k, "stats") {
            assert(is_xray_key(ks@[i as int]@));
            assert(has_xray_key(ks@));
            return true;
        }
        i = i + 1;
    }
    false
}

/// Where the Xray configuration is in the panel's answer to a settings
/// request: the answer itself, or its `xraySetting` field.
#[derive(Clone, Copy, Debug, PartialEq, Eq, Structural)]
pub enum XrayConfigSource {
    Answer,
    XraySetting,
}

/// Why the panel's settings answer holds no Xray configuration.
#[derive(Clone, Copy, Debug, PartialEq, Eq, Structural)]
pub enum XraySettingsError {
    /// The answer is no configuration and has no `xraySetting`.
    MissingXraySetting,
    /// The `xraySetting` is no configuration either.
    NotXrayConfig,
}

impl XraySettingsError {
    pub fn message(&self) -> (m: &'static str)
        ensures
            m@ == match self {
                XraySettingsError::MissingXraySetting =>
                    "3x-ui Xray settings response did not include xraySetting"@,
                XraySettingsError::NotXrayConfig => "3x-ui xraySetting does not look like an Xray config"@,
            },
    {
        match self {
            XraySettingsError::MissingXraySetting => "3x-ui Xray settings response did not include xraySetting",
            XraySettingsError::NotXrayConfig => "3x-ui xraySetting does not look like an Xray config",
        }
    }
}

/// The answer is taken when it looks like an Xray configuration itself,
/// else its `xraySetting` when it has one.
pub open spec fn xray_source_spec(answer_keys: Option<Seq<String>>, has_xray_setting: bool) -> Result<
    XrayConfigSource,
    XraySettingsError,
> {
    if answer_keys matches Some(ks) && has_xray_key(ks) {
        Ok(XrayConfigSource::Answer)
    } else if has_xray_setting {
        Ok(XrayConfigSource::XraySetting)
    } else {
        Err(XraySettingsError::MissingXraySetting)
    }
}

/// Where to take the Xray configuration from, given the keys of the
/// (decoded) answer when it is an object, and whether it has an
/// `xraySetting` field.
pub fn xray_config_source(answer_keys: Option<&Vec<String>>, has_xray_setting: bool) -> (r: Result<
    XrayConfigSource,
    XraySettingsError,
>)
    ensures
        r == xray_source_spec(
            match answer_keys {
                Some(ks) => Some(ks@),
                None => None,
            },
            has_xray_setting,
        ),
{
    if is_xray_config(answer_keys) {
        Ok(XrayConfigSource::Answer)
    } else if has_xray_setting {
        Ok(XrayConfigSource::XraySetting)
    } else {
        Err(XraySettingsError::MissingXraySetting)
    }
}

/// The `xraySetting`, once decoded, must look like an Xray configuration.
pub fn check_xray_setting(setting_keys: Option<&Vec<String>>) -> (r: Result<(), XraySettingsError>)
    ensures
        r == (if setting_keys matches Some(ks) && has_xray_key(ks@) {
            Ok::<(), XraySettingsError>(())
        } else {
            Err(XraySettingsError::NotXrayConfig)
        }),
{
    if is_xray_config(setting_keys) {
        Ok(())
    } else {
        Err(XraySettingsError::NotXrayConfig)
    }
}

/// The UTC date (`%Y-%m-%d`) of a time in milliseconds since the Unix
/// epoch, as `chrono` writes it; none outside the range `chrono` covers.
pub uninterp spec fn utc_date_text(ms: i64) -> Option<Seq<char>>;

/// `DateTime::<Utc>::from_timestamp_millis(ms)` formatted with
/// `"%Y-%m-%d"`. The contract names the result and says nothing more of
/// it: `chrono`'s calendar arithmetic is not restated here.
#[verifier::external_body]
pub(crate) fn utc_date_of_millis(ms: i64) -> (r: Option<String>)
    ensures
        opt_view(r) == utc_date_text(ms),
{
    chrono::DateTime::<chrono::Utc>::from_timestamp_millis(ms).map(|t| t.format("%Y-%m-%d").to_string())
}

/// The expiry column: `Never` without an expiry time, else the date, or
/// `Invalid` when there is none for the time.
pub open spec fn expiry_label_spec(expiry_ms: i64, date: Option<Seq<char>>) -> Seq<char> {
    if expiry_ms <= 0 {
        "Never"@
    } else {
        match date {
            Some(d) => d,
            None => "Invalid"@,
        }
    }
}

pub fn expiry_label(expiry_ms: i64, date: Option<String>) -> (r: String)
    ensures
        r@ == expiry_label_spec(expiry_ms, opt_view(date)),
{
    if expiry_ms <= 0 {
        copy_str("Never")
    } else {
        match date {
            Some(d) => d,
            None => copy_str("Invalid"),
        }
    }
}

pub fn format_expiry(expiry_ms: i64) -> (r: String)
    ensures
        r@ == expiry_label_spec(expiry_ms, utc_date_text(expiry_ms)),
{
    if expiry_ms <= 0 {
        copy_str("Never")
    } else {
        expiry_label(expiry_ms, utc_date_of_millis(expiry_ms))
    }
}

/// The panel API that lists inbounds.
pub open spec fn inbounds_api() -> Seq<char> {
    "/panel/api/inbounds"@
}

/// `/panel/api/inbounds/{inbound}/{action}/{name}`, the name
/// percent-encoded: the path of a per-client action.
pub open spec fn client_action_path_spec(inbound_id: i64, action: Seq<char>, name: Seq<char>) -> Seq<char> {
    inbounds_api() + "/"@ + crate::text::int_decimal(inbound_id as int) + "/"@ + action + "/"@
        + percent_encode(vstd::utf8::encode_utf8(name))
}

pub fn client_action_path(inbound_id: i64, action: &str, name: &str) -> (r: String)
    ensures
        r@ == client_action_path_spec(inbound_id, action@, name@),
{
    let mut r = copy_str("/panel/api/inbounds");
    push_str(&mut r, "/");
    crate::text::push_decimal_i64(&mut r, inbound_id);
    push_str(&mut r, "/");
    push_str(&mut r, action);
    push_str(&mut r, "/");
    let enc = encode_component(name);
    push_str(&mut r, enc.as_str());
    r
}

/// The path that updates a client.
pub fn update_client_path(client_id: &str) -> (r: String)
    ensures
        r@ == inbounds_api() + "/updateClient/"@ + percent_encode(vstd::utf8::encode_utf8(client_id@)),
{
    let mut r = copy_str("/panel/api/inbounds");
    push_str(&mut r, "/updateClient/");
    let enc = encode_component(client_id);
    push_str(&mut r, enc.as_str());
    r
}

/// The path that reads one inbound.
pub fn get_inbound_path(inbound_id: i64) -> (r: String)
    ensures
        r@ == inbounds_api() + "/get/"@ + crate::text::int_decimal(inbound_id as int),
{
    let mut r = copy_str("/panel/api/inbounds");
    push_str(&mut r, "/get/");
    crate::text::push_decimal_i64(&mut r, inbound_id);
    r
}

} // verus!
