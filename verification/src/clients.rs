//! The panel's inbounds and clients as the application lists them: the
//! fields read from a client's JSON settings, the counters merged in from
//! the traffic records, each client's status and expiry, the lookup of a
//! client by its id, and the checks before a client is added. Reading the
//! panel's JSON into these records is the caller's part.
use vstd::prelude::*;
use crate::config::opt_view;
use crate::text::{copy_str, int_decimal, parse_i64_spec, parse_i64_str, push_decimal_i64, push_str, str_eq, trim, trim_str, lower_seq, lower_vec, chars_of, seq_eq};
use crate::three_x_ui::{
    client_identifier, client_identifier_spec, client_status_at, client_status_spec, client_total_bytes,
    client_total_spec, expiry_label_spec, format_expiry, now_millis, used_bytes, utc_date_text,
};

verus! {

// ---------------------------------------------------------------------
// Fields of a client's JSON settings
// ---------------------------------------------------------------------

/// A JSON value where the panel keeps a client field, as far as the
/// application reads it.
#[derive(Debug)]
pub enum FieldValue {
    Text(String),
    /// A number: its text, and its value when it is an integer that fits in
    /// an `i64`.
    Number(String, Option<i64>),
    Bool(bool),
    Other,
}

/// A field as text: a string, or a number's text.
pub open spec fn text_field(f: Option<FieldValue>) -> Option<Seq<char>> {
    match f {
        Some(FieldValue::Text(t)) => Some(t@),
        Some(FieldValue::Number(t, _)) => Some(t@),
        _ => None,
    }
}

pub fn string_field(f: &Option<FieldValue>) -> (r: Option<String>)
    ensures
        opt_view(r) == text_field(*f),
{
    match f {
        Some(FieldValue::Text(t)) => Some(t.clone()),
        Some(FieldValue::Number(t, _)) => Some(t.clone()),
        _ => None,
    }
}

/// A field as an integer: an integer number, or a string that parses as
/// one.
pub open spec fn integer_field(f: Option<FieldValue>) -> Option<i64> {
    match f {
        Some(FieldValue::Number(_, n)) => n,
        Some(FieldValue::Text(t)) => parse_i64_spec(t@),
        _ => None,
    }
}

pub fn number_field(f: &Option<FieldValue>) -> (r: Option<i64>)
    ensures
        r == integer_field(*f),
{
    match f {
        Some(FieldValue::Number(_, n)) => *n,
        Some(FieldValue::Text(t)) => parse_i64_str(t.as_str()),
        _ => None,
    }
}

/// A field as a flag: a boolean, or the string `true` or `false`.
pub open spec fn flag_field(f: Option<FieldValue>) -> Option<bool> {
    match f {
        Some(FieldValue::Bool(b)) => Some(b),
        Some(FieldValue::Text(t)) => if t@ == "true"@ {
            Some(true)
        } else if t@ == "false"@ {
            Some(false)
        } else {
            None
        },
        _ => None,
    }
}

pub fn bool_field(f: &Option<FieldValue>) -> (r: Option<bool>)
    ensures
        r == flag_field(*f),
{
    match f {
        Some(FieldValue::Bool(b)) => Some(*b),
        Some(FieldValue::Text(t)) => if str_eq(t.as_str(), "true") {
            Some(true)
        } else if str_eq(t.as_str(), "false") {
            Some(false)
        } else {
            None
        },
        _ => None,
    }
}

// ---------------------------------------------------------------------
// Inbounds and clients as the panel gives them
// ---------------------------------------------------------------------

/// A client's traffic record.
#[derive(Debug)]
pub struct RawClientTraffic {
    pub email: String,
    pub up: u64,
    pub down: u64,
    pub total: u64,
    pub expiry_time: i64,
    pub enable: Option<bool>,
}

/// The fields of a client's entry in the inbound's settings that the
/// application reads (none where the entry lacks the key).
#[derive(Debug)]
pub struct RawClient {
    pub id: Option<FieldValue>,
    pub password: Option<FieldValue>,
    pub email: Option<FieldValue>,
    pub total_gb: Option<FieldValue>,
    pub expiry_time: Option<FieldValue>,
    pub enable: Option<FieldValue>,
}

/// An inbound as the panel lists it; `clients` is none when its settings do
/// not hold a list of clients.
#[derive(Debug)]
pub struct RawInbound {
    pub id: i64,
    pub remark: String,
    pub port: u16,
    pub protocol: String,
    pub enable: bool,
    pub up: u64,
    pub down: u64,
    pub total: u64,
    pub clients: Option<Vec<RawClient>>,
    pub client_stats: Vec<RawClientTraffic>,
}

/// An inbound as the application shows it.
#[derive(Clone, Debug)]
pub struct ThreeXInbound {
    pub id: i64,
    pub remark: String,
    pub protocol: String,
    pub port: u16,
    pub enable: bool,
    pub up: u64,
    pub down: u64,
    pub total: u64,
    pub client_count: usize,
}

/// The inbound as shown: its clients counted from its settings, or from the
/// traffic records when the settings hold no list.
pub fn map_inbound(raw: &RawInbound) -> (r: ThreeXInbound)
    ensures
        r.id == raw.id,
        r.remark == raw.remark,
        r.protocol == raw.protocol,
        r.port == raw.port,
        r.enable == raw.enable,
        r.up == raw.up,
        r.down == raw.down,
        r.total == raw.total,
        r.client_count == match raw.clients {
            Some(cs) => cs@.len(),
            None => raw.client_stats@.len(),
        },
{
    ThreeXInbound {
        id: raw.id,
        remark: raw.remark.clone(),
        protocol: raw.protocol.clone(),
        port: raw.port,
        enable: raw.enable,
        up: raw.up,
        down: raw.down,
        total: raw.total,
        client_count: match &raw.clients {
            Some(cs) => cs.len(),
            None => raw.client_stats.len(),
        },
    }
}

// ---------------------------------------------------------------------
// Clients as the application shows them
// ---------------------------------------------------------------------

/// The traffic record of a client: the last record with its email, as a
/// map built from the records keeps it.
pub open spec fn traffic_of(stats: Seq<RawClientTraffic>, email: Seq<char>) -> Option<RawClientTraffic>
    decreases stats.len(),
{
    if stats.len() == 0 {
        None
    } else if stats.last().email@ == email {
        Some(stats.last())
    } else {
        traffic_of(stats.drop_last(), email)
    }
}

pub fn traffic_index(stats: &Vec<RawClientTraffic>, email: &str) -> (r: Option<usize>)
    ensures
        match r {
            Some(k) => k < stats@.len() && traffic_of(stats@, email@) == Some(stats@[k as int]),
            None => traffic_of(stats@, email@) is None,
        },
{
    let mut found: Option<usize> = None;
    let mut i: usize = 0;
    while i < stats.len()
        invariant
            i <= stats@.len(),
            match found {
                Some(k) => k < i && traffic_of(stats@.subrange(0, i as int), email@) == Some(stats@[k as int]),
                None => traffic_of(stats@.subrange(0, i as int), email@) is None,
            },
        decreases stats.len() - i,
    {
        let ghost now = stats@.subrange(0, i + 1);
        assert(now.drop_last() =~= stats@.subrange(0, i as int));
        if str_eq(stats[i].email.as_str(), email) {
            found = Some(i);
        }
        i = i + 1;
    }
    assert(stats@.subrange(0, stats@.len() as int) =~= stats@);
    found
}

/// A client of an inbound as the application shows it. Its share of the
/// traffic limit used is the caller's to compute from `up`, `down` and
/// `total`.
#[derive(Clone, Debug)]
pub struct ClientRow {
    pub id: String,
    pub email: String,
    pub inbound_id: i64,
    pub inbound_remark: String,
    pub protocol: String,
    pub port: u16,
    pub enable: bool,
    pub status: String,
    pub up: u64,
    pub down: u64,
    pub total: u64,
    pub expiry_time: i64,
    pub expiry: String,
}

pub open spec fn client_email(c: RawClient) -> Seq<char> {
    match text_field(c.email) {
        Some(e) => e,
        None => "unnamed"@,
    }
}

/// `row` is client `c` of inbound `inb` as shown at time `now_ms`: its
/// counters from its traffic record (zero without one), its limit and
/// expiry from its settings or else the record, enabled unless the
/// settings or the record say otherwise.
pub open spec fn is_client_row(inb: RawInbound, c: RawClient, now_ms: i64, row: ClientRow) -> bool {
    let email = client_email(c);
    let t = traffic_of(inb.client_stats@, email);
    let up: u64 = match t {
        Some(x) => x.up,
        None => 0,
    };
    let down: u64 = match t {
        Some(x) => x.down,
        None => 0,
    };
    let total = client_total_spec(
        integer_field(c.total_gb),
        match t {
            Some(x) => Some(x.total),
            None => None,
        },
    );
    let expiry: i64 = match integer_field(c.expiry_time) {
        Some(e) => e,
        None => match t {
            Some(x) => x.expiry_time,
            None => 0,
        },
    };
    let enable = match flag_field(c.enable) {
        Some(b) => b,
        None => match t {
            Some(x) => match x.enable {
                Some(b) => b,
                None => true,
            },
            None => true,
        },
    };
    let used: u64 = if up + down > u64::MAX {
        u64::MAX
    } else {
        (up + down) as u64
    };
    &&& row.id@ == client_identifier_spec(
        inb.protocol@,
        text_field(c.id),
        text_field(c.password),
        text_field(c.email),
    )
    &&& row.email@ == email
    &&& row.inbound_id == inb.id
    &&& row.inbound_remark == inb.remark
    &&& row.protocol == inb.protocol
    &&& row.port == inb.port
    &&& row.enable == enable
    &&& row.status@ == client_status_spec(enable, total, used, expiry, now_ms)
    &&& row.up == up
    &&& row.down == down
    &&& row.total == total
    &&& row.expiry_time == expiry
    &&& row.expiry@ == expiry_label_spec(expiry, utc_date_text(expiry))
}

pub fn map_client(inb: &RawInbound, c: &RawClient, now_ms: i64) -> (row: ClientRow)
    ensures
        is_client_row(*inb, *c, now_ms, row),
{
    let email = match string_field(&c.email) {
        Some(e) => e,
        None => copy_str("unnamed"),
    };
    let t = traffic_index(&inb.client_stats, email.as_str());
    let (up, down, traffic_total, traffic_expiry, traffic_enable) = match t {
        Some(k) => {
            let x = &inb.client_stats[k];
            (x.up, x.down, Some(x.total), Some(x.expiry_time), Some(x.enable))
        },
        None => (0, 0, None, None, None),
    };
    let total = client_total_bytes(number_field(&c.total_gb), traffic_total);
    let expiry_time = match number_field(&c.expiry_time) {
        Some(e) => e,
        None => match traffic_expiry {
            Some(e) => e,
            None => 0,
        },
    };
    let enable = match bool_field(&c.enable) {
        Some(b) => b,
        None => match traffic_enable {
            Some(Some(b)) => b,
            _ => true,
        },
    };
    let used = used_bytes(up, down);
    let id = client_identifier(
        inb.protocol.as_str(),
        &string_field(&c.id),
        &string_field(&c.password),
        &string_field(&c.email),
    );
    ClientRow {
        id,
        email,
        inbound_id: inb.id,
        inbound_remark: inb.remark.clone(),
        protocol: inb.protocol.clone(),
        port: inb.port,
        enable,
        status: client_status_at(enable, total, used, expiry_time, now_ms),
        up,
        down,
        total,
        expiry_time,
        expiry: format_expiry(expiry_time),
    }
}

/// `rows` are the inbound's clients as shown at time `now_ms`, in the order
/// of its settings; none when the settings hold no list.
pub open spec fn are_client_rows(inb: RawInbound, now_ms: i64, rows: Seq<ClientRow>) -> bool {
    &&& rows.len() == match inb.clients {
        Some(cs) => cs@.len(),
        None => 0,
    }
    &&& forall|i: int|
        0 <= i < rows.len() ==> is_client_row(inb, inb.clients->0@[i], now_ms, #[trigger] rows[i])
}

pub fn map_clients_at(inb: &RawInbound, now_ms: i64) -> (rows: Vec<ClientRow>)
    ensures
        are_client_rows(*inb, now_ms, rows@),
{
    let mut rows: Vec<ClientRow> = Vec::new();
    match &inb.clients {
        Some(cs) => {
            let mut i: usize = 0;
            while i < cs.len()
                invariant
                    inb.clients == Some(*cs),
                    i <= cs@.len(),
                    rows@.len() == i,
                    forall|j: int| 0 <= j < i ==> is_client_row(*inb, cs@[j], now_ms, #[trigger] rows@[j]),
                decreases cs.len() - i,
            {
                rows.push(map_client(inb, &cs[i], now_ms));
                i = i + 1;
            }
        },
        None => {},
    }
    rows
}

/// The inbound's clients as shown now.
pub fn map_clients(inb: &RawInbound) -> (rows: Vec<ClientRow>)
    ensures
        exists|now_ms: i64| #[trigger] are_client_rows(*inb, now_ms, rows@),
{
    let now = now_millis();
    map_clients_at(inb, now)
}

/// The id the application knows client `c` of the inbound by.
pub open spec fn client_id_of(inb: RawInbound, c: RawClient) -> Seq<char> {
    client_identifier_spec(inb.protocol@, text_field(c.id), text_field(c.password), text_field(c.email))
}

/// The first client of the inbound known by `client_id`, or the error the
/// application shows.
pub fn find_client(inb: &RawInbound, client_id: &str) -> (r: Result<usize, String>)
    ensures
        match r {
            Ok(k) => inb.clients matches Some(cs) && k < cs@.len() && client_id_of(*inb, cs@[k as int])
                == client_id@ && forall|j: int|
                0 <= j < k ==> client_id_of(*inb, #[trigger] cs@[j]) != client_id@,
            Err(m) => (match inb.clients {
                Some(cs) => forall|j: int|
                    0 <= j < cs@.len() ==> client_id_of(*inb, #[trigger] cs@[j]) != client_id@,
                None => true,
            }) && m@ == "client '"@ + client_id@ + "' was not found in inbound "@ + int_decimal(
                inb.id as int,
            ),
        },
{
    match &inb.clients {
        Some(cs) => {
            let mut i: usize = 0;
            while i < cs.len()
                invariant
                    inb.clients == Some(*cs),
                    i <= cs@.len(),
                    forall|j: int| 0 <= j < i ==> client_id_of(*inb, #[trigger] cs@[j]) != client_id@,
                decreases cs.len() - i,
            {
                let c = &cs[i];
                let id = client_identifier(
                    inb.protocol.as_str(),
                    &string_field(&c.id),
                    &string_field(&c.password),
                    &string_field(&c.email),
                );
                if str_eq(id.as_str(), client_id) {
                    return Ok(i);
                }
                i = i + 1;
            }
        },
        None => {},
    }
    let mut m = copy_str("client '");
    push_str(&mut m, client_id);
    push_str(&mut m, "' was not found in inbound ");
    push_decimal_i64(&mut m, inb.id);
    Err(m)
}

/// The ids of the clients with the given status, in order: the expired
/// ones whose traffic is reset, or the disabled ones that are deleted.
pub open spec fn ids_with_status(rows: Seq<ClientRow>, status: Seq<char>) -> Seq<Seq<char>>
    decreases rows.len(),
{
    if rows.len() == 0 {
        seq![]
    } else if rows.last().status@ == status {
        ids_with_status(rows.drop_last(), status).push(rows.last().id@)
    } else {
        ids_with_status(rows.drop_last(), status)
    }
}

pub fn client_ids_with_status(rows: &Vec<ClientRow>, status: &str) -> (r: Vec<String>)
    ensures
        r@.map_values(|s: String| s@) == ids_with_status(rows@, status@),
{
    let mut r: Vec<String> = Vec::new();
    let mut i: usize = 0;
    while i < rows.len()
        invariant
            i <= rows@.len(),
            r@.map_values(|s: String| s@) == ids_with_status(rows@.subrange(0, i as int), status@),
        decreases rows.len() - i,
    {
        let ghost now = rows@.subrange(0, i + 1);
        assert(now.drop_last() =~= rows@.subrange(0, i as int));
        if str_eq(rows[i].status.as_str(), status) {
            let ghost r0 = r@;
            r.push(rows[i].id.clone());
            assert(r@.map_values(|s: String| s@) =~= r0.map_values(|s: String| s@).push(rows@[i as int].id@));
        }
        i = i + 1;
    }
    assert(rows@.subrange(0, rows@.len() as int) =~= rows@);
    r
}

// ---------------------------------------------------------------------
// Adding a client
// ---------------------------------------------------------------------

/// Where a new client's generated secret goes: its `password` for Trojan,
/// its `id` (with `alterId` 0 and the inbound's default flow) otherwise.
#[derive(Debug, PartialEq, Eq, Structural, Clone, Copy)]
pub enum ClientSecret {
    Password,
    Id,
}

/// The checks before a client is added: its name, trimmed, must not be
/// blank; Shadowsocks inbounds take no clients of their own.
pub open spec fn new_client_check(protocol: Seq<char>, name: Seq<char>) -> Result<(Seq<char>, ClientSecret), Seq<char>> {
    if trim(name).len() == 0 {
        Err("client name cannot be empty"@)
    } else if lower_seq(protocol) == "trojan"@ {
        Ok((trim(name), ClientSecret::Password))
    } else if lower_seq(protocol) == "shadowsocks"@ {
        Err("Adding clients to a Shadowsocks inbound is not supported: Shadowsocks inbounds share a single password defined on the inbound itself."@)
    } else {
        Ok((trim(name), ClientSecret::Id))
    }
}

pub fn check_new_client(protocol: &str, name: &str) -> (r: Result<(String, ClientSecret), String>)
    ensures
        match r {
            Ok((n, k)) => new_client_check(protocol@, name@) == Ok::<(Seq<char>, ClientSecret), Seq<char>>((n@, k)),
            Err(m) => new_client_check(protocol@, name@) == Err::<(Seq<char>, ClientSecret), Seq<char>>(m@),
        },
{
    let email = trim_str(name);
    if email.as_str().is_empty() {
        return Err(copy_str("client name cannot be empty"));
    }
    let p = lower_vec(&chars_of(protocol));
    if seq_eq(&p, &chars_of("trojan")) {
        Ok((email, ClientSecret::Password))
    } else if seq_eq(&p, &chars_of("shadowsocks")) {
        Err(copy_str(
            "Adding clients to a Shadowsocks inbound is not supported: Shadowsocks inbounds share a single password defined on the inbound itself.",
        ))
    } else {
        Ok((email, ClientSecret::Id))
    }
}


/// A new client's entry in the inbound's settings: its name, no IP limit,
/// its traffic limit in bytes (0 for none) and expiry time (0 for none),
/// enabled, no Telegram id, its subscription id, no comment, no reset
/// period, and its secret: a `password` (with an empty `flow`) for Trojan,
/// else an `id` (with `alterId` 0 and the inbound's default `flow`).
#[derive(Debug)]
pub struct ClientDoc {
    pub email: String,
    pub limit_ip: u64,
    pub total_gb: u64,
    pub expiry_time: i64,
    pub enable: bool,
    pub tg_id: String,
    pub sub_id: String,
    pub comment: String,
    pub reset: u64,
    pub password: Option<String>,
    pub id: Option<String>,
    pub alter_id: Option<i64>,
    pub flow: String,
}

/// The expiry time of a client added for `expire_days` days at `now_ms`:
/// none (0) unless the number of days is positive.
pub fn client_expiry(expire_days: i64, now_ms: i64) -> (r: i64)
    requires
        expire_days <= 0 || now_ms + expire_days * 86_400_000 <= i64::MAX,
    ensures
        r == if expire_days <= 0 {
            0
        } else {
            now_ms + expire_days * 86_400_000
        },
{
    if expire_days <= 0 {
        0
    } else {
        assert(expire_days * 86_400_000 <= 86_400_000 * i64::MAX) by (nonlinear_arith)
            requires
                expire_days <= i64::MAX;
        assert(expire_days * 86_400_000 >= 0) by (nonlinear_arith)
            requires
                expire_days > 0;
        let v: i128 = now_ms as i128 + (expire_days as i128) * 86_400_000;
        v as i64
    }
}

/// The entry of a client added to an inbound of `protocol` under `name`,
/// with the generated `client_id` and `sub_id`; the refusals are those of
/// `new_client_check`.
pub fn new_client_doc(
    protocol: &str,
    name: &str,
    total_bytes: u64,
    expiry_time: i64,
    client_id: String,
    sub_id: String,
    inbound_flow: String,
) -> (r: Result<ClientDoc, String>)
    ensures
        match new_client_check(protocol@, name@) {
            Err(m) => r matches Err(e) && e@ == m,
            Ok((email, kind)) => r matches Ok(d) && d.email@ == email && d.limit_ip == 0 && d.total_gb
                == total_bytes && d.expiry_time == expiry_time && d.enable && d.tg_id@ == ""@ && d.sub_id
                == sub_id && d.comment@ == ""@ && d.reset == 0 && match kind {
                ClientSecret::Password => d.password == Some(client_id) && d.id is None && d.alter_id is None
                    && d.flow@ == ""@,
                ClientSecret::Id => d.id == Some(client_id) && d.password is None && d.alter_id == Some(0i64)
                    && d.flow == inbound_flow,
            },
        },
{
    let (email, kind) = match check_new_client(protocol, name) {
        Ok(x) => x,
        Err(m) => {
            return Err(m);
        },
    };
    proof {
        reveal_strlit("");
    }
    match kind {
        ClientSecret::Password => Ok(ClientDoc {
            email,
            limit_ip: 0,
            total_gb: total_bytes,
            expiry_time,
            enable: true,
            tg_id: String::new(),
            sub_id,
            comment: String::new(),
            reset: 0,
            password: Some(client_id),
            id: None,
            alter_id: None,
            flow: String::new(),
        }),
        ClientSecret::Id => Ok(ClientDoc {
            email,
            limit_ip: 0,
            total_gb: total_bytes,
            expiry_time,
            enable: true,
            tg_id: String::new(),
            sub_id,
            comment: String::new(),
            reset: 0,
            password: None,
            id: Some(client_id),
            alter_id: Some(0),
            flow: inbound_flow,
        }),
    }
}

/// The first client shown with the id the new client was given; the
/// error the application shows when the panel did not return it.
pub fn added_client_index(rows: &Vec<ClientRow>, client_id: &str) -> (r: Result<usize, String>)
    ensures
        match r {
            Ok(k) => k < rows@.len() && rows@[k as int].id@ == client_id@ && forall|j: int|
                0 <= j < k ==> (#[trigger] rows@[j]).id@ != client_id@,
            Err(m) => m@ == "client was added but was not returned by 3x-ui"@ && forall|j: int|
                0 <= j < rows@.len() ==> (#[trigger] rows@[j]).id@ != client_id@,
        },
{
    let mut i: usize = 0;
    while i < rows.len()
        invariant
            i <= rows@.len(),
            forall|j: int| 0 <= j < i ==> (#[trigger] rows@[j]).id@ != client_id@,
        decreases rows.len() - i,
    {
        if str_eq(rows[i].id.as_str(), client_id) {
            return Ok(i);
        }
        i = i + 1;
    }
    Err(copy_str("client was added but was not returned by 3x-ui"))
}

} // verus!
