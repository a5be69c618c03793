//! The TLS certificates on a server: the script that reports them, the
//! reading of its report, each certificate's status, and the list as the
//! application shows it, one entry per set of names, soonest expiry first.
//! Running the script is the caller's part.
use vstd::prelude::*;
use crate::text::{
    chars_of, copy_str, lines, push_char, push_str, shell_single_quote, single_quoted, split_lines,
    split_on, split_on_char, split_words, starts_with, starts_with_str, str_eq, string_of, string_of_range,
    string_views, strip_suffixes, trim, trim_end_matches_str, trim_str, views, words,
};
use crate::three_x_ui::now_millis;

verus! {

/// The days before expiry from which a long-lived certificate counts as
/// expiring.
pub const EXPIRING_SOON_DAYS: i64 = 30;

pub open spec fn list_script_header() -> Seq<char> {
    LIST_SCRIPT_HEADER@
}

/// The part of the listing script that reports Certbot, the 3x-ui CLI's
/// certificates, the panel's own and nginx's.
pub const LIST_SCRIPT_HEADER: &'static str = "
if command -v certbot >/dev/null 2>&1; then
  echo \"CERTBOT_INSTALLED=1\"
else
  echo \"CERTBOT_INSTALLED=0\"
fi
report_cert() {
  name=\"$1\"
  cert=\"$2\"
  [ -f \"$cert\" ] || return
  case \"$cert\" in
    /etc/letsencrypt/*) source_tag=\"certbot\" ;;
    /root/cert/*) source_tag=\"acmeSh\" ;;
    *) source_tag=\"unknown\" ;;
  esac
  # Include IP-address SANs too, not just DNS names — 3x-ui's IP-address
  # certs (issued via the x-ui CLI, see /root/cert/ip below) have no domain
  # at all, so without this the identifier acme.sh needs to renew them is
  # silently lost and the UI falls back to a useless directory-name guess.
  domains=$(openssl x509 -in \"$cert\" -noout -ext subjectAltName 2>/dev/null | grep -oE '(DNS|IP Address):[^,]*' | sed -E 's/^(DNS|IP Address)://' | tr '\\n' ' ' | sed 's/ *$//')
  issuer=$(openssl x509 -in \"$cert\" -noout -issuer 2>/dev/null | sed 's/^issuer=//')
  startdate=$(openssl x509 -in \"$cert\" -noout -startdate 2>/dev/null | sed 's/^notBefore=//')
  enddate=$(openssl x509 -in \"$cert\" -noout -enddate 2>/dev/null | sed 's/^notAfter=//')
  printf 'CERT\\t%s\\t%s\\t%s\\t%s\\t%s\\t%s\\n' \"$name\" \"$domains\" \"$issuer\" \"$startdate\" \"$enddate\" \"$source_tag\"
}
for d in /etc/letsencrypt/live/*/; do
  [ -d \"$d\" ] || continue
  name=$(basename \"$d\")
  [ \"$name\" = \"README\" ] && continue
  report_cert \"$name\" \"${d}cert.pem\"
done
# 3x-ui's own CLI (x-ui menu 20 -> \"Get SSL (Domain)\" / \"Get SSL for IP
# Address\") issues certs via acme.sh straight to /root/cert/<domain-or-\"ip\">/,
# independent of whether that cert was ever registered as the panel's active
# cert (that's an extra confirmation step in the CLI flow) — so check here
# even if the settings-table lookup below finds nothing.
for d in /root/cert/*/; do
  [ -d \"$d\" ] || continue
  name=$(basename \"$d\")
  report_cert \"$name\" \"${d}fullchain.pem\"
done
# 3x-ui v3+: the panel's own web UI cert and the subscription-link server's
# cert (Panel Settings > Panel Certificate / Subscription Certificate) live
# as plain rows in its settings table, not under any Xray inbound, so pull
# them out directly if the panel's local DB is present.
if command -v sqlite3 >/dev/null 2>&1 && [ -f /etc/x-ui/x-ui.db ]; then
  sqlite3 /etc/x-ui/x-ui.db \"SELECT value FROM settings WHERE key IN ('webCertFile','subCertFile') AND value != '';\" 2>/dev/null | while IFS= read -r p; do
    [ -n \"$p\" ] && report_cert \"$(basename \"$(dirname \"$p\")\")\" \"$p\"
  done
fi
# Panels reached only by bare IP have no domain to issue a CA cert for, so
# they're commonly reverse-proxied behind nginx with a manually-placed or
# self-signed cert instead — not managed by Certbot, not in the 3x-ui
# settings table. Pull whatever nginx is actually configured to terminate.
if [ -d /etc/nginx ]; then
  grep -rhoE '^[[:space:]]*ssl_certificate[[:space:]]+[^;]+;' /etc/nginx 2>/dev/null \\
    | grep -v '^[[:space:]]*#' \\
    | sed -E 's/^[[:space:]]*ssl_certificate[[:space:]]+//; s/;[[:space:]]*$//; s/^\"//; s/\"$//' \\
    | while IFS= read -r p; do
        [ -n \"$p\" ] && report_cert \"$(basename \"$(dirname \"$p\")\")\" \"$p\"
      done
fi
";

/// The line that reports one more certificate file, named after its
/// directory.
pub open spec fn report_line(path: Seq<char>) -> Seq<char> {
    "report_cert \"$(basename \"$(dirname "@ + single_quoted(path) + ")\")\" "@ + single_quoted(path)
        + "\n"@
}

pub open spec fn report_lines(paths: Seq<Seq<char>>) -> Seq<char>
    decreases paths.len(),
{
    if paths.len() == 0 {
        seq![]
    } else {
        report_lines(paths.drop_last()) + report_line(paths.last())
    }
}

/// The listing script: the header, then a report line for each extra
/// certificate file (those the panel's inbounds name).
pub fn build_list_script(extra_cert_paths: &Vec<String>) -> (r: String)
    ensures
        r@ == list_script_header() + report_lines(string_views(extra_cert_paths@)),
{
    let mut script = copy_str(LIST_SCRIPT_HEADER);
    let mut i: usize = 0;
    while i < extra_cert_paths.len()
        invariant
            i <= extra_cert_paths@.len(),
            script@ == list_script_header() + report_lines(string_views(extra_cert_paths@.subrange(0, i as int))),
        decreases extra_cert_paths.len() - i,
    {
        let q = shell_single_quote(extra_cert_paths[i].as_str());
        let ghost before = script@;
        push_str(&mut script, "report_cert \"$(basename \"$(dirname ");
        push_str(&mut script, q.as_str());
        push_str(&mut script, ")\")\" ");
        push_str(&mut script, q.as_str());
        push_str(&mut script, "\n");
        let ghost now = string_views(extra_cert_paths@.subrange(0, i + 1));
        assert(now.drop_last() =~= string_views(extra_cert_paths@.subrange(0, i as int)));
        assert(now.last() == extra_cert_paths@[i as int]@);
        assert(script@ =~= before + report_line(now.last()));
        i = i + 1;
    }
    assert(extra_cert_paths@.subrange(0, extra_cert_paths@.len() as int) =~= extra_cert_paths@);
    script
}

// ---------------------------------------------------------------------
// Status
// ---------------------------------------------------------------------

pub open spec fn nanos(secs: i64) -> int {
    secs * 1_000_000_000
}

/// Division by three rounded toward zero, as a duration is divided.
pub open spec fn third(x: int) -> int {
    if x >= 0 {
        x / 3
    } else {
        -((-x) / 3)
    }
}

/// The margin before expiry in which a certificate counts as expiring: a
/// third of its lifetime, at most thirty days; thirty days when its start
/// is unknown.
pub open spec fn expiring_window(issued: Option<i64>, expires: i64) -> int {
    let cap = EXPIRING_SOON_DAYS * 86_400_000_000_000;
    match issued {
        Some(i) => {
            let t = third(nanos(expires) - nanos(i));
            if t < cap {
                t
            } else {
                cap
            }
        },
        None => cap,
    }
}

/// A certificate's status at `now` (nanoseconds since the Unix epoch):
/// `unknown` without an expiry date, else `expired`, `expiring` or `valid`.
pub open spec fn cert_status(issued: Option<i64>, expires: Option<i64>, now: i128) -> Seq<char> {
    match expires {
        None => "unknown"@,
        Some(e) => if nanos(e) <= now {
            "expired"@
        } else if nanos(e) <= now + expiring_window(issued, e) {
            "expiring"@
        } else {
            "valid"@
        },
    }
}

pub fn status_at(issued: Option<i64>, expires: Option<i64>, now: i128) -> (r: String)
    ensures
        r@ == cert_status(issued, expires, now),
{
    let e = match expires {
        None => {
            return copy_str("unknown");
        },
        Some(e) => e,
    };
    let en: i128 = (e as i128) * 1_000_000_000;
    if en <= now {
        return copy_str("expired");
    }
    let cap: i128 = 30 * 86_400_000_000_000;
    let window: i128 = match issued {
        Some(i) => {
            let d: i128 = en - (i as i128) * 1_000_000_000;
            let t: i128 = if d >= 0 {
                d / 3
            } else {
                -((-d) / 3)
            };
            if t < cap {
                t
            } else {
                cap
            }
        },
        None => cap,
    };
    if window < 0 {
        copy_str("valid")
    } else if now > i128::MAX - window || en <= now + window {
        copy_str("expiring")
    } else {
        copy_str("valid")
    }
}


// ---------------------------------------------------------------------
// Reading the report
// ---------------------------------------------------------------------

/// The seconds since the Unix epoch of a date as `openssl x509` prints it
/// (`%b %e %H:%M:%S %Y`, taken as UTC), as `chrono` reads it; none when it
/// does not parse.
pub uninterp spec fn openssl_date_seconds(text: Seq<char>) -> Option<i64>;

/// `NaiveDateTime::parse_from_str(text, "%b %e %H:%M:%S %Y")`, taken as
/// UTC, in seconds. The contract names the result: `chrono`'s reading of
/// month names and calendar dates is not restated.
#[verifier::external_body]
fn parse_openssl_date_text(text: &str) -> (r: Option<i64>)
    ensures
        r == openssl_date_seconds(text@),
{
    match chrono::NaiveDateTime::parse_from_str(text, "%b %e %H:%M:%S %Y") {
        Ok(naive) => Some(naive.and_utc().timestamp()),
        Err(_) => None,
    }
}

/// A report date: trimmed, a trailing `GMT` removed, trimmed again.
pub open spec fn openssl_date(raw: Seq<char>) -> Option<i64> {
    openssl_date_seconds(trim(strip_suffixes(trim(raw), "GMT"@)))
}

pub fn parse_openssl_date(raw: &str) -> (r: Option<i64>)
    ensures
        r == openssl_date(raw@),
{
    let t = trim_str(raw);
    let u = trim_end_matches_str(t.as_str(), "GMT");
    let w = trim_str(u.as_str());
    parse_openssl_date_text(w.as_str())
}

/// A certificate as the application shows it. Dates are seconds since the
/// Unix epoch.
#[derive(Clone, Debug)]
pub struct SslCertificate {
    pub cert_name: String,
    pub domains: Vec<String>,
    pub issuer: String,
    pub issued_at: Option<i64>,
    pub expires_at: Option<i64>,
    pub status: String,
    pub source: String,
}

/// The tool that manages a certificate, from the report's tag.
pub open spec fn source_of(tag: Seq<char>) -> Seq<char> {
    if tag == "certbot"@ {
        "certbot"@
    } else if tag == "acmeSh"@ {
        "acmeSh"@
    } else {
        "unknown"@
    }
}

/// The value of a `CERTBOT_INSTALLED=` line, whether Certbot is installed;
/// none for other lines.
pub open spec fn installed_line(line: Seq<char>) -> Option<bool> {
    if starts_with(line, "CERTBOT_INSTALLED="@) {
        Some(trim(line.skip(18)) == "1"@)
    } else {
        None
    }
}

/// The six fields of a `CERT` line; none for other lines and for lines
/// with another number of fields.
pub open spec fn cert_fields(line: Seq<char>) -> Option<Seq<Seq<char>>> {
    if starts_with(line, "CERT\t"@) && split_on(line.skip(5), '\t').len() == 6 {
        Some(split_on(line.skip(5), '\t'))
    } else {
        None
    }
}

/// Whether Certbot is installed, by the report's last line that says so;
/// not without one.
pub open spec fn report_installed(ls: Seq<Seq<char>>) -> bool
    decreases ls.len(),
{
    if ls.len() == 0 {
        false
    } else {
        match installed_line(ls.last()) {
            Some(b) => b,
            None => report_installed(ls.drop_last()),
        }
    }
}

/// The fields of the report's certificate lines, in order.
pub open spec fn report_cert_fields(ls: Seq<Seq<char>>) -> Seq<Seq<Seq<char>>>
    decreases ls.len(),
{
    if ls.len() == 0 {
        seq![]
    } else {
        let r = report_cert_fields(ls.drop_last());
        match installed_line(ls.last()) {
            Some(_) => r,
            None => match cert_fields(ls.last()) {
                Some(f) => r.push(f),
                None => r,
            },
        }
    }
}

/// `c` is the certificate a line's six fields describe, with its status at
/// `now`: its name trimmed, its names (the directory's name when it has
/// none), its issuer trimmed, its dates, and the tool that manages it.
pub open spec fn is_cert_from(f: Seq<Seq<char>>, now: i128, c: SslCertificate) -> bool {
    let name = trim(f[0]);
    let issued = openssl_date(f[3]);
    let expires = openssl_date(f[4]);
    &&& c.cert_name@ == name
    &&& string_views(c.domains@) == if words(f[1]).len() == 0 {
        seq![name]
    } else {
        words(f[1])
    }
    &&& c.issuer@ == trim(f[2])
    &&& c.issued_at == issued
    &&& c.expires_at == expires
    &&& c.status@ == cert_status(issued, expires, now)
    &&& c.source@ == source_of(trim(f[5]))
}

fn cert_from_fields(f: &Vec<Vec<char>>, now: i128) -> (c: SslCertificate)
    requires
        f@.len() == 6,
    ensures
        is_cert_from(views(f@), now, c),
{
    let ghost fv = views(f@);
    assert(fv[0] == f@[0]@ && fv[1] == f@[1]@ && fv[2] == f@[2]@);
    assert(fv[3] == f@[3]@ && fv[4] == f@[4]@ && fv[5] == f@[5]@);
    let name = trim_str(string_of(&f[0]).as_str());
    let ws = split_words(string_of(&f[1]).as_str());
    let mut domains: Vec<String> = Vec::new();
    let mut i: usize = 0;
    while i < ws.len()
        invariant
            i <= ws@.len(),
            string_views(domains@) == views(ws@).subrange(0, i as int),
        decreases ws.len() - i,
    {
        let ghost d0 = string_views(domains@);
        let w = string_of(&ws[i]);
        assert(w@ == views(ws@)[i as int]);
        domains.push(w);
        assert(string_views(domains@) =~= d0.push(w@));
        assert(string_views(domains@) =~= views(ws@).subrange(0, i + 1));
        i = i + 1;
    }
    assert(views(ws@).subrange(0, ws@.len() as int) =~= views(ws@));
    if domains.len() == 0 {
        domains.push(name.clone());
        assert(string_views(domains@) =~= seq![name@]);
    }
    let issuer = trim_str(string_of(&f[2]).as_str());
    let issued_at = parse_openssl_date(string_of(&f[3]).as_str());
    let expires_at = parse_openssl_date(string_of(&f[4]).as_str());
    let status = status_at(issued_at, expires_at, now);
    let tag = trim_str(string_of(&f[5]).as_str());
    let source = if str_eq(tag.as_str(), "certbot") {
        copy_str("certbot")
    } else if str_eq(tag.as_str(), "acmeSh") {
        copy_str("acmeSh")
    } else {
        copy_str("unknown")
    };
    SslCertificate { cert_name: name, domains, issuer, issued_at, expires_at, status, source }
}

/// Reads the report: whether Certbot is installed, and the certificates of
/// its `CERT` lines in order, with their status at `now`.
pub fn parse_certificate_report(output: &str, now: i128) -> (r: (bool, Vec<SslCertificate>))
    ensures
        r.0 == report_installed(lines(output@)),
        r.1@.len() == report_cert_fields(lines(output@)).len(),
        forall|i: int|
            0 <= i < r.1@.len() ==> is_cert_from(report_cert_fields(lines(output@))[i], now, #[trigger] r.1@[i]),
{
    let ls = split_lines(output);
    let ghost all = views(ls@);
    let mut installed = false;
    let mut certs: Vec<SslCertificate> = Vec::new();
    let mut i: usize = 0;
    while i < ls.len()
        invariant
            all == views(ls@),
            all == lines(output@),
            i <= ls@.len(),
            installed == report_installed(all.subrange(0, i as int)),
            certs@.len() == report_cert_fields(all.subrange(0, i as int)).len(),
            forall|k: int|
                0 <= k < certs@.len() ==> is_cert_from(
                    report_cert_fields(all.subrange(0, i as int))[k],
                    now,
                    #[trigger] certs@[k],
                ),
        decreases ls.len() - i,
    {
        let line = &ls[i];
        let ghost pre = all.subrange(0, i as int);
        let ghost now_ls = all.subrange(0, i + 1);
        assert(now_ls.drop_last() =~= pre);
        assert(now_ls.last() == line@);
        proof {
            reveal_strlit("CERTBOT_INSTALLED=");
            reveal_strlit("CERT\t");
        }
        if starts_with_str(line, "CERTBOT_INSTALLED=") {
            let rest = string_of_range(line, 18, line.len());
            assert(rest@ =~= line@.skip(18));
            let t = trim_str(rest.as_str());
            installed = str_eq(t.as_str(), "1");
        } else if starts_with_str(line, "CERT\t") {
            let fs = split_on_char(line, 5, '\t');
            if fs.len() == 6 {
                let c = cert_from_fields(&fs, now);
                let ghost c0 = certs@;
                certs.push(c);
                assert forall|k: int| 0 <= k < certs@.len() implies is_cert_from(
                    report_cert_fields(now_ls)[k],
                    now,
                    #[trigger] certs@[k],
                ) by {
                    if k < c0.len() {
                        assert(certs@[k] == c0[k]);
                    }
                }
            }
        }
        i = i + 1;
    }
    assert(all.subrange(0, all.len() as int) =~= all);
    (installed, certs)
}


// ---------------------------------------------------------------------
// One entry per set of names, soonest expiry first
// ---------------------------------------------------------------------

/// How often `x` occurs in `s`.
pub open spec fn count_of(s: Seq<Seq<char>>, x: Seq<char>) -> nat
    decreases s.len(),
{
    if s.len() == 0 {
        0
    } else {
        count_of(s.drop_last(), x) + if s.last() == x {
            1nat
        } else {
            0nat
        }
    }
}

/// Two lists of names are the same once sorted: every name occurs as often
/// in one as in the other.
pub open spec fn same_names(a: Seq<Seq<char>>, b: Seq<Seq<char>>) -> bool {
    forall|x: Seq<char>| #[trigger] count_of(a, x) == count_of(b, x)
}

proof fn lemma_count_occurs(s: Seq<Seq<char>>, x: Seq<char>)
    requires
        count_of(s, x) > 0,
    ensures
        exists|i: int| 0 <= i < s.len() && s[i] == x,
    decreases s.len(),
{
    if s.last() == x {
        assert(s[s.len() - 1] == x);
    } else {
        lemma_count_occurs(s.drop_last(), x);
        let i = choose|i: int| 0 <= i < s.drop_last().len() && s.drop_last()[i] == x;
        assert(s[i] == x);
    }
}

fn count_in(v: &Vec<String>, x: &str) -> (n: usize)
    ensures
        n == count_of(string_views(v@), x@),
{
    let mut n: usize = 0;
    let mut i: usize = 0;
    while i < v.len()
        invariant
            i <= v@.len(),
            n <= i,
            n == count_of(string_views(v@.subrange(0, i as int)), x@),
        decreases v.len() - i,
    {
        let ghost now = string_views(v@.subrange(0, i + 1));
        assert(now.drop_last() =~= string_views(v@.subrange(0, i as int)));
        assert(now.last() == v@[i as int]@);
        if str_eq(v[i].as_str(), x) {
            n = n + 1;
        }
        i = i + 1;
    }
    assert(v@.subrange(0, v@.len() as int) =~= v@);
    n
}

fn same_names_exec(a: &Vec<String>, b: &Vec<String>) -> (r: bool)
    ensures
        r == same_names(string_views(a@), string_views(b@)),
{
    let ghost av = string_views(a@);
    let ghost bv = string_views(b@);
    let mut i: usize = 0;
    while i < a.len()
        invariant
            av == string_views(a@),
            bv == string_views(b@),
            i <= a@.len(),
            forall|k: int| 0 <= k < i ==> count_of(av, #[trigger] av[k]) == count_of(bv, av[k]),
        decreases a.len() - i,
    {
        let x = a[i].as_str();
        assert(av[i as int] == x@);
        if count_in(a, x) != count_in(b, x) {
            return false;
        }
        i = i + 1;
    }
    let mut j: usize = 0;
    while j < b.len()
        invariant
            av == string_views(a@),
            bv == string_views(b@),
            j <= b@.len(),
            forall|k: int| 0 <= k < a@.len() ==> count_of(av, #[trigger] av[k]) == count_of(bv, av[k]),
            forall|k: int| 0 <= k < j ==> count_of(bv, #[trigger] bv[k]) == count_of(av, bv[k]),
        decreases b.len() - j,
    {
        let x = b[j].as_str();
        assert(bv[j as int] == x@);
        if count_in(b, x) != count_in(a, x) {
            return false;
        }
        j = j + 1;
    }
    assert forall|x: Seq<char>| #[trigger] count_of(av, x) == count_of(bv, x) by {
        if count_of(av, x) > 0 {
            lemma_count_occurs(av, x);
            let k = choose|k: int| 0 <= k < av.len() && av[k] == x;
            assert(count_of(av, av[k]) == count_of(bv, av[k]));
        } else if count_of(bv, x) > 0 {
            lemma_count_occurs(bv, x);
            let k = choose|k: int| 0 <= k < bv.len() && bv[k] == x;
            assert(count_of(bv, bv[k]) == count_of(av, bv[k]));
        }
    }
    true
}

pub open spec fn names_of(c: SslCertificate) -> Seq<Seq<char>> {
    string_views(c.domains@)
}

/// Some certificate kept so far has the same names.
pub open spec fn names_seen(kept: Seq<SslCertificate>, names: Seq<Seq<char>>) -> bool {
    exists|k: int| 0 <= k < kept.len() && same_names(names_of(#[trigger] kept[k]), names)
}

/// The certificates with the first of each set of names kept, in order:
/// the same file found by two routes is listed once.
pub open spec fn dedupe_names(s: Seq<SslCertificate>) -> Seq<SslCertificate>
    decreases s.len(),
{
    if s.len() == 0 {
        seq![]
    } else {
        let d = dedupe_names(s.drop_last());
        if names_seen(d, names_of(s.last())) {
            d
        } else {
            d.push(s.last())
        }
    }
}

pub fn dedupe_certificates(certs: Vec<SslCertificate>) -> (r: Vec<SslCertificate>)
    ensures
        r@ == dedupe_names(certs@),
{
    let ghost all = certs@;
    let n = certs.len();
    let mut rest = certs;
    let mut out: Vec<SslCertificate> = Vec::new();
    let mut i: usize = 0;
    while rest.len() > 0
        invariant
            n == all.len(),
            i <= all.len(),
            rest@ == all.subrange(i as int, all.len() as int),
            out@ == dedupe_names(all.subrange(0, i as int)),
        decreases rest.len(),
    {
        let x = rest.remove(0);
        assert(x == all[i as int]);
        let ghost pre = all.subrange(0, i as int);
        let ghost now = all.subrange(0, i + 1);
        assert(now.drop_last() =~= pre);
        let mut seen = false;
        let mut k: usize = 0;
        while k < out.len()
            invariant
                k <= out@.len(),
                seen == exists|j: int| 0 <= j < k && same_names(names_of(#[trigger] out@[j]), names_of(x)),
            decreases out.len() - k,
        {
            if same_names_exec(&out[k].domains, &x.domains) {
                seen = true;
            }
            k = k + 1;
        }
        if !seen {
            out.push(x);
        }
        i = i + 1;
    }
    assert(all.subrange(0, all.len() as int) =~= all);
    out
}

/// `sort_by_key(|c| c.expires_at)`'s order: no date first, then earlier
/// dates first.
pub open spec fn expiry_le(a: Option<i64>, b: Option<i64>) -> bool {
    match (a, b) {
        (None, _) => true,
        (Some(_), None) => false,
        (Some(x), Some(y)) => x <= y,
    }
}

/// Inserts `x` after every certificate that expires no later: one step of
/// a stable insertion sort.
pub open spec fn insert_by_expiry(s: Seq<SslCertificate>, x: SslCertificate) -> Seq<SslCertificate>
    decreases s.len(),
{
    if s.len() == 0 {
        seq![x]
    } else if expiry_le(s.last().expires_at, x.expires_at) {
        s.push(x)
    } else {
        insert_by_expiry(s.drop_last(), x).push(s.last())
    }
}

/// The certificates sorted by expiry, those of equal expiry kept in their
/// order, as a stable sort leaves them.
pub open spec fn sort_by_expiry(s: Seq<SslCertificate>) -> Seq<SslCertificate>
    decreases s.len(),
{
    if s.len() == 0 {
        seq![]
    } else {
        insert_by_expiry(sort_by_expiry(s.drop_last()), s.last())
    }
}

proof fn lemma_insert_expiry_at(s: Seq<SslCertificate>, x: SslCertificate, j: int)
    requires
        0 <= j <= s.len(),
        forall|k: int| j <= k < s.len() ==> !expiry_le((#[trigger] s[k]).expires_at, x.expires_at),
        j == 0 || expiry_le(s[j - 1].expires_at, x.expires_at),
    ensures
        insert_by_expiry(s, x) == s.insert(j, x),
    decreases s.len() - j,
{
    if s.len() == 0 {
        assert(s.insert(0, x) =~= seq![x]);
    } else if j == s.len() {
        assert(s.insert(j, x) =~= s.push(x));
    } else {
        let t = s.drop_last();
        assert(!expiry_le(s.last().expires_at, x.expires_at));
        assert forall|k: int| j <= k < t.len() implies !expiry_le((#[trigger] t[k]).expires_at, x.expires_at) by {
            assert(t[k] == s[k]);
        }
        if j > 0 {
            assert(t[j - 1] == s[j - 1]);
        }
        lemma_insert_expiry_at(t, x, j);
        assert(t.insert(j, x).push(s.last()) =~= s.insert(j, x));
    }
}

fn expiry_le_exec(a: Option<i64>, b: Option<i64>) -> (r: bool)
    ensures
        r == expiry_le(a, b),
{
    match (a, b) {
        (None, _) => true,
        (Some(_), None) => false,
        (Some(x), Some(y)) => x <= y,
    }
}

pub fn sort_certificates(certs: Vec<SslCertificate>) -> (r: Vec<SslCertificate>)
    ensures
        r@ == sort_by_expiry(certs@),
{
    let ghost all = certs@;
    let n = certs.len();
    let mut rest = certs;
    let mut out: Vec<SslCertificate> = Vec::new();
    let mut i: usize = 0;
    while rest.len() > 0
        invariant
            n == all.len(),
            i <= all.len(),
            rest@ == all.subrange(i as int, all.len() as int),
            out@ == sort_by_expiry(all.subrange(0, i as int)),
        decreases rest.len(),
    {
        let x = rest.remove(0);
        assert(x == all[i as int]);
        let mut j = out.len();
        while j > 0 && !expiry_le_exec(out[j - 1].expires_at, x.expires_at)
            invariant
                j <= out@.len(),
                forall|k: int| j <= k < out@.len() ==> !expiry_le((#[trigger] out@[k]).expires_at, x.expires_at),
            decreases j,
        {
            j = j - 1;
        }
        proof {
            lemma_insert_expiry_at(out@, x, j as int);
        }
        out.insert(j, x);
        i = i + 1;
        assert(all.subrange(0, i as int).drop_last() =~= all.subrange(0, i - 1));
    }
    assert(all.subrange(0, all.len() as int) =~= all);
    out
}

/// What the application shows of a server's certificates.
#[derive(Debug)]
pub struct ServerCertificates {
    pub certbot_installed: bool,
    pub certificates: Vec<SslCertificate>,
}

/// `parsed` are the certificates the report's lines describe, in order.
pub open spec fn are_certs_from(fields: Seq<Seq<Seq<char>>>, now: i128, parsed: Seq<SslCertificate>) -> bool {
    &&& parsed.len() == fields.len()
    &&& forall|i: int| 0 <= i < parsed.len() ==> is_cert_from(fields[i], now, #[trigger] parsed[i])
}

/// The certificates of a report as shown at `now`: one per set of names,
/// the first found kept, soonest expiry first.
pub fn certificates_from_report(output: &str, now: i128) -> (r: ServerCertificates)
    ensures
        r.certbot_installed == report_installed(lines(output@)),
        exists|parsed: Seq<SslCertificate>|
            #[trigger] are_certs_from(report_cert_fields(lines(output@)), now, parsed)
                && r.certificates@ == sort_by_expiry(dedupe_names(parsed)),
{
    let (installed, parsed) = parse_certificate_report(output, now);
    let ghost pv = parsed@;
    assert(are_certs_from(report_cert_fields(lines(output@)), now, pv));
    let kept = dedupe_certificates(parsed);
    let certificates = sort_certificates(kept);
    ServerCertificates { certbot_installed: installed, certificates }
}

/// The certificates of a report with their status now.
pub fn list_certificates(output: &str) -> (r: ServerCertificates)
    ensures
        r.certbot_installed == report_installed(lines(output@)),
        exists|now: i128, parsed: Seq<SslCertificate>|
            #[trigger] are_certs_from(report_cert_fields(lines(output@)), now, parsed)
                && r.certificates@ == sort_by_expiry(dedupe_names(parsed)),
{
    let ms = now_millis();
    let now: i128 = (ms as i128) * 1_000_000;
    certificates_from_report(output, now)
}

} // verus!
