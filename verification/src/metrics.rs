//! Reading the report of the metrics script: its `key=value` lines, the
//! integer metrics with their errors, the uptime text, and the round-trip
//! time in a `ping` output. The fractional metrics are read by the caller.
use vstd::prelude::*;
use crate::monitor::{parse_rfc3339_millis, rfc3339_millis};
use crate::three_x_ui::pair_views;
use crate::registry::{remove_key, remove_key_vec, Keyed};
use crate::text::{
    chars_of, copy_str, decimal, ends_with, ends_with_str, find_char, has_char, is_first_char,
    is_ws, lines, parse_u64_spec, parse_u64_str, push_decimal, push_str, set_pred, split_lines,
    starts_with, starts_with_str, str_eq, lemma_first_char_unique, words, split_words, string_of_range, strip, strip_vec, trim, views, CharSet,
};

verus! {

/// The shell script that reports a server's metrics, one `key=value` per
/// line.
pub const METRICS_SCRIPT: &'static str = r#"
read_cpu_stat() {
  awk '/^cpu / {print $2, $3, $4, $5, $6, $7, $8, $9; exit}' /proc/stat 2>/dev/null
}

CPU_SAMPLE_1=$(read_cpu_stat)
if [ -n "$CPU_SAMPLE_1" ]; then
  sleep 0.35
  CPU_SAMPLE_2=$(read_cpu_stat)
  CPU=$(awk -v a="$CPU_SAMPLE_1" -v b="$CPU_SAMPLE_2" '
    BEGIN {
      split(a, p, " ");
      split(b, c, " ");
      prev_idle = p[4] + p[5];
      curr_idle = c[4] + c[5];
      prev_total = 0;
      curr_total = 0;
      for (i = 1; i <= 8; i++) {
        prev_total += p[i];
        curr_total += c[i];
      }
      delta_total = curr_total - prev_total;
      delta_idle = curr_idle - prev_idle;
      if (delta_total <= 0) {
        usage = 0;
      } else {
        usage = 100 * (delta_total - delta_idle) / delta_total;
      }
      if (usage < 0) usage = 0;
      if (usage > 100) usage = 100;
      printf "%.1f", usage;
    }')
else
  CPU=$(top -bn1 | awk '
    /Cpu\(s\)|%Cpu|CPU/ {
      for (i = 1; i <= NF; i++) {
        token = $i;
        gsub(",", "", token);
        if (token ~ /^(id|idle)$/ && i > 1) {
          idle = $(i - 1);
          gsub(",", "", idle);
          usage = 100 - idle;
          if (usage < 0) usage = 0;
          if (usage > 100) usage = 100;
          printf "%.1f", usage;
          exit;
        }
        if (token ~ /^[0-9.]+id$/) {
          idle = token;
          sub(/id$/, "", idle);
          usage = 100 - idle;
          if (usage < 0) usage = 0;
          if (usage > 100) usage = 100;
          printf "%.1f", usage;
          exit;
        }
      }
    }')
fi
if [ -z "$CPU" ]; then CPU=0.0; fi
read RAM_TOTAL RAM_USED <<EOF
$(free -m | awk '/Mem:/ {print $2, $3}')
EOF
read DISK_TOTAL DISK_USED DISK_PERCENT <<EOF
$(df -h / | awk 'NR==2 {gsub("%", "", $5); print $2, $3, $5}')
EOF
LOAD_AVERAGE=$(awk '{print $1, $2, $3}' /proc/loadavg)
UPTIME_SEC=$(cut -d. -f1 /proc/uptime)
read RX_BYTES TX_BYTES <<EOF
$(awk 'NR>2 {
  iface = $1;
  gsub(":", "", iface);
  if (iface == "lo") next;
  fallback_rx += $2;
  fallback_tx += $10;
  if (iface ~ /^(eth|ens|enp|eno|em|p[0-9]|en[0-9]|wl|wlan|wwan|venet|bond|team|tun|tap|wg)/) {
    rx += $2;
    tx += $10;
    matched += 1;
  }
} END {
  if (matched > 0) {
    printf "%.0f %.0f\n", rx, tx;
  } else {
    printf "%.0f %.0f\n", fallback_rx, fallback_tx;
  }
}' /proc/net/dev)
EOF
printf 'cpu_percent=%s\n' "$CPU"
printf 'ram_total_mb=%s\n' "$RAM_TOTAL"
printf 'ram_used_mb=%s\n' "$RAM_USED"
printf 'disk_total=%s\n' "$DISK_TOTAL"
printf 'disk_used=%s\n' "$DISK_USED"
printf 'disk_percent=%s\n' "$DISK_PERCENT"
printf 'load_average=%s\n' "$LOAD_AVERAGE"
printf 'uptime_sec=%s\n' "$UPTIME_SEC"
printf 'rx_bytes=%s\n' "$RX_BYTES"
printf 'tx_bytes=%s\n' "$TX_BYTES"
printf 'total_rx_bytes=%s\n' "$RX_BYTES"
printf 'total_tx_bytes=%s\n' "$TX_BYTES"
"#;

/// The metrics script's text.
pub fn metrics_script() -> (r: &'static str)
    ensures
        r@ == METRICS_SCRIPT@,
{
    METRICS_SCRIPT
}


/// The key and value of a report line: the text before the first `=` and
/// the text after it, both trimmed; none for a line without `=`.
pub open spec fn metric_pair(line: Seq<char>) -> Option<(Seq<char>, Seq<char>)> {
    if has_char(line, '=') {
        let i = choose|i: int| is_first_char(line, '=', i);
        Some((trim(line.subrange(0, i)), trim(line.subrange(i + 1, line.len() as int))))
    } else {
        None
    }
}

/// The pairs of the report's lines, in order.
pub open spec fn metric_pairs(ls: Seq<Seq<char>>) -> Seq<(Seq<char>, Seq<char>)>
    decreases ls.len(),
{
    if ls.len() == 0 {
        seq![]
    } else {
        let rest = metric_pairs(ls.drop_last());
        match metric_pair(ls.last()) {
            Some(p) => rest.push(p),
            None => rest,
        }
    }
}


/// The value of `key`: that of the last pair with the key, as a map filled
/// line by line keeps it.
pub open spec fn value_of(pairs: Seq<(Seq<char>, Seq<char>)>, key: Seq<char>) -> Option<Seq<char>>
    decreases pairs.len(),
{
    if pairs.len() == 0 {
        None
    } else if pairs.last().0 == key {
        Some(pairs.last().1)
    } else {
        value_of(pairs.drop_last(), key)
    }
}

fn trimmed(v: &Vec<char>, from: usize, to: usize) -> (r: String)
    requires
        from <= to <= v@.len(),
    ensures
        r@ == trim(v@.subrange(from as int, to as int)),
{
    let part = string_of_range(v, from, to);
    let pv = chars_of(part.as_str());
    let r = strip_vec(&pv, CharSet::Space);
    assert(set_pred(CharSet::Space) =~= (|c: char| is_ws(c)));
    r
}

/// The pairs of every line of the report that has a `=`.
pub fn parse_metric_lines(output: &str) -> (r: Vec<(String, String)>)
    ensures
        pair_views(r@) == metric_pairs(lines(output@)),
{
    let ls = split_lines(output);
    let ghost all = views(ls@);
    let mut r: Vec<(String, String)> = Vec::new();
    let mut i: usize = 0;
    while i < ls.len()
        invariant
            all == views(ls@),
            all == lines(output@),
            i <= ls@.len(),
            pair_views(r@) == metric_pairs(all.subrange(0, i as int)),
        decreases ls.len() - i,
    {
        let line = &ls[i];
        let ghost pre = all.subrange(0, i as int);
        let ghost now = all.subrange(0, i + 1);
        assert(now.drop_last() =~= pre);
        assert(now.last() == line@);
        match find_char(line, '=') {
            Some(j) => {
                proof {
                    let f = choose|f: int| is_first_char(line@, '=', f);
                    lemma_first_char_unique(line@, '=', j as int, f);
                }
                let n = line.len();
                let k = trimmed(line, 0, j);
                let v = trimmed(line, j + 1, n);
                let ghost rv = r@;
                r.push((k, v));
                assert(pair_views(r@) =~= pair_views(rv).push((k@, v@)));
            },
            None => {},
        }
        i = i + 1;
    }
    assert(all.subrange(0, all.len() as int) =~= all);
    r
}

/// The value of `key` in the report.
pub fn metric_value(values: &Vec<(String, String)>, key: &str) -> (r: Option<String>)
    ensures
        match r {
            Some(v) => value_of(pair_views(values@), key@) == Some(v@),
            None => value_of(pair_views(values@), key@) is None,
        },
{
    let ghost all = pair_views(values@);
    let mut found: Option<usize> = None;
    let mut i: usize = 0;
    while i < values.len()
        invariant
            all == pair_views(values@),
            i <= values@.len(),
            match found {
                Some(j) => j < i && value_of(all.subrange(0, i as int), key@) == Some(values@[j as int].1@),
                None => value_of(all.subrange(0, i as int), key@) is None,
            },
        decreases values.len() - i,
    {
        let ghost now = all.subrange(0, i + 1);
        assert(now.drop_last() =~= all.subrange(0, i as int));
        if str_eq(values[i].0.as_str(), key) {
            found = Some(i);
        }
        i = i + 1;
    }
    assert(all.subrange(0, all.len() as int) =~= all);
    match found {
        Some(j) => Some(values[j].1.clone()),
        None => None,
    }
}

/// Why the report could not be read.
#[derive(Debug)]
pub enum MetricError {
    Missing(String),
    Invalid(String),
    InvalidLoadAverage,
}

pub open spec fn metric_error_text(e: MetricError) -> Seq<char> {
    match e {
        MetricError::Missing(k) => "missing "@ + k@ + " metric"@,
        MetricError::Invalid(k) => "invalid "@ + k@ + " metric"@,
        MetricError::InvalidLoadAverage => "invalid load average"@,
    }
}

impl MetricError {
    /// The message the application shows for the error.
    pub fn message(&self) -> (m: String)
        ensures
            m@ == metric_error_text(*self),
    {
        match self {
            MetricError::Missing(k) => {
                let mut m = copy_str("missing ");
                push_str(&mut m, k.as_str());
                push_str(&mut m, " metric");
                m
            },
            MetricError::Invalid(k) => {
                let mut m = copy_str("invalid ");
                push_str(&mut m, k.as_str());
                push_str(&mut m, " metric");
                m
            },
            MetricError::InvalidLoadAverage => copy_str("invalid load average"),
        }
    }
}

/// An integer metric: missing when the report lacks the key, invalid when
/// its value is not a `u64`.
pub open spec fn u64_metric(values: Seq<(Seq<char>, Seq<char>)>, key: Seq<char>) -> Result<u64, Seq<char>> {
    match value_of(values, key) {
        None => Err("missing "@ + key + " metric"@),
        Some(v) => match parse_u64_spec(v) {
            Some(n) => Ok(n),
            None => Err("invalid "@ + key + " metric"@),
        },
    }
}

pub open spec fn error_view(r: Result<u64, MetricError>) -> Result<u64, Seq<char>> {
    match r {
        Ok(n) => Ok(n),
        Err(e) => Err(metric_error_text(e)),
    }
}

pub fn parse_u64(values: &Vec<(String, String)>, key: &str) -> (r: Result<u64, MetricError>)
    ensures
        error_view(r) == u64_metric(pair_views(values@), key@),
        r matches Err(e) ==> (e matches MetricError::Missing(k) && k@ == key@) || (e matches MetricError::Invalid(k) && k@ == key@),
{
    match metric_value(values, key) {
        None => Err(MetricError::Missing(copy_str(key))),
        Some(v) => match parse_u64_str(v.as_str()) {
            Some(n) => Ok(n),
            None => Err(MetricError::Invalid(copy_str(key))),
        },
    }
}

/// A fractional metric, whose value the caller has tried to read as a
/// number (`parses`): missing without the key, invalid when it does not
/// parse.
pub fn check_float_metric(values: &Vec<(String, String)>, key: &str, parses: bool) -> (r: Result<(), MetricError>)
    ensures
        match value_of(pair_views(values@), key@) {
            None => r matches Err(MetricError::Missing(k)) && k@ == key@,
            Some(_) => if parses {
                r is Ok
            } else {
                r matches Err(MetricError::Invalid(k)) && k@ == key@
            },
        },
{
    match metric_value(values, key) {
        None => Err(MetricError::Missing(copy_str(key))),
        Some(_) => if parses {
            Ok(())
        } else {
            Err(MetricError::Invalid(copy_str(key)))
        },
    }
}

/// The uptime as the dashboard shows it: days and hours, hours and minutes,
/// or minutes.
pub open spec fn uptime_text(seconds: u64) -> Seq<char> {
    let days = seconds / 86400;
    let hours = (seconds % 86400) / 3600;
    let minutes = (seconds % 3600) / 60;
    if days > 0 {
        decimal(days as nat) + "d "@ + decimal(hours as nat) + "h"@
    } else if hours > 0 {
        decimal(hours as nat) + "h "@ + decimal(minutes as nat) + "m"@
    } else {
        decimal(minutes as nat) + "m"@
    }
}

pub fn format_uptime(seconds: u64) -> (r: String)
    ensures
        r@ == uptime_text(seconds),
{
    let days = seconds / 86_400;
    let hours = (seconds % 86_400) / 3_600;
    let minutes = (seconds % 3_600) / 60;
    let mut r = String::new();
    if days > 0 {
        push_decimal(&mut r, days);
        push_str(&mut r, "d ");
        push_decimal(&mut r, hours);
        push_str(&mut r, "h");
    } else if hours > 0 {
        push_decimal(&mut r, hours);
        push_str(&mut r, "h ");
        push_decimal(&mut r, minutes);
        push_str(&mut r, "m");
    } else {
        push_decimal(&mut r, minutes);
        push_str(&mut r, "m");
    }
    r
}

/// The integer part of a server's metrics.
#[derive(Debug)]
pub struct CountedMetrics {
    pub ram_total_mb: u64,
    pub ram_used_mb: u64,
    pub uptime_sec: u64,
    pub uptime: String,
    pub rx_bytes: u64,
    pub tx_bytes: u64,
    pub total_rx_bytes: u64,
    pub total_tx_bytes: u64,
    pub total_traffic_bytes: u64,
    pub disk_used: String,
    pub disk_total: String,
}

/// An optional counter that falls back to another when missing or invalid.
pub open spec fn u64_or(values: Seq<(Seq<char>, Seq<char>)>, key: Seq<char>, d: u64) -> u64 {
    match value_of(values, key) {
        Some(v) => match parse_u64_spec(v) {
            Some(n) => n,
            None => d,
        },
        None => d,
    }
}

pub open spec fn text_or_dash(values: Seq<(Seq<char>, Seq<char>)>, key: Seq<char>) -> Seq<char> {
    match value_of(values, key) {
        Some(v) => v,
        None => "--"@,
    }
}

fn u64_or_exec(values: &Vec<(String, String)>, key: &str, d: u64) -> (r: u64)
    ensures
        r == u64_or(pair_views(values@), key@, d),
{
    match metric_value(values, key) {
        Some(v) => match parse_u64_str(v.as_str()) {
            Some(n) => n,
            None => d,
        },
        None => d,
    }
}

fn text_or_dash_exec(values: &Vec<(String, String)>, key: &str) -> (r: String)
    ensures
        r@ == text_or_dash(pair_views(values@), key@),
{
    match metric_value(values, key) {
        Some(v) => v,
        None => copy_str("--"),
    }
}

/// Every metric the report must hold is there and reads: the CPU and disk
/// percentages and the load average as the caller found them, the others
/// as `u64`.
pub open spec fn report_is_valid(
    vs: Seq<(Seq<char>, Seq<char>)>,
    cpu_parses: bool,
    disk_percent_parses: bool,
    load_average_parses: bool,
) -> bool {
    &&& value_of(vs, "cpu_percent"@) is Some && cpu_parses
    &&& u64_metric(vs, "ram_total_mb"@) is Ok
    &&& u64_metric(vs, "ram_used_mb"@) is Ok
    &&& value_of(vs, "disk_percent"@) is Some && disk_percent_parses
    &&& u64_metric(vs, "uptime_sec"@) is Ok
    &&& u64_metric(vs, "rx_bytes"@) is Ok
    &&& u64_metric(vs, "tx_bytes"@) is Ok
    &&& value_of(vs, "load_average"@) is Some && load_average_parses
}

/// Checks the report in the order the metrics are read (CPU, memory, disk,
/// uptime, traffic, load average) and gives the integer metrics. The caller
/// says whether the CPU and disk percentages and the load average parse as
/// numbers.
pub fn read_counted_metrics(
    values: &Vec<(String, String)>,
    cpu_parses: bool,
    disk_percent_parses: bool,
    load_average_parses: bool,
) -> (r: Result<CountedMetrics, MetricError>)
    ensures
        r is Ok <==> report_is_valid(pair_views(values@), cpu_parses, disk_percent_parses, load_average_parses),
        ({
            let vs = pair_views(values@);
            let cpu = value_of(vs, "cpu_percent"@);
            let disk = value_of(vs, "disk_percent"@);
            let load = value_of(vs, "load_average"@);
            match r {
                Ok(m) => {
                    &&& cpu is Some && cpu_parses && disk is Some && disk_percent_parses
                    &&& load is Some && load_average_parses
                    &&& u64_metric(vs, "ram_total_mb"@) == Ok::<u64, Seq<char>>(m.ram_total_mb)
                    &&& u64_metric(vs, "ram_used_mb"@) == Ok::<u64, Seq<char>>(m.ram_used_mb)
                    &&& u64_metric(vs, "uptime_sec"@) == Ok::<u64, Seq<char>>(m.uptime_sec)
                    &&& u64_metric(vs, "rx_bytes"@) == Ok::<u64, Seq<char>>(m.rx_bytes)
                    &&& u64_metric(vs, "tx_bytes"@) == Ok::<u64, Seq<char>>(m.tx_bytes)
                    &&& m.uptime@ == uptime_text(m.uptime_sec)
                    &&& m.total_rx_bytes == u64_or(vs, "total_rx_bytes"@, m.rx_bytes)
                    &&& m.total_tx_bytes == u64_or(vs, "total_tx_bytes"@, m.tx_bytes)
                    &&& m.total_traffic_bytes == if m.total_rx_bytes + m.total_tx_bytes > u64::MAX {
                        u64::MAX as int
                    } else {
                        m.total_rx_bytes + m.total_tx_bytes
                    }
                    &&& m.disk_used@ == text_or_dash(vs, "disk_used"@)
                    &&& m.disk_total@ == text_or_dash(vs, "disk_total"@)
                },
                Err(e) => metric_error_text(e) == if cpu is None {
                    "missing "@ + "cpu_percent"@ + " metric"@
                } else if !cpu_parses {
                    "invalid "@ + "cpu_percent"@ + " metric"@
                } else if u64_metric(vs, "ram_total_mb"@) is Err {
                    u64_metric(vs, "ram_total_mb"@)->Err_0
                } else if u64_metric(vs, "ram_used_mb"@) is Err {
                    u64_metric(vs, "ram_used_mb"@)->Err_0
                } else if disk is None {
                    "missing "@ + "disk_percent"@ + " metric"@
                } else if !disk_percent_parses {
                    "invalid "@ + "disk_percent"@ + " metric"@
                } else if u64_metric(vs, "uptime_sec"@) is Err {
                    u64_metric(vs, "uptime_sec"@)->Err_0
                } else if u64_metric(vs, "rx_bytes"@) is Err {
                    u64_metric(vs, "rx_bytes"@)->Err_0
                } else if u64_metric(vs, "tx_bytes"@) is Err {
                    u64_metric(vs, "tx_bytes"@)->Err_0
                } else if load is None {
                    "missing "@ + "load_average"@ + " metric"@
                } else {
                    "invalid load average"@
                },
            }
        }),
{
    if let Err(e) = check_float_metric(values, "cpu_percent", cpu_parses) {
        return Err(e);
    }
    let ram_total_mb = match parse_u64(values, "ram_total_mb") {
        Ok(n) => n,
        Err(e) => {
            return Err(e);
        },
    };
    let ram_used_mb = match parse_u64(values, "ram_used_mb") {
        Ok(n) => n,
        Err(e) => {
            return Err(e);
        },
    };
    if let Err(e) = check_float_metric(values, "disk_percent", disk_percent_parses) {
        return Err(e);
    }
    let uptime_sec = match parse_u64(values, "uptime_sec") {
        Ok(n) => n,
        Err(e) => {
            return Err(e);
        },
    };
    let rx_bytes = match parse_u64(values, "rx_bytes") {
        Ok(n) => n,
        Err(e) => {
            return Err(e);
        },
    };
    let tx_bytes = match parse_u64(values, "tx_bytes") {
        Ok(n) => n,
        Err(e) => {
            return Err(e);
        },
    };
    let total_rx_bytes = u64_or_exec(values, "total_rx_bytes", rx_bytes);
    let total_tx_bytes = u64_or_exec(values, "total_tx_bytes", tx_bytes);
    match metric_value(values, "load_average") {
        None => {
            return Err(MetricError::Missing(copy_str("load_average")));
        },
        Some(_) => {
            if !load_average_parses {
                return Err(MetricError::InvalidLoadAverage);
            }
        },
    }
    Ok(CountedMetrics {
        ram_total_mb,
        ram_used_mb,
        uptime_sec,
        uptime: format_uptime(uptime_sec),
        rx_bytes,
        tx_bytes,
        total_rx_bytes,
        total_tx_bytes,
        total_traffic_bytes: total_rx_bytes.saturating_add(total_tx_bytes),
        disk_used: text_or_dash_exec(values, "disk_used"),
        disk_total: text_or_dash_exec(values, "disk_total"),
    })
}

/// The round-trip time in a `ping` output: the first whitespace-separated
/// word that starts with `time=`, without that prefix and without the `ms`
/// that may end it. Reading it as a number is the caller's part.
pub open spec fn ping_time_in(words: Seq<Seq<char>>) -> Option<Seq<char>>
    decreases words.len(),
{
    if words.len() == 0 {
        None
    } else if starts_with(words[0], "time="@) {
        Some(strip_ms(words[0].skip(5)))
    } else {
        ping_time_in(words.drop_first())
    }
}

/// `trim_end_matches("ms")`: every trailing `ms` removed.
pub open spec fn strip_ms(s: Seq<char>) -> Seq<char>
    decreases s.len(),
{
    if s.len() >= 2 && s[s.len() - 2] == 'm' && s[s.len() - 1] == 's' {
        strip_ms(s.subrange(0, s.len() - 2))
    } else {
        s
    }
}


pub fn strip_ms_exec(v: &Vec<char>, from: usize) -> (r: String)
    requires
        from <= v@.len(),
    ensures
        r@ == strip_ms(v@.skip(from as int)),
{
    let mut end = v.len();
    while end - from >= 2 && v[end - 2] == 'm' && v[end - 1] == 's'
        invariant
            from <= end <= v@.len(),
            strip_ms(v@.skip(from as int)) == strip_ms(v@.subrange(from as int, end as int)),
        decreases end,
    {
        let ghost w = v@.subrange(from as int, end as int);
        assert(w.subrange(0, w.len() - 2) =~= v@.subrange(from as int, end - 2));
        end = end - 2;
    }
    let ghost w = v@.subrange(from as int, end as int);
    assert(!(w.len() >= 2 && w[w.len() - 2] == 'm' && w[w.len() - 1] == 's'));
    string_of_range(v, from, end)
}

pub fn ping_time_text(output: &str) -> (r: Option<String>)
    ensures
        match r {
            Some(t) => ping_time_in(words(output@)) == Some(t@),
            None => ping_time_in(words(output@)) is None,
        },
{
    let ws = split_words(output);
    let ghost all = views(ws@);
    assert(all.subrange(0, all.len() as int) =~= all);
    let mut i: usize = 0;
    while i < ws.len()
        invariant
            all == views(ws@),
            all == words(output@),
            i <= ws@.len(),
            ping_time_in(all) == ping_time_in(all.subrange(i as int, all.len() as int)),
        decreases ws.len() - i,
    {
        let ghost rest = all.subrange(i as int, all.len() as int);
        assert(rest[0] == ws@[i as int]@);
        if starts_with_str(&ws[i], "time=") {
            proof {
                reveal_strlit("time=");
            }
            return Some(strip_ms_exec(&ws[i], 5));
        }
        assert(rest.drop_first() =~= all.subrange(i + 1, all.len() as int));
        i = i + 1;
    }
    None
}


// ---------------------------------------------------------------------
// The metrics history kept on disk
// ---------------------------------------------------------------------

/// A server's history in the metrics cache, by the server's id; none when
/// the cached value is not a list. The points are kept as they are.
pub struct CacheEntry<T> {
    pub server_id: String,
    pub history: Option<Vec<T>>,
}

impl<T> Keyed for CacheEntry<T> {
    open spec fn key(&self) -> Seq<char> {
        self.server_id@
    }

    fn key_str(&self) -> (r: &str) {
        self.server_id.as_str()
    }
}

/// The cache without a deleted server's history.
pub fn remove_server_from_cache<T>(entries: Vec<CacheEntry<T>>, server_id: &str) -> (r: Vec<CacheEntry<T>>)
    ensures
        r@ == remove_key(entries@, server_id@),
{
    remove_key_vec(entries, server_id)
}

pub open spec fn cache_view<T>(entries: Seq<CacheEntry<T>>) -> Seq<(Seq<char>, Option<Seq<T>>)> {
    entries.map_values(
        |e: CacheEntry<T>|
            (
                e.server_id@,
                match e.history {
                    Some(h) => Some(h@),
                    None => None,
                },
            ),
    )
}

/// The index of the first entry of `id`.
pub open spec fn key_index<T>(s: Seq<(Seq<char>, Option<Seq<T>>)>, id: Seq<char>) -> Option<int>
    decreases s.len(),
{
    if s.len() == 0 {
        None
    } else if s.last().0 == id && key_index(s.drop_last(), id) is None {
        Some(s.len() - 1)
    } else {
        key_index(s.drop_last(), id)
    }
}

/// The cache after the new points of one server: appended to its history,
/// or its history started with them; nothing changes for no new points or
/// a cached value that is not a list.
pub open spec fn merge_one<T>(base: Seq<(Seq<char>, Option<Seq<T>>)>, d: (Seq<char>, Option<Seq<T>>)) -> Seq<
    (Seq<char>, Option<Seq<T>>),
> {
    match d.1 {
        Some(a) => if a.len() == 0 {
            base
        } else {
            match key_index(base, d.0) {
                Some(i) => match base[i].1 {
                    Some(h) => base.update(i, (d.0, Some(h + a))),
                    None => base,
                },
                None => base.push((d.0, Some(a))),
            }
        },
        None => base,
    }
}

/// The cache after all the new points, server by server.
pub open spec fn merge_all<T>(base: Seq<(Seq<char>, Option<Seq<T>>)>, delta: Seq<(Seq<char>, Option<Seq<T>>)>) -> Seq<
    (Seq<char>, Option<Seq<T>>),
>
    decreases delta.len(),
{
    if delta.len() == 0 {
        base
    } else {
        merge_one(merge_all(base, delta.drop_last()), delta.last())
    }
}

fn find_entry<T>(base: &Vec<CacheEntry<T>>, id: &str) -> (r: Option<usize>)
    ensures
        match r {
            Some(i) => i < base@.len() && key_index(cache_view(base@), id@) == Some(i as int),
            None => key_index(cache_view(base@), id@) is None,
        },
{
    let ghost v = cache_view(base@);
    let mut i: usize = 0;
    while i < base.len()
        invariant
            v == cache_view(base@),
            i <= base@.len(),
            key_index(v.subrange(0, i as int), id@) is None,
        decreases base.len() - i,
    {
        let ghost now = v.subrange(0, i + 1);
        assert(now.drop_last() =~= v.subrange(0, i as int));
        if str_eq(base[i].server_id.as_str(), id) {
            proof {
                lemma_key_index_prefix(v, id@, i as int);
            }
            return Some(i);
        }
        i = i + 1;
    }
    assert(v.subrange(0, v.len() as int) =~= v);
    None
}

proof fn lemma_key_index_key<T>(v: Seq<(Seq<char>, Option<Seq<T>>)>, id: Seq<char>)
    ensures
        key_index(v, id) matches Some(i) ==> 0 <= i < v.len() && v[i].0 == id,
    decreases v.len(),
{
    if v.len() > 0 {
        lemma_key_index_key(v.drop_last(), id);
    }
}

proof fn lemma_key_index_prefix<T>(v: Seq<(Seq<char>, Option<Seq<T>>)>, id: Seq<char>, i: int)
    requires
        0 <= i < v.len(),
        v[i].0 == id,
        key_index(v.subrange(0, i), id) is None,
    ensures
        key_index(v, id) == Some(i),
    decreases v.len(),
{
    if i == v.len() - 1 {
        assert(v.drop_last() =~= v.subrange(0, i));
    } else {
        assert(v.drop_last().subrange(0, i) =~= v.subrange(0, i));
        lemma_key_index_prefix(v.drop_last(), id, i);
        assert(key_index(v.drop_last(), id) is Some);
    }
}

/// Appends the new points the monitor sent (`delta`) to the cache; the
/// points are not deduplicated here.
pub fn merge_cache_delta<T>(base: Vec<CacheEntry<T>>, delta: Vec<CacheEntry<T>>) -> (r: Vec<CacheEntry<T>>)
    ensures
        cache_view(r@) == merge_all(cache_view(base@), cache_view(delta@)),
{
    let ghost b0 = cache_view(base@);
    let ghost dall = cache_view(delta@);
    let n = delta.len();
    let mut base = base;
    let mut rest = delta;
    let mut i: usize = 0;
    while rest.len() > 0
        invariant
            n == dall.len(),
            i <= n,
            cache_view(rest@) == dall.subrange(i as int, n as int),
            cache_view(base@) == merge_all(b0, dall.subrange(0, i as int)),
        decreases rest.len(),
    {
        let ghost rv0 = rest@;
        let d = rest.remove(0);
        assert(cache_view(rest@) =~= cache_view(rv0).drop_first());
        let ghost dv = cache_view(rv0)[0];
        assert(dv == dall[i as int]);
        let ghost now = dall.subrange(0, i + 1);
        assert(now.drop_last() =~= dall.subrange(0, i as int));
        let ghost before = cache_view(base@);
        let CacheEntry { server_id, history } = d;
        match history {
            Some(mut a) => {
                if a.len() > 0 {
                    match find_entry(&base, server_id.as_str()) {
                        Some(k) => {
                            proof {
                                lemma_key_index_key(before, server_id@);
                            }
                            assert(base@[k as int].server_id@ == server_id@);
                            let mut e = base.remove(k);
                            let ghost removed = base@;
                            match e.history {
                                Some(mut h) => {
                                    let ghost hv = h@;
                                    let ghost av = a@;
                                    h.append(&mut a);
                                    e.history = Some(h);
                                    let ghost ev = (e.server_id@, Some(hv + av));
                                    base.insert(k, e);
                                    assert(cache_view(base@) =~= before.update(k as int, (server_id@, Some(hv + av))));
                                },
                                None => {
                                    base.insert(k, e);
                                    assert(cache_view(base@) =~= before);
                                },
                            }
                        },
                        None => {
                            let ghost av = a@;
                            base.push(CacheEntry { server_id, history: Some(a) });
                            assert(cache_view(base@) =~= before.push((dv.0, Some(av))));
                        },
                    }
                }
            },
            None => {},
        }
        i = i + 1;
    }
    assert(dall.subrange(0, n as int) =~= dall);
    base
}

/// The greatest time stamp, in milliseconds, among a history's points
/// whose time stamp parses; none when none does.
pub open spec fn max_stamp(points: Seq<Option<String>>) -> Option<i64>
    decreases points.len(),
{
    if points.len() == 0 {
        None
    } else {
        let rest = max_stamp(points.drop_last());
        let t = match points.last() {
            Some(s) => rfc3339_millis(s@),
            None => None,
        };
        match (rest, t) {
            (Some(a), Some(b)) => Some(if b > a { b } else { a }),
            (None, t) => t,
            (a, None) => a,
        }
    }
}

/// The latest time stamp of each server whose cached value is a list (0
/// when none of its points has one), in the cache's order.
pub open spec fn stamps_of(cache: Seq<(String, Option<Vec<Option<String>>>)>) -> Seq<(Seq<char>, i64)>
    decreases cache.len(),
{
    if cache.len() == 0 {
        seq![]
    } else {
        let rest = stamps_of(cache.drop_last());
        match cache.last().1 {
            Some(p) => rest.push(
                (
                    cache.last().0@,
                    match max_stamp(p@) {
                        Some(ms) => ms,
                        None => 0,
                    },
                ),
            ),
            None => rest,
        }
    }
}

pub open spec fn stamp_views(r: Seq<(String, i64)>) -> Seq<(Seq<char>, i64)> {
    r.map_values(|p: (String, i64)| (p.0@, p.1))
}

/// The latest time stamp of each cached server's history, from which the
/// monitor is asked for newer points only.
pub fn latest_timestamps(cache: &Vec<(String, Option<Vec<Option<String>>>)>) -> (r: Vec<(String, i64)>)
    ensures
        stamp_views(r@) == stamps_of(cache@),
{
    let mut r: Vec<(String, i64)> = Vec::new();
    let mut i: usize = 0;
    while i < cache.len()
        invariant
            i <= cache@.len(),
            stamp_views(r@) == stamps_of(cache@.subrange(0, i as int)),
        decreases cache.len() - i,
    {
        let ghost now = cache@.subrange(0, i + 1);
        assert(now.drop_last() =~= cache@.subrange(0, i as int));
        assert(now.last() == cache@[i as int]);
        match &cache[i].1 {
            Some(points) => {
                let mut latest: Option<i64> = None;
                let mut k: usize = 0;
                while k < points.len()
                    invariant
                        k <= points@.len(),
                        latest == max_stamp(points@.subrange(0, k as int)),
                    decreases points.len() - k,
                {
                    let ghost pn = points@.subrange(0, k + 1);
                    assert(pn.drop_last() =~= points@.subrange(0, k as int));
                    assert(pn.last() == points@[k as int]);
                    let t = match &points[k] {
                        Some(s) => parse_rfc3339_millis(s.as_str()),
                        None => None,
                    };
                    latest = match (latest, t) {
                        (Some(a), Some(b)) => Some(if b > a { b } else { a }),
                        (None, t) => t,
                        (a, None) => a,
                    };
                    k = k + 1;
                }
                assert(points@.subrange(0, points@.len() as int) =~= points@);
                let ms = match latest {
                    Some(l) => l,
                    None => 0,
                };
                let ghost r0 = r@;
                r.push((cache[i].0.clone(), ms));
                assert(stamp_views(r@) =~= stamp_views(r0).push((cache@[i as int].0@, ms)));
            },
            None => {},
        }
        i = i + 1;
    }
    assert(cache@.subrange(0, cache@.len() as int) =~= cache@);
    r
}

} // verus!
