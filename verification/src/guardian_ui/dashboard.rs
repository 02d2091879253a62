//! What the dashboard shows: incident log records sorted into threats,
//! sensitive-key events and visual alerts; AI alerts; exposed ports with
//! their whitelist status; and the configuration file it writes.
use vstd::prelude::*;
use crate::text::{
    chars_of, concat2, find_char, first_index_of, owned, push_str, slice_chars, str_eq,
    str_starts_with, has_prefix, string_from_chars,
};
use crate::bindings::{naive_datetime_parse, parse_naive_datetime};
use crate::guardian_ui::whitelist::{zero_pad, zero_padded};
use crate::guardian_ui::network::{ExposedPort, PortRecord, port_views};

use crate::guardian_ui::config_file::{append_lines, guardian_keys, kept_lines, merge_config};

verus! {

// ---------------------------------------------------------------------------
// Timestamps
// ---------------------------------------------------------------------------

/// The format incident timestamps are written in (fractional seconds are
/// cut off before parsing).
pub const TIMESTAMP_FORMAT: &'static str = "%Y-%m-%dT%H:%M:%S";

/// `hh:mm:ss`, as chrono's `%H:%M:%S` writes it.
pub open spec fn hms_text(h: u32, m: u32, s: u32) -> Seq<char> {
    zero_padded(h as nat, 2) + ":"@ + zero_padded(m as nat, 2) + ":"@ + zero_padded(s as nat, 2)
}

/// The time of day and the epoch milliseconds of a log timestamp: the text
/// before the first `.` is parsed as `%Y-%m-%dT%H:%M:%S`; an unparsable
/// timestamp gives `00:00:00` and 0. A leap second (nanoseconds from one
/// second up) shows as second 60, as chrono's `%S` prints it.
pub open spec fn parse_timestamp_spec(ts: Seq<char>) -> (Seq<char>, i64) {
    let clean = match first_index_of(ts, '.') {
        Some(i) => ts.take(i),
        None => ts,
    };
    match naive_datetime_parse(clean, TIMESTAMP_FORMAT@) {
        Some((h, m, s, ns, ms)) => (hms_text(h, m, (s + ns / 1_000_000_000) as u32), ms),
        None => ("00:00:00"@, 0),
    }
}

/// The time of day (`hh:mm:ss`) and epoch milliseconds of a log timestamp.
pub fn parse_timestamp(ts: &str) -> (r: (String, i64))
    ensures
        (r.0@, r.1) == parse_timestamp_spec(ts@),
{
    let cs = chars_of(ts);
    let clean: String = match find_char(cs.as_slice(), '.') {
        Some(i) => {
            let head = slice_chars(cs.as_slice(), 0, i);
            proof {
                assert(head@ == ts@.take(i as int));
            }
            string_from_chars(head.as_slice())
        },
        None => owned(ts),
    };
    match parse_naive_datetime(clean.as_str(), TIMESTAMP_FORMAT) {
        Some((h, m, s, ns, ms)) => {
            let s = s + ns / 1_000_000_000;
            let mut t = zero_pad(h as u64, 2);
            push_str(&mut t, ":");
            let part = zero_pad(m as u64, 2);
            push_str(&mut t, part.as_str());
            push_str(&mut t, ":");
            let part = zero_pad(s as u64, 2);
            push_str(&mut t, part.as_str());
            (t, ms)
        },
        None => (owned("00:00:00"), 0),
    }
}

// ---------------------------------------------------------------------------
// Incident log records
// ---------------------------------------------------------------------------

/// The fields of one incident log line that the dashboard reads; a field is
/// `None` when absent or not a string.
#[derive(Debug, Clone)]
pub struct IncidentRecord {
    pub module: Option<String>,
    pub severity: Option<String>,
    pub message: Option<String>,
    pub timestamp: Option<String>,
    /// `metadata.preview`
    pub preview: Option<String>,
    /// `metadata.model`
    pub model: Option<String>,
}

/// The mathematical content of an [`IncidentRecord`].
pub struct RecordView {
    pub module: Option<Seq<char>>,
    pub severity: Option<Seq<char>>,
    pub message: Option<Seq<char>>,
    pub timestamp: Option<Seq<char>>,
    pub preview: Option<Seq<char>>,
    pub model: Option<Seq<char>>,
}

/// The view of optional text.
pub open spec fn ov(o: Option<String>) -> Option<Seq<char>> {
    match o {
        Some(s) => Some(s@),
        None => None,
    }
}

impl View for IncidentRecord {
    type V = RecordView;

    open spec fn view(&self) -> RecordView {
        RecordView {
            module: ov(self.module),
            severity: ov(self.severity),
            message: ov(self.message),
            timestamp: ov(self.timestamp),
            preview: ov(self.preview),
            model: ov(self.model),
        }
    }
}

/// The views of records.
pub open spec fn record_views(v: Seq<IncidentRecord>) -> Seq<RecordView> {
    v.map_values(|r: IncidentRecord| r@)
}

/// A field's text, or `default` when absent.
pub open spec fn or_default(o: Option<Seq<char>>, default: Seq<char>) -> Seq<char> {
    match o {
        Some(s) => s,
        None => default,
    }
}

fn text_or(o: &Option<String>, default: &str) -> (r: String)
    ensures
        r@ == or_default(ov(*o), default@),
{
    match o {
        Some(s) => s.clone(),
        None => owned(default),
    }
}

/// Counts per dashboard category.
#[derive(Debug, Clone, Copy)]
pub struct IncidentStats {
    pub total_blocked: u32,
    pub sensitive_keys: u32,
    pub visual_alerts: u32,
}

/// One event as the dashboard lists it.
#[derive(Debug, Clone)]
pub struct GuardianEvent {
    /// `hh:mm:ss`
    pub time: String,
    pub source: String,
    pub desc: String,
    /// Epoch milliseconds.
    pub _ts: i64,
}

/// The mathematical content of a [`GuardianEvent`].
pub struct EventView {
    pub time: Seq<char>,
    pub source: Seq<char>,
    pub desc: Seq<char>,
    pub ts: i64,
}

impl View for GuardianEvent {
    type V = EventView;

    open spec fn view(&self) -> EventView {
        EventView { time: self.time@, source: self.source@, desc: self.desc@, ts: self._ts }
    }
}

/// The views of events.
pub open spec fn event_views(v: Seq<GuardianEvent>) -> Seq<EventView> {
    v.map_values(|e: GuardianEvent| e@)
}

/// The dashboard's activity summary.
#[derive(Debug, Clone)]
pub struct RealActivities {
    pub stats: IncidentStats,
    pub threats: Vec<GuardianEvent>,
    pub keys: Vec<GuardianEvent>,
    pub visual: Vec<GuardianEvent>,
}

/// Where a record is listed.
#[derive(Debug, Clone, Copy)]
pub enum Category {
    Threat,
    Key,
    Visual,
    Unlisted,
}

/// A record's module, `Unknown` when absent.
pub open spec fn module_of(r: RecordView) -> Seq<char> {
    or_default(r.module, "Unknown"@)
}

/// A record's severity, `INFO` when absent.
pub open spec fn severity_of(r: RecordView) -> Seq<char> {
    or_default(r.severity, "INFO"@)
}

/// Where a record is listed: `INFO` records are not listed; network and
/// firewall records and every `CRITICAL` record are threats; clipboard and
/// terminal records are sensitive-key events; visual-sentry records are
/// visual alerts.
pub open spec fn category_of(r: RecordView) -> Category {
    let module = module_of(r);
    let severity = severity_of(r);
    if severity == "INFO"@ {
        Category::Unlisted
    } else if module == "NetworkMonitor"@ || module == "SystemFirewall"@ || severity
        == "CRITICAL"@ {
        Category::Threat
    } else if module == "ClipboardMonitor"@ || module == "TerminalFirewall"@ {
        Category::Key
    } else if module == "VisualSentry"@ {
        Category::Visual
    } else {
        Category::Unlisted
    }
}

/// The event listed for a record.
pub open spec fn event_of(r: RecordView) -> EventView {
    let (time, ts) = parse_timestamp_spec(or_default(r.timestamp, ""@));
    EventView { time, source: module_of(r), desc: or_default(r.message, ""@), ts }
}

/// The events of the records in category `c`, in log order.
pub open spec fn events_in(records: Seq<RecordView>, c: Category) -> Seq<EventView>
    decreases records.len(),
{
    if records.len() == 0 {
        seq![]
    } else {
        let rest = events_in(records.drop_last(), c);
        if category_of(records.last()) == c {
            rest.push(event_of(records.last()))
        } else {
            rest
        }
    }
}

proof fn lemma_events_in_prefix(records: Seq<RecordView>, n: int, c: Category)
    requires
        0 <= n <= records.len(),
    ensures
        events_in(records.take(n), c).len() <= events_in(records, c).len(),
    decreases records.len(),
{
    if n < records.len() {
        assert(records.take(n) == records.drop_last().take(n));
        lemma_events_in_prefix(records.drop_last(), n, c);
    } else {
        assert(records.take(n) == records);
    }
}

fn categorize(module: &str, severity: &str) -> (c: Category)
    ensures
        forall|r: RecordView|
            module_of(r) == module@ && severity_of(r) == severity@ ==> category_of(r) == c,
{
    if str_eq(severity, "INFO") {
        Category::Unlisted
    } else if str_eq(module, "NetworkMonitor") || str_eq(module, "SystemFirewall") || str_eq(
        severity,
        "CRITICAL",
    ) {
        Category::Threat
    } else if str_eq(module, "ClipboardMonitor") || str_eq(module, "TerminalFirewall") {
        Category::Key
    } else if str_eq(module, "VisualSentry") {
        Category::Visual
    } else {
        Category::Unlisted
    }
}

proof fn lemma_category_listed(records: Seq<RecordView>, i: int, c: Category)
    requires
        0 <= i < records.len(),
        category_of(records[i]) == c,
    ensures
        events_in(records, c).contains(event_of(records[i])),
    decreases records.len(),
{
    if i == records.len() - 1 {
        let rest = events_in(records.drop_last(), c);
        assert(events_in(records, c)[rest.len() as int] == event_of(records[i]));
    } else {
        lemma_category_listed(records.drop_last(), i, c);
        assert(records.drop_last()[i] == records[i]);
        let rest = events_in(records.drop_last(), c);
        let k = choose|k: int| 0 <= k < rest.len() && rest[k] == event_of(records[i]);
        assert(events_in(records, c)[k] == rest[k]);
    }
}

/// Where a logged record (with a severity other than `INFO`) is listed:
/// `CRITICAL` records and records of `NetworkMonitor` or `SystemFirewall`
/// among the threats; otherwise records of `ClipboardMonitor` or
/// `TerminalFirewall` among the sensitive-key events, and records of
/// `VisualSentry` among the visual alerts.
pub proof fn lemma_records_listed_by_module(records: Seq<RecordView>, i: int)
    requires
        0 <= i < records.len(),
        records[i].severity is Some,
        records[i].severity->Some_0 != "INFO"@,
    ensures
        ({
            let r = records[i];
            let sev = r.severity->Some_0;
            let threat = sev == "CRITICAL"@ || r.module == Some("NetworkMonitor"@) || r.module == Some(
                "SystemFirewall"@,
            );
            &&& threat ==> events_in(records, Category::Threat).contains(event_of(r))
            &&& !threat && (r.module == Some("ClipboardMonitor"@) || r.module == Some(
                "TerminalFirewall"@,
            )) ==> events_in(records, Category::Key).contains(event_of(r))
            &&& !threat && r.module == Some("VisualSentry"@) ==> events_in(
                records,
                Category::Visual,
            ).contains(event_of(r))
        }),
{
    let r = records[i];
    reveal_strlit("ClipboardMonitor");
    reveal_strlit("TerminalFirewall");
    reveal_strlit("VisualSentry");
    reveal_strlit("NetworkMonitor");
    reveal_strlit("SystemFirewall");
    assert("ClipboardMonitor"@ != "VisualSentry"@ && "TerminalFirewall"@ != "VisualSentry"@) by {
        assert("ClipboardMonitor"@.len() != "VisualSentry"@.len());
        assert("TerminalFirewall"@.len() != "VisualSentry"@.len());
    }
    let c = category_of(r);
    lemma_category_listed(records, i, c);
}

/// The activity summary of an incident log: INFO records are skipped, the
/// others listed by category in log order, and each count is the length of
/// its list.
pub fn get_real_activities(records: &Vec<IncidentRecord>) -> (r: RealActivities)
    requires
        events_in(record_views(records@), Category::Threat).len() <= u32::MAX,
        events_in(record_views(records@), Category::Key).len() <= u32::MAX,
        events_in(record_views(records@), Category::Visual).len() <= u32::MAX,
    ensures
        event_views(r.threats@) == events_in(record_views(records@), Category::Threat),
        event_views(r.keys@) == events_in(record_views(records@), Category::Key),
        event_views(r.visual@) == events_in(record_views(records@), Category::Visual),
        r.stats.total_blocked == r.threats@.len(),
        r.stats.sensitive_keys == r.keys@.len(),
        r.stats.visual_alerts == r.visual@.len(),
{
    let mut stats = IncidentStats { total_blocked: 0, sensitive_keys: 0, visual_alerts: 0 };
    let mut threats: Vec<GuardianEvent> = Vec::new();
    let mut keys: Vec<GuardianEvent> = Vec::new();
    let mut visual: Vec<GuardianEvent> = Vec::new();
    let ghost rv = record_views(records@);
    let mut i: usize = 0;
    while i < records.len()
        invariant
            i <= records@.len(),
            rv == record_views(records@),
            events_in(rv, Category::Threat).len() <= u32::MAX,
            events_in(rv, Category::Key).len() <= u32::MAX,
            events_in(rv, Category::Visual).len() <= u32::MAX,
            event_views(threats@) == events_in(rv.take(i as int), Category::Threat),
            event_views(keys@) == events_in(rv.take(i as int), Category::Key),
            event_views(visual@) == events_in(rv.take(i as int), Category::Visual),
            stats.total_blocked == threats@.len(),
            stats.sensitive_keys == keys@.len(),
            stats.visual_alerts == visual@.len(),
        decreases records@.len() - i,
    {
        let rec = &records[i];
        proof {
            assert(rv.take(i + 1).drop_last() == rv.take(i as int));
            assert(rv.take(i + 1).last() == rec@);
            lemma_events_in_prefix(rv, i + 1, Category::Threat);
            lemma_events_in_prefix(rv, i + 1, Category::Key);
            lemma_events_in_prefix(rv, i + 1, Category::Visual);
        }
        let module = text_or(&rec.module, "Unknown");
        let severity = text_or(&rec.severity, "INFO");
        let message = text_or(&rec.message, "");
        let timestamp = text_or(&rec.timestamp, "");
        let (time, ts) = parse_timestamp(timestamp.as_str());
        let c = categorize(module.as_str(), severity.as_str());
        proof {
            assert(module@ == module_of(rec@));
            assert(severity@ == severity_of(rec@));
            assert(category_of(rec@) == c);
        }
        let event = GuardianEvent { time, source: module, desc: message, _ts: ts };
        proof {
            reveal_strlit("");
            assert(event@ == event_of(rec@));
        }
        match c {
            Category::Threat => {
                stats.total_blocked = stats.total_blocked + 1;
                threats.push(event);
            },
            Category::Key => {
                stats.sensitive_keys = stats.sensitive_keys + 1;
                keys.push(event);
            },
            Category::Visual => {
                stats.visual_alerts = stats.visual_alerts + 1;
                visual.push(event);
            },
            Category::Unlisted => {},
        }
        i += 1;
    }
    proof {
        assert(rv.take(records@.len() as int) == rv);
    }
    RealActivities { stats, threats, keys, visual }
}

// ---------------------------------------------------------------------------
// AI alerts
// ---------------------------------------------------------------------------

/// An alert raised by the AI brain, as pushed to the front end.
#[derive(Debug, Clone)]
pub struct AiAlert {
    pub time: String,
    /// `AI_Brain_Clipboard` or `AI_Brain_Visual`.
    pub module: String,
    pub severity: String,
    pub message: String,
    pub preview: Option<String>,
    pub model: Option<String>,
}

/// The mathematical content of an [`AiAlert`].
pub struct AiAlertView {
    pub time: Seq<char>,
    pub module: Seq<char>,
    pub severity: Seq<char>,
    pub message: Seq<char>,
    pub preview: Option<Seq<char>>,
    pub model: Option<Seq<char>>,
}

impl View for AiAlert {
    type V = AiAlertView;

    open spec fn view(&self) -> AiAlertView {
        AiAlertView {
            time: self.time@,
            module: self.module@,
            severity: self.severity@,
            message: self.message@,
            preview: ov(self.preview),
            model: ov(self.model),
        }
    }
}

/// The views of alerts.
pub open spec fn alert_views(v: Seq<AiAlert>) -> Seq<AiAlertView> {
    v.map_values(|a: AiAlert| a@)
}

/// The AI alert for a record whose module starts with `AI_Brain`.
pub open spec fn ai_alert_of(r: RecordView) -> Option<AiAlertView> {
    let module = or_default(r.module, ""@);
    if has_prefix(module, "AI_Brain"@) {
        Some(
            AiAlertView {
                time: parse_timestamp_spec(or_default(r.timestamp, ""@)).0,
                module,
                severity: or_default(r.severity, "INFO"@),
                message: or_default(r.message, ""@),
                preview: r.preview,
                model: r.model,
            },
        )
    } else {
        None
    }
}

/// The AI alerts among `records`, in log order.
pub open spec fn ai_alerts_in(records: Seq<RecordView>) -> Seq<AiAlertView>
    decreases records.len(),
{
    if records.len() == 0 {
        seq![]
    } else {
        let rest = ai_alerts_in(records.drop_last());
        match ai_alert_of(records.last()) {
            Some(a) => rest.push(a),
            None => rest,
        }
    }
}

/// The AI alert for `record`, if its module starts with `AI_Brain`.
pub fn ai_alert_from_record(record: &IncidentRecord) -> (r: Option<AiAlert>)
    ensures
        match r {
            Some(a) => ai_alert_of(record@) == Some(a@),
            None => ai_alert_of(record@) is None,
        },
{
    let module = text_or(&record.module, "");
    proof {
        reveal_strlit("");
    }
    if !str_starts_with(module.as_str(), "AI_Brain") {
        return None;
    }
    let timestamp = text_or(&record.timestamp, "");
    let (time, _) = parse_timestamp(timestamp.as_str());
    Some(
        AiAlert {
            time,
            module,
            severity: text_or(&record.severity, "INFO"),
            message: text_or(&record.message, ""),
            preview: record.preview.clone(),
            model: record.model.clone(),
        },
    )
}

/// The AI alerts of an incident log, in log order.
pub fn get_ai_alerts(records: &Vec<IncidentRecord>) -> (r: Vec<AiAlert>)
    ensures
        alert_views(r@) == ai_alerts_in(record_views(records@)),
{
    let ghost rv = record_views(records@);
    let mut out: Vec<AiAlert> = Vec::new();
    let mut i: usize = 0;
    while i < records.len()
        invariant
            i <= records@.len(),
            rv == record_views(records@),
            alert_views(out@) == ai_alerts_in(rv.take(i as int)),
        decreases records@.len() - i,
    {
        proof {
            assert(rv.take(i + 1).drop_last() == rv.take(i as int));
            assert(rv.take(i + 1).last() == records@[i as int]@);
        }
        match ai_alert_from_record(&records[i]) {
            Some(a) => {
                out.push(a);
            },
            None => {},
        }
        i += 1;
    }
    proof {
        assert(rv.take(records@.len() as int) == rv);
    }
    out
}

/// Where a tail reader of a growing log reads next: `Some((from, to))` when
/// the log grew past the last position read.
pub fn next_tail_range(last_pos: u64, current_len: u64) -> (r: Option<(u64, u64)>)
    ensures
        current_len > last_pos ==> r == Some((last_pos, current_len)),
        current_len <= last_pos ==> r is None,
{
    if current_len > last_pos {
        Some((last_pos, current_len))
    } else {
        None
    }
}

// ---------------------------------------------------------------------------
// Exposed ports and the whitelist
// ---------------------------------------------------------------------------

/// The (port, pid) pairs of listening ports.
pub open spec fn pairs_of(ports: Seq<PortRecord>) -> Seq<(u16, u32)> {
    ports.map_values(|p: PortRecord| (p.port, p.pid))
}

/// The (port, pid) pairs of listening ports, in order.
pub fn listening_pairs(ports: &Vec<ExposedPort>) -> (r: Vec<(u16, u32)>)
    ensures
        r@ == pairs_of(port_views(ports@)),
{
    let mut out: Vec<(u16, u32)> = Vec::new();
    let mut i: usize = 0;
    while i < ports.len()
        invariant
            i <= ports@.len(),
            out@ == pairs_of(port_views(ports@)).take(i as int),
        decreases ports@.len() - i,
    {
        out.push((ports[i].port, ports[i].pid));
        proof {
            assert(pairs_of(port_views(ports@)).take(i + 1) == pairs_of(port_views(ports@)).take(
                i as int,
            ).push((ports@[i as int].port, ports@[i as int].pid)));
        }
        i += 1;
    }
    proof {
        assert(pairs_of(port_views(ports@)).take(ports@.len() as int) == pairs_of(
            port_views(ports@),
        ));
    }
    out
}

/// The port marked ignored when its (port, pid) pair is whitelisted.
pub open spec fn mark_spec(p: PortRecord, whitelisted: Seq<(u16, u32)>) -> PortRecord {
    PortRecord {
        port: p.port,
        pid: p.pid,
        process_name: p.process_name,
        is_risky: p.is_risky,
        ignored: if whitelisted.contains((p.port, p.pid)) {
            true
        } else {
            p.ignored
        },
    }
}

fn contains_pair(v: &Vec<(u16, u32)>, x: (u16, u32)) -> (b: bool)
    ensures
        b == v@.contains(x),
{
    let mut i: usize = 0;
    while i < v.len()
        invariant
            i <= v@.len(),
            forall|j: int| 0 <= j < i ==> v@[j] != x,
        decreases v@.len() - i,
    {
        if v[i].0 == x.0 && v[i].1 == x.1 {
            proof {
                assert(v@[i as int] == x);
            }
            return true;
        }
        i += 1;
    }
    false
}

/// The ports, each marked ignored when its (port, pid) pair is whitelisted;
/// order and all other fields are kept.
pub fn mark_whitelisted(ports: Vec<ExposedPort>, whitelisted: &Vec<(u16, u32)>) -> (r: Vec<ExposedPort>)
    ensures
        r@.len() == ports@.len(),
        forall|i: int|
            0 <= i < ports@.len() ==> (#[trigger] r@[i])@ == mark_spec(ports@[i]@, whitelisted@),
{
    let mut ports = ports;
    let ghost orig = ports@;
    let mut i: usize = 0;
    while i < ports.len()
        invariant
            i <= ports@.len(),
            ports@.len() == orig.len(),
            forall|j: int| 0 <= j < i ==> (#[trigger] ports@[j])@ == mark_spec(orig[j]@, whitelisted@),
            forall|j: int| i <= j < ports@.len() ==> #[trigger] ports@[j] == orig[j],
        decreases ports@.len() - i,
    {
        if contains_pair(whitelisted, (ports[i].port, ports[i].pid)) {
            let p = ExposedPort {
                port: ports[i].port,
                pid: ports[i].pid,
                process_name: ports[i].process_name.clone(),
                is_risky: ports[i].is_risky,
                ignored: true,
            };
            ports.set(i, p);
        }
        i += 1;
    }
    ports
}

/// The port numbers of whitelisted (port, pid) pairs, in order.
pub fn whitelisted_port_numbers(pairs: &Vec<(u16, u32)>) -> (r: Vec<u16>)
    ensures
        r@ == pairs@.map_values(|p: (u16, u32)| p.0),
{
    let mut out: Vec<u16> = Vec::new();
    let mut i: usize = 0;
    while i < pairs.len()
        invariant
            i <= pairs@.len(),
            out@ == pairs@.take(i as int).map_values(|p: (u16, u32)| p.0),
        decreases pairs@.len() - i,
    {
        out.push(pairs[i].0);
        proof {
            assert(pairs@.take(i + 1).map_values(|p: (u16, u32)| p.0) == pairs@.take(
                i as int,
            ).map_values(|p: (u16, u32)| p.0).push(pairs@[i as int].0));
        }
        i += 1;
    }
    proof {
        assert(pairs@.take(pairs@.len() as int) == pairs@);
    }
    out
}

// ---------------------------------------------------------------------------
// Configuration
// ---------------------------------------------------------------------------

/// Which monitors are enabled.
#[derive(Debug, Clone, Copy)]
pub struct ModulesConfig {
    pub visual: bool,
    pub clipboard: bool,
    pub network: bool,
}

/// The guardian's configuration as the dashboard edits it.
#[derive(Debug, Clone)]
pub struct GuardianConfig {
    pub mode: String,
    pub modules: ModulesConfig,
}

/// `true` or `false`.
pub open spec fn bool_text(b: bool) -> Seq<char> {
    if b {
        "true"@
    } else {
        "false"@
    }
}

fn bool_str(b: bool) -> (s: &'static str)
    ensures
        s@ == bool_text(b),
{
    if b {
        "true"
    } else {
        "false"
    }
}

/// The configuration file text written for `mode` and `modules`.
pub open spec fn config_yaml(mode: Seq<char>, modules: ModulesConfig) -> Seq<char> {
    "mode: "@ + mode + "\n"@ + "modules:"@ + "\n"@ + "  visual: "@ + bool_text(modules.visual)
        + "\n"@ + "  clipboard: "@ + bool_text(modules.clipboard) + "\n"@ + "  network: "@
        + bool_text(modules.network)
}

/// The configuration file text for `mode` and `modules`: the lines
/// `mode: <mode>`, `modules:` and one `  <module>: <bool>` per module,
/// joined by newlines.
pub fn render_config(mode: &str, modules: &ModulesConfig) -> (s: String)
    ensures
        s@ == config_yaml(mode@, *modules),
{
    let mut s = concat2("mode: ", mode);
    push_str(&mut s, "\n");
    push_str(&mut s, "modules:");
    push_str(&mut s, "\n");
    push_str(&mut s, "  visual: ");
    push_str(&mut s, bool_str(modules.visual));
    push_str(&mut s, "\n");
    push_str(&mut s, "  clipboard: ");
    push_str(&mut s, bool_str(modules.clipboard));
    push_str(&mut s, "\n");
    push_str(&mut s, "  network: ");
    push_str(&mut s, bool_str(modules.network));
    s
}

impl GuardianConfig {
    /// The configuration the dashboard starts with: `Silent Monitor`, every
    /// monitor on.
    pub fn initial() -> (c: GuardianConfig)
        ensures
            c.mode@ == "Silent Monitor"@,
            c.modules.visual && c.modules.clipboard && c.modules.network,
    {
        GuardianConfig {
            mode: owned("Silent Monitor"),
            modules: ModulesConfig { visual: true, clipboard: true, network: true },
        }
    }

    /// Replaces mode and modules and returns the file text to write: the
    /// `mode` and `modules` sections, then every other section of the
    /// existing file `existing`, line for line.
    pub fn update_config(&mut self, mode: String, modules: ModulesConfig, existing: &str) -> (text:
        String)
        ensures
            final(self).mode@ == mode@,
            final(self).modules == modules,
            text@ == append_lines(config_yaml(mode@, modules), kept_lines(existing@, guardian_keys())),
    {
        let rendered = render_config(mode.as_str(), &modules);
        let written: Vec<&str> = vec!["mode", "modules"];
        proof {
            assert(written@.map_values(|d: &str| d@) =~= guardian_keys());
        }
        let text = merge_config(rendered, existing, &written);
        self.mode = mode;
        self.modules = modules;
        text
    }
}

} // verus!
