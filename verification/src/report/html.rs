//! A report as one self-contained HTML document, with its styles for the screen and for print.

use vstd::prelude::*;

use crate::digest;
use crate::digest::{fmt_ts, show_pct, unit_text};
use crate::fleet::ExpiryItem;
use crate::notify;
use crate::numbers;
use crate::report::compute::{LongestOutage, MonitorReport, ReportIncident, ReportSummary};
use crate::text;

verus! {

/// A character as it stands in HTML text.
pub open spec fn escaped_char(c: char) -> Seq<char> {
    if c == '&' {
        "&amp;"@
    } else if c == '<' {
        "&lt;"@
    } else if c == '>' {
        "&gt;"@
    } else if c == '"' {
        "&quot;"@
    } else {
        seq![c]
    }
}

/// A text as it stands in HTML text.
pub open spec fn escaped(s: Seq<char>) -> Seq<char>
    decreases s.len(),
{
    if s.len() == 0 {
        Seq::empty()
    } else {
        escaped(s.drop_last()) + escaped_char(s.last())
    }
}

/// Escapes a text for HTML.
pub fn esc(s: &str) -> (r: String)
    ensures
        r@ == escaped(s@),
{
    let v = text::chars(s);
    let mut r = String::new();
    let mut i: usize = 0;
    while i < v.len()
        invariant
            i <= v@.len(),
            r@ == escaped(v@.take(i as int)),
        decreases v@.len() - i,
    {
        let c = v[i];
        let ghost before = r@;
        assert(v@.take(i + 1).drop_last() =~= v@.take(i as int));
        if c == '&' {
            r.append("&amp;");
        } else if c == '<' {
            r.append("&lt;");
        } else if c == '>' {
            r.append("&gt;");
        } else if c == '"' {
            r.append("&quot;");
        } else {
            r.push(c);
        }
        assert(r@ =~= before + escaped_char(c));
        i += 1;
    }
    assert(v@.take(v@.len() as int) =~= v@);
    r
}

/// Escaped text opens no tag and ends no attribute.
pub proof fn law_escaped_text_is_inert(s: Seq<char>, i: int)
    requires
        0 <= i < escaped(s).len(),
    ensures
        escaped(s)[i] != '<',
        escaped(s)[i] != '>',
        escaped(s)[i] != '"',
    decreases s.len(),
{
    if s.len() > 0 {
        let rest = escaped(s.drop_last());
        if i < rest.len() {
            law_escaped_text_is_inert(s.drop_last(), i);
        } else {
            reveal_strlit("&amp;");
            reveal_strlit("&lt;");
            reveal_strlit("&gt;");
            reveal_strlit("&quot;");
            assert(escaped(s)[i] == escaped_char(s.last())[i - rest.len()]);
        }
    }
}

/// A duration in minutes and seconds.
pub open spec fn minutes(v: int) -> Seq<char> {
    text::dec(numbers::quotient(v, 60)) + "m "@ + text::dec(numbers::remainder(v, 60)) + "s"@
}

/// Writes a duration in minutes and seconds.
pub fn secs(v: i64) -> (r: String)
    ensures
        r@ == minutes(v as int),
{
    let m = text::int_text(numbers::divide(v, 60));
    let s = text::int_text(numbers::left_over(v, 60));
    let mut r = m;
    r.append("m ");
    r.append(s.as_str());
    r.append("s");
    r
}

/// A duration, or a dash where there is none.
pub open spec fn minutes_or_dash(v: Option<i64>) -> Seq<char> {
    match v {
        Some(n) => minutes(n as int),
        None => "—"@,
    }
}

fn secs_or_dash(v: Option<i64>) -> (r: String)
    ensures
        r@ == minutes_or_dash(v),
{
    match v {
        Some(n) => secs(n),
        None => text::own("—"),
    }
}

/// A change of uptime: an arrow and its size.
pub open spec fn change(v: Option<i64>) -> Seq<char> {
    match v {
        Some(d) => (if d >= 0 {
            "▲ "@
        } else {
            "▼ "@
        }) + numbers::fixed2_abs(numbers::magnitude(d as int)),
        None => "—"@,
    }
}

/// Writes a change of uptime.
pub fn delta(v: Option<i64>) -> (r: String)
    ensures
        r@ == change(v),
{
    match v {
        Some(d) => {
            let size = numbers::fixed2_size(d);
            let mut r = if d >= 0 {
                text::own("▲ ")
            } else {
                text::own("▼ ")
            };
            r.append(size.as_str());
            r
        },
        None => text::own("—"),
    }
}

/// The styles of a report.
pub const STYLE: &'static str = "body{background:#0A1220;color:#EAEDF3;font-family:Inter,system-ui,sans-serif;margin:0;padding:24px}h1,h2{color:#EAEDF3} .band{display:flex;flex-wrap:wrap;gap:24px;margin:16px 0}.tile{background:#16233A;border:1px solid #2A3A56;border-radius:10px;padding:12px 16px}.tile .n{font-family:'JetBrains Mono',monospace;font-size:24px;font-weight:600}table{width:100%;border-collapse:collapse;margin:12px 0}th,td{text-align:left;padding:6px 10px;border-bottom:1px solid #1E2C44;font-size:14px}.mono{font-family:'JetBrains Mono',monospace}.flag-expiring{color:#F5A623}.flag-invalid,.flag-unknown{color:#F26D6D}@media print{body{background:#fff;color:#111}.tile{background:#f4f6fa;border-color:#ccc}th,td{border-color:#ddd}section{break-inside:avoid}}";

/// The head of the document, with its title.
pub open spec fn head(s: ReportSummary, version: Seq<char>) -> Seq<char> {
    "<!doctype html><html><head><meta charset=\"utf-8\"><title>Vigil report — "@ + escaped(s.label@)
        + "</title><style>"@ + STYLE@ + "</style></head><body>"@
        + "<h1>Vigil monthly report — "@ + escaped(s.label@) + "</h1>"@ + "<p class=\"mono\">"@
        + escaped(s.period@) + " · generated "@ + text::dec(s.generated_at as int) + " · Vigil "@
        + version + "</p>"@
}

/// A tile of the band.
pub open spec fn tile(label: Seq<char>, value: Seq<char>) -> Seq<char> {
    "<div class=\"tile\"><div>"@ + label + "</div><div class=\"n\">"@ + value + "</div></div>"@
}

/// Two counts, side by side.
pub open spec fn pair(a: i64, b: i64) -> Seq<char> {
    text::dec(a as int) + " / "@ + text::dec(b as int)
}

/// The longest outage, or a dash.
pub open spec fn outage(l: Option<LongestOutage>) -> Seq<char> {
    match l {
        Some(o) => escaped(o.monitor@) + " ("@ + minutes(o.seconds as int) + ")"@,
        None => "—"@,
    }
}

/// The band of the fleet's figures.
pub open spec fn band(s: ReportSummary) -> Seq<char> {
    let f = s.fleet;
    "<div class=\"band\">"@ + tile(
        "Uptime"@,
        digest::shown_pct(f.uptime_pct, "—"@) + " <small>("@ + change(f.uptime_delta)
            + ")</small>"@,
    ) + tile("Incidents"@, text::dec(f.incidents as int)) + tile(
        "Downtime"@,
        minutes(f.downtime_seconds as int),
    ) + tile("MTTR"@, minutes_or_dash(f.mttr_seconds)) + tile(
        "Longest outage"@,
        outage(f.longest_outage),
    ) + tile("Clean"@, pair(f.clean_monitors, f.monitors_total)) + tile(
        "SSL/domain alerts"@,
        pair(f.ssl_alerts, f.domain_alerts),
    ) + tile("Expiring ≤30d / ≤60d"@, pair(f.expiring_30d, f.expiring_60d)) + "</div>"@
}

/// The row of a monitor.
pub open spec fn monitor_row_text(m: MonitorReport) -> Seq<char> {
    "<tr><td>"@ + escaped(m.name@) + "</td><td>"@ + escaped(m.kind@) + "</td><td class=\"mono\">"@
        + digest::shown_pct(m.uptime_pct, "—"@) + "</td><td class=\"mono\">"@ + text::dec(
        m.incidents as int,
    ) + "</td><td class=\"mono\">"@ + minutes(m.downtime_seconds as int)
        + "</td><td class=\"mono\">"@ + minutes_or_dash(m.mttr_seconds)
        + "</td><td class=\"mono\">"@ + digest::with_unit(m.avg_ms, "ms"@, "—"@)
        + "</td><td class=\"mono\">"@ + digest::with_unit(m.p95_ms, "ms"@, "—"@) + "</td><td>"@
        + escaped(m.end_status@) + "</td></tr>"@
}

/// The row of an incident.
pub open spec fn incident_row_text(i: ReportIncident) -> Seq<char> {
    "<tr><td>"@ + escaped(i.monitor_name@) + "</td><td class=\"mono\">"@ + text::dec(
        i.started_at as int,
    ) + "</td><td class=\"mono\">"@ + minutes_or_dash(i.duration_seconds) + "</td><td>"@ + escaped(
        notify::text_or(i.cause, "-"@),
    ) + "</td><td class=\"mono\">"@ + digest::with_unit(i.resolved_at, Seq::empty(), "ongoing"@)
        + "</td></tr>"@
}

/// The row of a certificate or domain.
pub open spec fn outlook_row_text(e: ExpiryItem) -> Seq<char> {
    "<tr><td>"@ + escaped(e.monitor@) + "</td><td>"@ + escaped(e.kind@) + "</td><td class=\"mono\">"@
        + digest::with_unit(e.days_remaining, Seq::empty(), "—"@) + "</td><td class=\"flag-"@
        + escaped(e.flag@) + "\">"@ + escaped(e.flag@) + "</td></tr>"@
}

/// The rows of the monitors.
pub open spec fn monitor_rows(v: Seq<MonitorReport>) -> Seq<char>
    decreases v.len(),
{
    if v.len() == 0 {
        Seq::empty()
    } else {
        monitor_rows(v.drop_last()) + monitor_row_text(v.last())
    }
}

/// The rows of the incidents.
pub open spec fn incident_rows(v: Seq<ReportIncident>) -> Seq<char>
    decreases v.len(),
{
    if v.len() == 0 {
        Seq::empty()
    } else {
        incident_rows(v.drop_last()) + incident_row_text(v.last())
    }
}

/// The rows of the outlook.
pub open spec fn outlook_rows(v: Seq<ExpiryItem>) -> Seq<char>
    decreases v.len(),
{
    if v.len() == 0 {
        Seq::empty()
    } else {
        outlook_rows(v.drop_last()) + outlook_row_text(v.last())
    }
}

/// A note where a table has no rows.
pub open spec fn note_if(empty: bool, note: Seq<char>) -> Seq<char> {
    if empty {
        note
    } else {
        Seq::empty()
    }
}

/// The tables of a report.
pub open spec fn tables(s: ReportSummary) -> Seq<char> {
    "<section><h2>Per-monitor</h2><table><tr><th>Monitor</th><th>Type</th><th>Uptime</th><th>Incidents</th><th>Downtime</th><th>MTTR</th><th>Avg</th><th>p95</th><th>End</th></tr>"@
        + monitor_rows(s.monitors@) + "</table></section>"@
        + "<section><h2>Incidents</h2><table><tr><th>Monitor</th><th>Started</th><th>Duration</th><th>Cause</th><th>Resolved</th></tr>"@
        + note_if(s.incidents@.len() == 0, "<tr><td colspan=5>No incidents.</td></tr>"@)
        + incident_rows(s.incidents@) + "</table></section>"@
        + "<section><h2>Certificate &amp; domain outlook</h2><table><tr><th>Monitor</th><th>Kind</th><th>Days remaining</th><th>Status</th></tr>"@
        + note_if(s.cert_outlook@.len() == 0, "<tr><td colspan=4>Nothing tracked.</td></tr>"@)
        + outlook_rows(s.cert_outlook@) + "</table></section></body></html>"@
}

/// The document of a report.
pub open spec fn document(s: ReportSummary, version: Seq<char>) -> Seq<char> {
    head(s, version) + band(s) + tables(s)
}

fn write_head(s: &ReportSummary, version: &str) -> (r: String)
    ensures
        r@ == head(*s, version@),
{
    let label = esc(s.label.as_str());
    let period = esc(s.period.as_str());
    let at = fmt_ts(s.generated_at);
    let mut h = text::own(
        "<!doctype html><html><head><meta charset=\"utf-8\"><title>Vigil report — ",
    );
    h.append(label.as_str());
    h.append("</title><style>");
    h.append(STYLE);
    h.append("</style></head><body>");
    h.append("<h1>Vigil monthly report — ");
    h.append(label.as_str());
    h.append("</h1>");
    h.append("<p class=\"mono\">");
    h.append(period.as_str());
    h.append(" · generated ");
    h.append(at.as_str());
    h.append(" · Vigil ");
    h.append(version);
    h.append("</p>");
    assert(h@ =~= head(*s, version@));
    h
}

fn write_tile(h: &mut String, label: &str, value: &str)
    ensures
        final(h)@ == old(h)@ + tile(label@, value@),
{
    let ghost before = h@;
    h.append("<div class=\"tile\"><div>");
    h.append(label);
    h.append("</div><div class=\"n\">");
    h.append(value);
    h.append("</div></div>");
    assert(h@ =~= before + tile(label@, value@));
}

fn write_pair(a: i64, b: i64) -> (r: String)
    ensures
        r@ == pair(a, b),
{
    let second = text::int_text(b);
    let mut r = text::int_text(a);
    r.append(" / ");
    r.append(second.as_str());
    r
}

fn write_outage(l: &Option<LongestOutage>) -> (r: String)
    ensures
        r@ == outage(*l),
{
    match l {
        Some(o) => {
            let took = secs(o.seconds);
            let mut r = esc(o.monitor.as_str());
            r.append(" (");
            r.append(took.as_str());
            r.append(")");
            r
        },
        None => text::own("—"),
    }
}

fn write_band(s: &ReportSummary) -> (r: String)
    ensures
        r@ == band(*s),
{
    let f = &s.fleet;
    let mut uptime = show_pct(f.uptime_pct, "—");
    let changed = delta(f.uptime_delta);
    uptime.append(" <small>(");
    uptime.append(changed.as_str());
    uptime.append(")</small>");
    let incidents = text::int_text(f.incidents);
    let downtime = secs(f.downtime_seconds);
    let mttr = secs_or_dash(f.mttr_seconds);
    let longest = write_outage(&f.longest_outage);
    let clean = write_pair(f.clean_monitors, f.monitors_total);
    let alerts = write_pair(f.ssl_alerts, f.domain_alerts);
    let expiring = write_pair(f.expiring_30d, f.expiring_60d);
    let mut h = text::own("<div class=\"band\">");
    write_tile(&mut h, "Uptime", uptime.as_str());
    write_tile(&mut h, "Incidents", incidents.as_str());
    write_tile(&mut h, "Downtime", downtime.as_str());
    write_tile(&mut h, "MTTR", mttr.as_str());
    write_tile(&mut h, "Longest outage", longest.as_str());
    write_tile(&mut h, "Clean", clean.as_str());
    write_tile(&mut h, "SSL/domain alerts", alerts.as_str());
    write_tile(&mut h, "Expiring ≤30d / ≤60d", expiring.as_str());
    h.append("</div>");
    h
}

/// Writes the row of a monitor.
pub fn monitor_row(m: &MonitorReport) -> (r: String)
    ensures
        r@ == monitor_row_text(*m),
{
    let name = esc(m.name.as_str());
    let kind = esc(m.kind.as_str());
    let uptime = show_pct(m.uptime_pct, "—");
    let incidents = text::int_text(m.incidents);
    let downtime = secs(m.downtime_seconds);
    let mttr = secs_or_dash(m.mttr_seconds);
    let avg = unit_text(m.avg_ms, "ms", "—");
    let p95 = unit_text(m.p95_ms, "ms", "—");
    let end = esc(m.end_status.as_str());
    let mut h = text::own("<tr><td>");
    h.append(name.as_str());
    h.append("</td><td>");
    h.append(kind.as_str());
    h.append("</td><td class=\"mono\">");
    h.append(uptime.as_str());
    h.append("</td><td class=\"mono\">");
    h.append(incidents.as_str());
    h.append("</td><td class=\"mono\">");
    h.append(downtime.as_str());
    h.append("</td><td class=\"mono\">");
    h.append(mttr.as_str());
    h.append("</td><td class=\"mono\">");
    h.append(avg.as_str());
    h.append("</td><td class=\"mono\">");
    h.append(p95.as_str());
    h.append("</td><td>");
    h.append(end.as_str());
    h.append("</td></tr>");
    h
}

/// Writes the row of an incident.
pub fn incident_row(i: &ReportIncident) -> (r: String)
    ensures
        r@ == incident_row_text(*i),
{
    let name = esc(i.monitor_name.as_str());
    let started = fmt_ts(i.started_at);
    let took = secs_or_dash(i.duration_seconds);
    let raw_cause = notify::own_or(&i.cause, "-");
    let cause = esc(raw_cause.as_str());
    proof {
        reveal_strlit("");
        assert(""@ =~= Seq::<char>::empty());
    }
    let resolved = unit_text(i.resolved_at, "", "ongoing");
    let mut h = text::own("<tr><td>");
    h.append(name.as_str());
    h.append("</td><td class=\"mono\">");
    h.append(started.as_str());
    h.append("</td><td class=\"mono\">");
    h.append(took.as_str());
    h.append("</td><td>");
    h.append(cause.as_str());
    h.append("</td><td class=\"mono\">");
    h.append(resolved.as_str());
    h.append("</td></tr>");
    h
}

/// Writes the row of a certificate or domain.
pub fn outlook_row(e: &ExpiryItem) -> (r: String)
    ensures
        r@ == outlook_row_text(*e),
{
    let name = esc(e.monitor.as_str());
    let kind = esc(e.kind.as_str());
    let flag = esc(e.flag.as_str());
    proof {
        reveal_strlit("");
        assert(""@ =~= Seq::<char>::empty());
    }
    let days = unit_text(e.days_remaining, "", "—");
    let mut h = text::own("<tr><td>");
    h.append(name.as_str());
    h.append("</td><td>");
    h.append(kind.as_str());
    h.append("</td><td class=\"mono\">");
    h.append(days.as_str());
    h.append("</td><td class=\"flag-");
    h.append(flag.as_str());
    h.append("\">");
    h.append(flag.as_str());
    h.append("</td></tr>");
    h
}

fn write_monitors(h: &mut String, v: &Vec<MonitorReport>)
    ensures
        final(h)@ == old(h)@ + monitor_rows(v@),
{
    let ghost before = h@;
    let mut i: usize = 0;
    assert(before + monitor_rows(v@.take(0)) =~= before);
    while i < v.len()
        invariant
            i <= v@.len(),
            h@ == before + monitor_rows(v@.take(i as int)),
        decreases v@.len() - i,
    {
        assert(v@.take(i + 1).drop_last() =~= v@.take(i as int));
        let row = monitor_row(&v[i]);
        h.append(row.as_str());
        assert(h@ =~= before + monitor_rows(v@.take(i + 1)));
        i += 1;
    }
    assert(v@.take(v@.len() as int) =~= v@);
}

fn write_incidents(h: &mut String, v: &Vec<ReportIncident>)
    ensures
        final(h)@ == old(h)@ + incident_rows(v@),
{
    let ghost before = h@;
    let mut i: usize = 0;
    assert(before + incident_rows(v@.take(0)) =~= before);
    while i < v.len()
        invariant
            i <= v@.len(),
            h@ == before + incident_rows(v@.take(i as int)),
        decreases v@.len() - i,
    {
        assert(v@.take(i + 1).drop_last() =~= v@.take(i as int));
        let row = incident_row(&v[i]);
        h.append(row.as_str());
        assert(h@ =~= before + incident_rows(v@.take(i + 1)));
        i += 1;
    }
    assert(v@.take(v@.len() as int) =~= v@);
}

fn write_outlook(h: &mut String, v: &Vec<ExpiryItem>)
    ensures
        final(h)@ == old(h)@ + outlook_rows(v@),
{
    let ghost before = h@;
    let mut i: usize = 0;
    assert(before + outlook_rows(v@.take(0)) =~= before);
    while i < v.len()
        invariant
            i <= v@.len(),
            h@ == before + outlook_rows(v@.take(i as int)),
        decreases v@.len() - i,
    {
        assert(v@.take(i + 1).drop_last() =~= v@.take(i as int));
        let row = outlook_row(&v[i]);
        h.append(row.as_str());
        assert(h@ =~= before + outlook_rows(v@.take(i + 1)));
        i += 1;
    }
    assert(v@.take(v@.len() as int) =~= v@);
}

fn write_tables(s: &ReportSummary) -> (r: String)
    ensures
        r@ == tables(*s),
{
    let mut h = text::own(
        "<section><h2>Per-monitor</h2><table><tr><th>Monitor</th><th>Type</th><th>Uptime</th><th>Incidents</th><th>Downtime</th><th>MTTR</th><th>Avg</th><th>p95</th><th>End</th></tr>",
    );
    write_monitors(&mut h, &s.monitors);
    h.append("</table></section>");
    h.append(
        "<section><h2>Incidents</h2><table><tr><th>Monitor</th><th>Started</th><th>Duration</th><th>Cause</th><th>Resolved</th></tr>",
    );
    if s.incidents.len() == 0 {
        h.append("<tr><td colspan=5>No incidents.</td></tr>");
    }
    write_incidents(&mut h, &s.incidents);
    h.append("</table></section>");
    h.append(
        "<section><h2>Certificate &amp; domain outlook</h2><table><tr><th>Monitor</th><th>Kind</th><th>Days remaining</th><th>Status</th></tr>",
    );
    if s.cert_outlook.len() == 0 {
        h.append("<tr><td colspan=4>Nothing tracked.</td></tr>");
    }
    write_outlook(&mut h, &s.cert_outlook);
    h.append("</table></section></body></html>");
    assert(h@ =~= tables(*s));
    h
}

/// Writes a report as an HTML document that names the program's version.
pub fn render_html(s: &ReportSummary, version: &str) -> (r: String)
    ensures
        r@ == document(*s, version@),
{
    let mut h = write_head(s, version);
    let band = write_band(s);
    let tables = write_tables(s);
    h.append(band.as_str());
    h.append(tables.as_str());
    h
}

/// The row of a monitor has a cell for each of its figures: its name and type, uptime, incidents,
/// downtime, time to recovery, average and slow response, and status at the end.
pub proof fn law_monitor_row_states_its_figures(m: MonitorReport)
    ensures
        text::within(monitor_row_text(m), "<tr><td>"@ + escaped(m.name@) + "</td><td>"@),
        text::within(monitor_row_text(m), "</td><td>"@ + escaped(m.kind@) + "</td><td class=\"mono\">"@),
        text::within(monitor_row_text(m), "</td><td class=\"mono\">"@ + digest::shown_pct(m.uptime_pct, "—"@) + "</td><td class=\"mono\">"@),
        text::within(monitor_row_text(m), "</td><td class=\"mono\">"@ + text::dec(m.incidents as int) + "</td><td class=\"mono\">"@),
        text::within(monitor_row_text(m), "</td><td class=\"mono\">"@ + minutes(m.downtime_seconds as int) + "</td><td class=\"mono\">"@),
        text::within(monitor_row_text(m), "</td><td class=\"mono\">"@ + minutes_or_dash(m.mttr_seconds) + "</td><td class=\"mono\">"@),
        text::within(monitor_row_text(m), "</td><td class=\"mono\">"@ + digest::with_unit(m.avg_ms, "ms"@, "—"@) + "</td><td class=\"mono\">"@),
        text::within(monitor_row_text(m), "</td><td class=\"mono\">"@ + digest::with_unit(m.p95_ms, "ms"@, "—"@) + "</td><td>"@),
        text::within(monitor_row_text(m), "</td><td>"@ + escaped(m.end_status@) + "</td></tr>"@),
{
    let a0 = "<tr><td>"@;
    let a1 = a0 + escaped(m.name@);
    let a2 = a1 + "</td><td>"@;
    let a3 = a2 + escaped(m.kind@);
    let a4 = a3 + "</td><td class=\"mono\">"@;
    let a5 = a4 + digest::shown_pct(m.uptime_pct, "—"@);
    let a6 = a5 + "</td><td class=\"mono\">"@;
    let a7 = a6 + text::dec(m.incidents as int);
    let a8 = a7 + "</td><td class=\"mono\">"@;
    let a9 = a8 + minutes(m.downtime_seconds as int);
    let a10 = a9 + "</td><td class=\"mono\">"@;
    let a11 = a10 + minutes_or_dash(m.mttr_seconds);
    let a12 = a11 + "</td><td class=\"mono\">"@;
    let a13 = a12 + digest::with_unit(m.avg_ms, "ms"@, "—"@);
    let a14 = a13 + "</td><td class=\"mono\">"@;
    let a15 = a14 + digest::with_unit(m.p95_ms, "ms"@, "—"@);
    let a16 = a15 + "</td><td>"@;
    let a17 = a16 + escaped(m.end_status@);
    let a18 = a17 + "</td></tr>"@;
    text::law_ends_are_held(a0, escaped(m.name@));
    text::law_ends_are_held(a1, "</td><td>"@);
    text::law_ends_are_held(a2, escaped(m.kind@));
    text::law_ends_are_held(a3, "</td><td class=\"mono\">"@);
    text::law_ends_are_held(a4, digest::shown_pct(m.uptime_pct, "—"@));
    text::law_ends_are_held(a5, "</td><td class=\"mono\">"@);
    text::law_ends_are_held(a6, text::dec(m.incidents as int));
    text::law_ends_are_held(a7, "</td><td class=\"mono\">"@);
    text::law_ends_are_held(a8, minutes(m.downtime_seconds as int));
    text::law_ends_are_held(a9, "</td><td class=\"mono\">"@);
    text::law_ends_are_held(a10, minutes_or_dash(m.mttr_seconds));
    text::law_ends_are_held(a11, "</td><td class=\"mono\">"@);
    text::law_ends_are_held(a12, digest::with_unit(m.avg_ms, "ms"@, "—"@));
    text::law_ends_are_held(a13, "</td><td class=\"mono\">"@);
    text::law_ends_are_held(a14, digest::with_unit(m.p95_ms, "ms"@, "—"@));
    text::law_ends_are_held(a15, "</td><td>"@);
    text::law_ends_are_held(a16, escaped(m.end_status@));
    text::law_ends_are_held(a17, "</td></tr>"@);
    assert(Seq::<char>::empty() + "<tr><td>"@ =~= "<tr><td>"@);
    text::law_framed_text_is_held(Seq::<char>::empty(), "<tr><td>"@, escaped(m.name@), "</td><td>"@);
    text::law_framed_text_is_held(a1, "</td><td>"@, escaped(m.kind@), "</td><td class=\"mono\">"@);
    text::law_framed_text_is_held(a3, "</td><td class=\"mono\">"@, digest::shown_pct(m.uptime_pct, "—"@), "</td><td class=\"mono\">"@);
    text::law_framed_text_is_held(a5, "</td><td class=\"mono\">"@, text::dec(m.incidents as int), "</td><td class=\"mono\">"@);
    text::law_framed_text_is_held(a7, "</td><td class=\"mono\">"@, minutes(m.downtime_seconds as int), "</td><td class=\"mono\">"@);
    text::law_framed_text_is_held(a9, "</td><td class=\"mono\">"@, minutes_or_dash(m.mttr_seconds), "</td><td class=\"mono\">"@);
    text::law_framed_text_is_held(a11, "</td><td class=\"mono\">"@, digest::with_unit(m.avg_ms, "ms"@, "—"@), "</td><td class=\"mono\">"@);
    text::law_framed_text_is_held(a13, "</td><td class=\"mono\">"@, digest::with_unit(m.p95_ms, "ms"@, "—"@), "</td><td>"@);
    text::law_framed_text_is_held(a15, "</td><td>"@, escaped(m.end_status@), "</td></tr>"@);
}

/// The row of an incident has a cell for its monitor, start, duration, cause and end.
pub proof fn law_incident_row_states_its_figures(i: ReportIncident)
    ensures
        text::within(incident_row_text(i), "<tr><td>"@ + escaped(i.monitor_name@) + "</td><td class=\"mono\">"@),
        text::within(incident_row_text(i), "</td><td class=\"mono\">"@ + text::dec(i.started_at as int) + "</td><td class=\"mono\">"@),
        text::within(incident_row_text(i), "</td><td class=\"mono\">"@ + minutes_or_dash(i.duration_seconds) + "</td><td>"@),
        text::within(incident_row_text(i), "</td><td>"@ + escaped(notify::text_or(i.cause, "-"@)) + "</td><td class=\"mono\">"@),
        text::within(incident_row_text(i), "</td><td class=\"mono\">"@ + digest::with_unit(i.resolved_at, Seq::empty(), "ongoing"@) + "</td></tr>"@),
{
    let a0 = "<tr><td>"@;
    let a1 = a0 + escaped(i.monitor_name@);
    let a2 = a1 + "</td><td class=\"mono\">"@;
    let a3 = a2 + text::dec(i.started_at as int);
    let a4 = a3 + "</td><td class=\"mono\">"@;
    let a5 = a4 + minutes_or_dash(i.duration_seconds);
    let a6 = a5 + "</td><td>"@;
    let a7 = a6 + escaped(notify::text_or(i.cause, "-"@));
    let a8 = a7 + "</td><td class=\"mono\">"@;
    let a9 = a8 + digest::with_unit(i.resolved_at, Seq::empty(), "ongoing"@);
    let a10 = a9 + "</td></tr>"@;
    text::law_ends_are_held(a0, escaped(i.monitor_name@));
    text::law_ends_are_held(a1, "</td><td class=\"mono\">"@);
    text::law_ends_are_held(a2, text::dec(i.started_at as int));
    text::law_ends_are_held(a3, "</td><td class=\"mono\">"@);
    text::law_ends_are_held(a4, minutes_or_dash(i.duration_seconds));
    text::law_ends_are_held(a5, "</td><td>"@);
    text::law_ends_are_held(a6, escaped(notify::text_or(i.cause, "-"@)));
    text::law_ends_are_held(a7, "</td><td class=\"mono\">"@);
    text::law_ends_are_held(a8, digest::with_unit(i.resolved_at, Seq::empty(), "ongoing"@));
    text::law_ends_are_held(a9, "</td></tr>"@);
    assert(Seq::<char>::empty() + "<tr><td>"@ =~= "<tr><td>"@);
    text::law_framed_text_is_held(Seq::<char>::empty(), "<tr><td>"@, escaped(i.monitor_name@), "</td><td class=\"mono\">"@);
    text::law_framed_text_is_held(a1, "</td><td class=\"mono\">"@, text::dec(i.started_at as int), "</td><td class=\"mono\">"@);
    text::law_framed_text_is_held(a3, "</td><td class=\"mono\">"@, minutes_or_dash(i.duration_seconds), "</td><td>"@);
    text::law_framed_text_is_held(a5, "</td><td>"@, escaped(notify::text_or(i.cause, "-"@)), "</td><td class=\"mono\">"@);
    text::law_framed_text_is_held(a7, "</td><td class=\"mono\">"@, digest::with_unit(i.resolved_at, Seq::empty(), "ongoing"@), "</td></tr>"@);
}

/// The row of a certificate or domain has a cell for its monitor, kind, days left and flag.
pub proof fn law_outlook_row_states_its_figures(e: ExpiryItem)
    ensures
        text::within(outlook_row_text(e), "<tr><td>"@ + escaped(e.monitor@) + "</td><td>"@),
        text::within(outlook_row_text(e), "</td><td>"@ + escaped(e.kind@) + "</td><td class=\"mono\">"@),
        text::within(outlook_row_text(e), "</td><td class=\"mono\">"@ + digest::with_unit(e.days_remaining, Seq::empty(), "—"@) + "</td><td class=\"flag-"@),
        text::within(outlook_row_text(e), "</td><td class=\"flag-"@ + escaped(e.flag@) + "\">"@),
        text::within(outlook_row_text(e), "\">"@ + escaped(e.flag@) + "</td></tr>"@),
{
    let a0 = "<tr><td>"@;
    let a1 = a0 + escaped(e.monitor@);
    let a2 = a1 + "</td><td>"@;
    let a3 = a2 + escaped(e.kind@);
    let a4 = a3 + "</td><td class=\"mono\">"@;
    let a5 = a4 + digest::with_unit(e.days_remaining, Seq::empty(), "—"@);
    let a6 = a5 + "</td><td class=\"flag-"@;
    let a7 = a6 + escaped(e.flag@);
    let a8 = a7 + "\">"@;
    let a9 = a8 + escaped(e.flag@);
    let a10 = a9 + "</td></tr>"@;
    text::law_ends_are_held(a0, escaped(e.monitor@));
    text::law_ends_are_held(a1, "</td><td>"@);
    text::law_ends_are_held(a2, escaped(e.kind@));
    text::law_ends_are_held(a3, "</td><td class=\"mono\">"@);
    text::law_ends_are_held(a4, digest::with_unit(e.days_remaining, Seq::empty(), "—"@));
    text::law_ends_are_held(a5, "</td><td class=\"flag-"@);
    text::law_ends_are_held(a6, escaped(e.flag@));
    text::law_ends_are_held(a7, "\">"@);
    text::law_ends_are_held(a8, escaped(e.flag@));
    text::law_ends_are_held(a9, "</td></tr>"@);
    assert(Seq::<char>::empty() + "<tr><td>"@ =~= "<tr><td>"@);
    text::law_framed_text_is_held(Seq::<char>::empty(), "<tr><td>"@, escaped(e.monitor@), "</td><td>"@);
    text::law_framed_text_is_held(a1, "</td><td>"@, escaped(e.kind@), "</td><td class=\"mono\">"@);
    text::law_framed_text_is_held(a3, "</td><td class=\"mono\">"@, digest::with_unit(e.days_remaining, Seq::empty(), "—"@), "</td><td class=\"flag-"@);
    text::law_framed_text_is_held(a5, "</td><td class=\"flag-"@, escaped(e.flag@), "\">"@);
    text::law_framed_text_is_held(a7, "\">"@, escaped(e.flag@), "</td></tr>"@);
}

/// The document states every figure of the fleet under its own label.
pub proof fn law_document_states_the_fleet(s: ReportSummary, version: Seq<char>)
    ensures
        ({
            let f = s.fleet;
            let d = document(s, version);
            &&& text::within(d, "<div class=\"tile\"><div>"@ + "Uptime"@ + "</div><div class=\"n\">"@ + (digest::shown_pct(f.uptime_pct, "—"@) + " <small>("@ + change(f.uptime_delta) + ")</small>"@) + "</div></div>"@)
            &&& text::within(d, "<div class=\"tile\"><div>"@ + "Incidents"@ + "</div><div class=\"n\">"@ + text::dec(f.incidents as int) + "</div></div>"@)
            &&& text::within(d, "<div class=\"tile\"><div>"@ + "Downtime"@ + "</div><div class=\"n\">"@ + minutes(f.downtime_seconds as int) + "</div></div>"@)
            &&& text::within(d, "<div class=\"tile\"><div>"@ + "MTTR"@ + "</div><div class=\"n\">"@ + minutes_or_dash(f.mttr_seconds) + "</div></div>"@)
            &&& text::within(d, "<div class=\"tile\"><div>"@ + "Longest outage"@ + "</div><div class=\"n\">"@ + outage(f.longest_outage) + "</div></div>"@)
            &&& text::within(d, "<div class=\"tile\"><div>"@ + "Clean"@ + "</div><div class=\"n\">"@ + (text::dec(f.clean_monitors as int) + " / "@ + text::dec(f.monitors_total as int)) + "</div></div>"@)
            &&& text::within(d, "<div class=\"tile\"><div>"@ + "SSL/domain alerts"@ + "</div><div class=\"n\">"@ + (text::dec(f.ssl_alerts as int) + " / "@ + text::dec(f.domain_alerts as int)) + "</div></div>"@)
            &&& text::within(d, "<div class=\"tile\"><div>"@ + "Expiring ≤30d / ≤60d"@ + "</div><div class=\"n\">"@ + (text::dec(f.expiring_30d as int) + " / "@ + text::dec(f.expiring_60d as int)) + "</div></div>"@)
        }),
{
    let f = s.fleet;
    let b0 = "<div class=\"band\">"@;
    let t1 = tile("Uptime"@, digest::shown_pct(f.uptime_pct, "—"@) + " <small>("@ + change(f.uptime_delta) + ")</small>"@);
    let b1 = b0 + t1;
    text::law_ends_are_held(b0, t1);
    let t2 = tile("Incidents"@, text::dec(f.incidents as int));
    let b2 = b1 + t2;
    text::law_ends_are_held(b1, t2);
    let t3 = tile("Downtime"@, minutes(f.downtime_seconds as int));
    let b3 = b2 + t3;
    text::law_ends_are_held(b2, t3);
    let t4 = tile("MTTR"@, minutes_or_dash(f.mttr_seconds));
    let b4 = b3 + t4;
    text::law_ends_are_held(b3, t4);
    let t5 = tile("Longest outage"@, outage(f.longest_outage));
    let b5 = b4 + t5;
    text::law_ends_are_held(b4, t5);
    let t6 = tile("Clean"@, pair(f.clean_monitors, f.monitors_total));
    let b6 = b5 + t6;
    text::law_ends_are_held(b5, t6);
    let t7 = tile("SSL/domain alerts"@, pair(f.ssl_alerts, f.domain_alerts));
    let b7 = b6 + t7;
    text::law_ends_are_held(b6, t7);
    let t8 = tile("Expiring ≤30d / ≤60d"@, pair(f.expiring_30d, f.expiring_60d));
    let b8 = b7 + t8;
    text::law_ends_are_held(b7, t8);
    text::law_ends_are_held(b8, "</div>"@);
    text::law_ends_are_held(head(s, version), band(s));
    text::law_ends_are_held(head(s, version) + band(s), tables(s));
}

/// The document holds the row of every monitor, of every incident and of everything that expires, in
/// full.
pub proof fn law_document_holds_every_row(s: ReportSummary, version: Seq<char>, k: int)
    ensures
        0 <= k < s.monitors@.len() ==> text::within(
            document(s, version),
            monitor_row_text(s.monitors@[k]),
        ),
        0 <= k < s.incidents@.len() ==> text::within(
            document(s, version),
            incident_row_text(s.incidents@[k]),
        ),
        0 <= k < s.cert_outlook@.len() ==> text::within(
            document(s, version),
            outlook_row_text(s.cert_outlook@[k]),
        ),
{
    if 0 <= k < s.monitors@.len() {
        lemma_monitor_row_is_held(s.monitors@, k);
    }
    if 0 <= k < s.incidents@.len() {
        lemma_incident_row_is_held(s.incidents@, k);
    }
    if 0 <= k < s.cert_outlook@.len() {
        lemma_outlook_row_is_held(s.cert_outlook@, k);
    }
    lemma_tables_hold_their_rows(s);
    text::law_ends_are_held(head(s, version) + band(s), tables(s));
}

proof fn lemma_tables_hold_their_rows(s: ReportSummary)
    ensures
        forall|pat: Seq<char>| #[trigger]
            text::within(monitor_rows(s.monitors@), pat) ==> text::within(tables(s), pat),
        forall|pat: Seq<char>| #[trigger]
            text::within(incident_rows(s.incidents@), pat) ==> text::within(tables(s), pat),
        forall|pat: Seq<char>| #[trigger]
            text::within(outlook_rows(s.cert_outlook@), pat) ==> text::within(tables(s), pat),
{
    let p0 =
        "<section><h2>Per-monitor</h2><table><tr><th>Monitor</th><th>Type</th><th>Uptime</th><th>Incidents</th><th>Downtime</th><th>MTTR</th><th>Avg</th><th>p95</th><th>End</th></tr>"@;
    let p2 = "</table></section>"@;
    let p3 =
        "<section><h2>Incidents</h2><table><tr><th>Monitor</th><th>Started</th><th>Duration</th><th>Cause</th><th>Resolved</th></tr>"@;
    let p4 = note_if(s.incidents@.len() == 0, "<tr><td colspan=5>No incidents.</td></tr>"@);
    let p7 =
        "<section><h2>Certificate &amp; domain outlook</h2><table><tr><th>Monitor</th><th>Kind</th><th>Days remaining</th><th>Status</th></tr>"@;
    let p8 = note_if(s.cert_outlook@.len() == 0, "<tr><td colspan=4>Nothing tracked.</td></tr>"@);
    let p10 = "</table></section></body></html>"@;
    let a1 = p0 + monitor_rows(s.monitors@);
    let a2 = a1 + p2;
    let a3 = a2 + p3;
    let a4 = a3 + p4;
    let a5 = a4 + incident_rows(s.incidents@);
    let a6 = a5 + p2;
    let a7 = a6 + p7;
    let a8 = a7 + p8;
    let a9 = a8 + outlook_rows(s.cert_outlook@);
    text::law_ends_are_held(p0, monitor_rows(s.monitors@));
    text::law_ends_are_held(a1, p2);
    text::law_ends_are_held(a2, p3);
    text::law_ends_are_held(a3, p4);
    text::law_ends_are_held(a4, incident_rows(s.incidents@));
    text::law_ends_are_held(a5, p2);
    text::law_ends_are_held(a6, p7);
    text::law_ends_are_held(a7, p8);
    text::law_ends_are_held(a8, outlook_rows(s.cert_outlook@));
    text::law_ends_are_held(a9, p10);
}

proof fn lemma_monitor_row_is_held(v: Seq<MonitorReport>, k: int)
    requires
        0 <= k < v.len(),
    ensures
        text::within(monitor_rows(v), monitor_row_text(v[k])),
    decreases v.len(),
{
    text::law_ends_are_held(monitor_rows(v.drop_last()), monitor_row_text(v.last()));
    if k < v.len() - 1 {
        lemma_monitor_row_is_held(v.drop_last(), k);
    }
}

proof fn lemma_incident_row_is_held(v: Seq<ReportIncident>, k: int)
    requires
        0 <= k < v.len(),
    ensures
        text::within(incident_rows(v), incident_row_text(v[k])),
    decreases v.len(),
{
    text::law_ends_are_held(incident_rows(v.drop_last()), incident_row_text(v.last()));
    if k < v.len() - 1 {
        lemma_incident_row_is_held(v.drop_last(), k);
    }
}

proof fn lemma_outlook_row_is_held(v: Seq<ExpiryItem>, k: int)
    requires
        0 <= k < v.len(),
    ensures
        text::within(outlook_rows(v), outlook_row_text(v[k])),
    decreases v.len(),
{
    text::law_ends_are_held(outlook_rows(v.drop_last()), outlook_row_text(v.last()));
    if k < v.len() - 1 {
        lemma_outlook_row_is_held(v.drop_last(), k);
    }
}

/// A table without rows says so, and one with rows does not: what the note stands for is its absence.
pub proof fn law_empty_tables_say_so(note: Seq<char>)
    ensures
        note_if(true, note) == note,
        note_if(false, note).len() == 0,
{
}

/// A duration is told in whole minutes and the seconds that are left, and one that is not known is a
/// dash.
pub proof fn law_durations_are_told(minutes_part: int, seconds_part: int)
    requires
        minutes_part >= 0,
        0 <= seconds_part < 60,
    ensures
        minutes(60 * minutes_part + seconds_part) == text::dec(minutes_part) + "m "@ + text::dec(
            seconds_part,
        ) + "s"@,
        minutes_or_dash(None) == "—"@,
        60 * minutes_part + seconds_part <= i64::MAX ==> minutes_or_dash(
            Some((60 * minutes_part + seconds_part) as i64),
        ) == minutes(60 * minutes_part + seconds_part),
{
    let v = 60 * minutes_part + seconds_part;
    assert(v / 60 == minutes_part);
    assert(v % 60 == seconds_part);
}

/// A change for the better, or none, points up and one for the worse down, both with their size; a
/// change that is not known is a dash.
pub proof fn law_changes_point_their_way(d: i64)
    ensures
        d >= 0 ==> change(Some(d)) == "▲ "@ + numbers::fixed2(d as int),
        d < 0 ==> change(Some(d)) == "▼ "@ + numbers::fixed2(-d),
        change(None) == "—"@,
{
}

/// The longest outage is told with its monitor and its length.
pub proof fn law_longest_outage_is_told(o: LongestOutage)
    ensures
        outage(Some(o)) == escaped(o.monitor@) + " ("@ + minutes(o.seconds as int) + ")"@,
        outage(None) == "—"@,
{
}

/// Text without markup stands as it is, and texts that follow each other are escaped one after the
/// other.
pub proof fn law_escaping_is_letter_by_letter(s: Seq<char>, c: char)
    ensures
        escaped(Seq::empty()).len() == 0,
        c != '&' && c != '<' && c != '>' && c != '"' ==> escaped(s.push(c)) == escaped(s).push(c),
        c == '&' ==> escaped(s.push(c)) == escaped(s) + "&amp;"@,
        c == '<' ==> escaped(s.push(c)) == escaped(s) + "&lt;"@,
        c == '>' ==> escaped(s.push(c)) == escaped(s) + "&gt;"@,
        c == '"' ==> escaped(s.push(c)) == escaped(s) + "&quot;"@,
{
    assert(s.push(c).drop_last() =~= s);
    assert(escaped(s) + seq![c] =~= escaped(s).push(c));
}

/// The head of the document names its period, the time it was made and the program's version.
pub proof fn law_document_has_a_head(s: ReportSummary, version: Seq<char>)
    ensures
        text::within(
            document(s, version),
            "<h1>Vigil monthly report — "@ + escaped(s.label@) + "</h1>"@,
        ),
        text::within(document(s, version), "<p class=\"mono\">"@ + escaped(s.period@) + " · generated "@),
        text::within(
            document(s, version),
            " · generated "@ + text::dec(s.generated_at as int) + " · Vigil "@,
        ),
        text::within(document(s, version), " · Vigil "@ + version + "</p>"@),
{
    let a0 =
        "<!doctype html><html><head><meta charset=\"utf-8\"><title>Vigil report — "@ + escaped(
        s.label@,
    ) + "</title><style>"@ + STYLE@ + "</style></head><body>"@;
    let a1 = a0 + "<h1>Vigil monthly report — "@;
    let a2 = a1 + escaped(s.label@);
    let a3 = a2 + "</h1>"@;
    let a4 = a3 + "<p class=\"mono\">"@;
    let a5 = a4 + escaped(s.period@);
    let a6 = a5 + " · generated "@;
    let a7 = a6 + text::dec(s.generated_at as int);
    let a8 = a7 + " · Vigil "@;
    let a9 = a8 + version;
    text::law_framed_text_is_held(a0, "<h1>Vigil monthly report — "@, escaped(s.label@), "</h1>"@);
    text::law_framed_text_is_held(a3, "<p class=\"mono\">"@, escaped(s.period@), " · generated "@);
    text::law_framed_text_is_held(
        a5,
        " · generated "@,
        text::dec(s.generated_at as int),
        " · Vigil "@,
    );
    text::law_framed_text_is_held(a7, " · Vigil "@, version, "</p>"@);
    text::law_ends_are_held(a3, "<p class=\"mono\">"@);
    text::law_ends_are_held(a4, escaped(s.period@));
    text::law_ends_are_held(a5, " · generated "@);
    text::law_ends_are_held(a6, text::dec(s.generated_at as int));
    text::law_ends_are_held(a7, " · Vigil "@);
    text::law_ends_are_held(a8, version);
    text::law_ends_are_held(a9, "</p>"@);
    text::law_ends_are_held(head(s, version), band(s));
    text::law_ends_are_held(head(s, version) + band(s), tables(s));
}

} // verus!
