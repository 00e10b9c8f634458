//! What notifications say: a subject and a plain-text body for every trigger.

use vstd::prelude::*;

use crate::models::Trigger;
use crate::notify::{AlertCtx, TemplateCtx};
use crate::text;

verus! {

/// The subject of an up or down notification.
pub open spec fn transition_subject(trigger: Trigger, name: Seq<char>) -> Seq<char> {
    match trigger {
        Trigger::Down => "🔴 "@ + name + " is DOWN"@,
        Trigger::Recovered => "✅ "@ + name + " recovered"@,
        _ => name + " notification"@,
    }
}

/// The subject of a certificate or domain alert.
pub open spec fn alert_subject(trigger: Trigger, name: Seq<char>) -> Seq<char> {
    match trigger {
        Trigger::SslExpiring => "⚠️ "@ + name + " SSL certificate expiring soon"@,
        Trigger::SslInvalid => "🔴 "@ + name + " SSL certificate invalid"@,
        Trigger::DomainExpiring => "⚠️ "@ + name + " domain registration expiring soon"@,
        _ => name + " notification"@,
    }
}

/// A line for a text, and none without it.
pub open spec fn text_line(label: Seq<char>, o: Option<String>) -> Seq<Seq<char>> {
    match o {
        Some(s) => seq![label + s@],
        None => Seq::empty(),
    }
}

/// A line for a number and its unit, and none without it.
pub open spec fn number_line(label: Seq<char>, o: Option<i64>, unit: Seq<char>) -> Seq<Seq<char>> {
    match o {
        Some(n) => seq![label + text::dec(n as int) + unit],
        None => Seq::empty(),
    }
}

/// A number, or `n/a` without one.
pub open spec fn number_or_na(o: Option<i64>) -> Seq<char> {
    match o {
        Some(n) => text::dec(n as int),
        None => "n/a"@,
    }
}

/// The lines of an up or down notification.
pub open spec fn transition_lines(ctx: TemplateCtx) -> Seq<Seq<char>> {
    seq![
        "Monitor: "@ + ctx.monitor_name@,
        "URL: "@ + ctx.url@,
        "Status: "@ + ctx.status@,
        "Status code: "@ + number_or_na(ctx.status_code),
    ] + text_line("Error: "@, ctx.error) + number_line(
        "Response time: "@,
        ctx.response_time_ms,
        "ms"@,
    ) + number_line("Duration: "@, ctx.duration, "s"@) + seq![
        "Checked at: "@ + text::dec(ctx.checked_at as int),
    ]
}

/// The lines of a certificate or domain alert.
pub open spec fn alert_lines(ctx: AlertCtx) -> Seq<Seq<char>> {
    seq!["Monitor: "@ + ctx.monitor_name@, "URL: "@ + ctx.url@] + number_line(
        "SSL days remaining: "@,
        ctx.ssl_days,
        Seq::empty(),
    ) + number_line("Domain days remaining: "@, ctx.domain_days, Seq::empty()) + text_line(
        "Error: "@,
        ctx.error,
    ) + seq!["Checked at: "@ + text::dec(ctx.checked_at as int)]
}

fn add_line(lines: &mut Vec<String>, label: &str, value: &str, unit: &str)
    ensures
        text::views(final(lines)@) == text::views(old(lines)@).push(label@ + value@ + unit@),
{
    let mut s = text::own(label);
    s.append(value);
    s.append(unit);
    let ghost before = text::views(lines@);
    let ghost view = s@;
    lines.push(s);
    assert(text::views(lines@) =~= before.push(view));
}

fn add_text_line(lines: &mut Vec<String>, label: &str, o: &Option<String>)
    ensures
        text::views(final(lines)@) == text::views(old(lines)@) + text_line(label@, *o),
{
    proof {
        reveal_strlit("");
        assert(""@ =~= Seq::<char>::empty());
    }
    let ghost before = text::views(lines@);
    if let Some(s) = o {
        add_line(lines, label, s.as_str(), "");
        assert(label@ + s@ + ""@ =~= label@ + s@);
    }
    assert(text::views(lines@) =~= before + text_line(label@, *o));
}

fn add_number_line(lines: &mut Vec<String>, label: &str, o: Option<i64>, unit: &str)
    ensures
        text::views(final(lines)@) == text::views(old(lines)@) + number_line(label@, o, unit@),
{
    let ghost before = text::views(lines@);
    if let Some(n) = o {
        add_line(lines, label, text::int_text(n).as_str(), unit);
    }
    assert(text::views(lines@) =~= before + number_line(label@, o, unit@));
}

fn sentence(before: &str, name: &str, after: &str) -> (r: String)
    ensures
        r@ == before@ + name@ + after@,
{
    let mut s = text::own(before);
    s.append(name);
    s.append(after);
    s
}

/// `r` is an up or down notification: its subject, its body, and no HTML.
pub open spec fn is_transition(
    r: (String, String, Option<String>),
    trigger: Trigger,
    ctx: TemplateCtx,
) -> bool {
    &&& r.0@ == transition_subject(trigger, ctx.monitor_name@)
    &&& r.1@ == text::joined(transition_lines(ctx), "\n"@)
    &&& r.2 is None
}

/// `r` is a certificate or domain alert: its subject, its body, and no HTML.
pub open spec fn is_alert(
    r: (String, String, Option<String>),
    trigger: Trigger,
    ctx: AlertCtx,
) -> bool {
    &&& r.0@ == alert_subject(trigger, ctx.monitor_name@)
    &&& r.1@ == text::joined(alert_lines(ctx), "\n"@)
    &&& r.2 is None
}

/// Renders the subject and the body of an up or down notification. There is no HTML body.
pub fn render(trigger: Trigger, ctx: &TemplateCtx) -> (r: (String, String, Option<String>))
    ensures
        is_transition(r, trigger, *ctx),
{
    proof {
        reveal_strlit("");
        assert(""@ =~= Seq::<char>::empty());
    }
    let name = ctx.monitor_name.as_str();
    let subject = match trigger {
        Trigger::Down => sentence("🔴 ", name, " is DOWN"),
        Trigger::Recovered => sentence("✅ ", name, " recovered"),
        _ => sentence("", name, " notification"),
    };
    assert(""@ + name@ + " notification"@ =~= name@ + " notification"@);
    let mut lines: Vec<String> = Vec::new();
    assert(text::views(lines@) =~= Seq::<Seq<char>>::empty());
    add_line(&mut lines, "Monitor: ", name, "");
    add_line(&mut lines, "URL: ", ctx.url.as_str(), "");
    add_line(&mut lines, "Status: ", ctx.status.as_str(), "");
    let code = match ctx.status_code {
        Some(c) => text::int_text(c),
        None => text::own("n/a"),
    };
    add_line(&mut lines, "Status code: ", code.as_str(), "");
    proof {
        assert("Monitor: "@ + name@ + ""@ =~= "Monitor: "@ + name@);
        assert("URL: "@ + ctx.url@ + ""@ =~= "URL: "@ + ctx.url@);
        assert("Status: "@ + ctx.status@ + ""@ =~= "Status: "@ + ctx.status@);
        assert("Status code: "@ + code@ + ""@ =~= "Status code: "@ + code@);
        assert(text::views(lines@) =~= seq![
            "Monitor: "@ + ctx.monitor_name@,
            "URL: "@ + ctx.url@,
            "Status: "@ + ctx.status@,
            "Status code: "@ + number_or_na(ctx.status_code),
        ]);
    }
    add_text_line(&mut lines, "Error: ", &ctx.error);
    add_number_line(&mut lines, "Response time: ", ctx.response_time_ms, "ms");
    add_number_line(&mut lines, "Duration: ", ctx.duration, "s");
    let ghost before = text::views(lines@);
    let at = text::int_text(ctx.checked_at);
    add_line(&mut lines, "Checked at: ", at.as_str(), "");
    proof {
        assert("Checked at: "@ + at@ + ""@ =~= "Checked at: "@ + at@);
        assert(text::views(lines@) =~= before + seq!["Checked at: "@ + at@]);
        assert(text::views(lines@) =~= transition_lines(*ctx));
    }
    (subject, text::join(&lines, "\n"), None)
}

/// Renders the subject and the body of a certificate or domain alert. There is no HTML body.
pub fn render_alert(trigger: Trigger, ctx: &AlertCtx) -> (r: (String, String, Option<String>))
    ensures
        is_alert(r, trigger, *ctx),
{
    proof {
        reveal_strlit("");
        assert(""@ =~= Seq::<char>::empty());
    }
    let name = ctx.monitor_name.as_str();
    let subject = match trigger {
        Trigger::SslExpiring => sentence("⚠️ ", name, " SSL certificate expiring soon"),
        Trigger::SslInvalid => sentence("🔴 ", name, " SSL certificate invalid"),
        Trigger::DomainExpiring => sentence(
            "⚠️ ",
            name,
            " domain registration expiring soon",
        ),
        _ => sentence("", name, " notification"),
    };
    assert(""@ + name@ + " notification"@ =~= name@ + " notification"@);
    let mut lines: Vec<String> = Vec::new();
    assert(text::views(lines@) =~= Seq::<Seq<char>>::empty());
    add_line(&mut lines, "Monitor: ", name, "");
    add_line(&mut lines, "URL: ", ctx.url.as_str(), "");
    proof {
        assert("Monitor: "@ + name@ + ""@ =~= "Monitor: "@ + name@);
        assert("URL: "@ + ctx.url@ + ""@ =~= "URL: "@ + ctx.url@);
        assert(text::views(lines@) =~= seq![
            "Monitor: "@ + ctx.monitor_name@,
            "URL: "@ + ctx.url@,
        ]);
    }
    add_number_line(&mut lines, "SSL days remaining: ", ctx.ssl_days, "");
    add_number_line(&mut lines, "Domain days remaining: ", ctx.domain_days, "");
    add_text_line(&mut lines, "Error: ", &ctx.error);
    let ghost before = text::views(lines@);
    let at = text::int_text(ctx.checked_at);
    add_line(&mut lines, "Checked at: ", at.as_str(), "");
    proof {
        assert("Checked at: "@ + at@ + ""@ =~= "Checked at: "@ + at@);
        assert(text::views(lines@) =~= before + seq!["Checked at: "@ + at@]);
        assert(text::views(lines@) =~= alert_lines(*ctx));
    }
    (subject, text::join(&lines, "\n"), None)
}

proof fn lemma_line_is_held(lines: Seq<Seq<char>>, i: int, line: Seq<char>)
    requires
        0 <= i < lines.len(),
        lines[i] == line,
    ensures
        lines.contains(line),
        text::within(text::joined(lines, "\n"@), line),
{
    text::law_joined_parts_are_held(lines, "\n"@, i);
}

/// A certificate or domain alert states what its context has, each on a line of its own: the monitor
/// and its address, the days of the certificate, the days of the domain and the error where there are
/// any, and the time. It has no other lines.
pub proof fn law_alert_states_its_context(
    r: (String, String, Option<String>),
    trigger: Trigger,
    ctx: AlertCtx,
)
    requires
        is_alert(r, trigger, ctx),
    ensures
        alert_lines(ctx).contains("Monitor: "@ + ctx.monitor_name@),
        alert_lines(ctx).contains("URL: "@ + ctx.url@),
        alert_lines(ctx).contains("Checked at: "@ + text::dec(ctx.checked_at as int)),
        text::within(r.1@, "Monitor: "@ + ctx.monitor_name@),
        text::within(r.1@, "URL: "@ + ctx.url@),
        text::within(r.1@, "Checked at: "@ + text::dec(ctx.checked_at as int)),
        ctx.ssl_days matches Some(n) ==> alert_lines(ctx).contains(
            "SSL days remaining: "@ + text::dec(n as int),
        ) && text::within(r.1@, "SSL days remaining: "@ + text::dec(n as int)),
        ctx.domain_days matches Some(n) ==> alert_lines(ctx).contains(
            "Domain days remaining: "@ + text::dec(n as int),
        ) && text::within(r.1@, "Domain days remaining: "@ + text::dec(n as int)),
        ctx.error matches Some(e) ==> alert_lines(ctx).contains("Error: "@ + e@) && text::within(
            r.1@,
            "Error: "@ + e@,
        ),
        alert_lines(ctx).len() == 3 + (if ctx.ssl_days is Some {
            1int
        } else {
            0
        }) + (if ctx.domain_days is Some {
            1int
        } else {
            0
        }) + (if ctx.error is Some {
            1int
        } else {
            0
        }),
        r.2 is None,
{
    let lines = alert_lines(ctx);
    lemma_line_is_held(lines, 0, "Monitor: "@ + ctx.monitor_name@);
    lemma_line_is_held(lines, 1, "URL: "@ + ctx.url@);
    lemma_line_is_held(
        lines,
        lines.len() - 1,
        "Checked at: "@ + text::dec(ctx.checked_at as int),
    );
    let none = Seq::<char>::empty();
    let s: int = if ctx.ssl_days is Some {
        1
    } else {
        0
    };
    let d: int = if ctx.domain_days is Some {
        1
    } else {
        0
    };
    if let Some(n) = ctx.ssl_days {
        let line = "SSL days remaining: "@ + text::dec(n as int);
        assert(line + none =~= line);
        lemma_line_is_held(lines, 2, line);
    }
    if let Some(n) = ctx.domain_days {
        let line = "Domain days remaining: "@ + text::dec(n as int);
        assert(line + none =~= line);
        lemma_line_is_held(lines, 2 + s, line);
    }
    if let Some(e) = ctx.error {
        lemma_line_is_held(lines, 2 + s + d, "Error: "@ + e@);
    }
}

/// An up or down notification states what its context has, each on a line of its own: the monitor and
/// its address, its status, the status code or that there is none, the error, the response time and
/// the duration where there are any, and the time. It has no other lines.
pub proof fn law_transition_states_its_context(
    r: (String, String, Option<String>),
    trigger: Trigger,
    ctx: TemplateCtx,
)
    requires
        is_transition(r, trigger, ctx),
    ensures
        text::within(r.1@, "Monitor: "@ + ctx.monitor_name@),
        text::within(r.1@, "URL: "@ + ctx.url@),
        text::within(r.1@, "Status: "@ + ctx.status@),
        ctx.status_code matches Some(n) ==> text::within(
            r.1@,
            "Status code: "@ + text::dec(n as int),
        ),
        ctx.status_code is None ==> text::within(r.1@, "Status code: "@ + "n/a"@),
        ctx.error matches Some(e) ==> text::within(r.1@, "Error: "@ + e@),
        ctx.response_time_ms matches Some(n) ==> text::within(
            r.1@,
            "Response time: "@ + text::dec(n as int) + "ms"@,
        ),
        ctx.duration matches Some(n) ==> text::within(
            r.1@,
            "Duration: "@ + text::dec(n as int) + "s"@,
        ),
        text::within(r.1@, "Checked at: "@ + text::dec(ctx.checked_at as int)),
        transition_lines(ctx).len() == 5 + (if ctx.error is Some {
            1int
        } else {
            0
        }) + (if ctx.response_time_ms is Some {
            1int
        } else {
            0
        }) + (if ctx.duration is Some {
            1int
        } else {
            0
        }),
        r.2 is None,
{
    let lines = transition_lines(ctx);
    lemma_line_is_held(lines, 0, "Monitor: "@ + ctx.monitor_name@);
    lemma_line_is_held(lines, 1, "URL: "@ + ctx.url@);
    lemma_line_is_held(lines, 2, "Status: "@ + ctx.status@);
    lemma_line_is_held(lines, 3, "Status code: "@ + number_or_na(ctx.status_code));
    lemma_line_is_held(
        lines,
        lines.len() - 1,
        "Checked at: "@ + text::dec(ctx.checked_at as int),
    );
    let e: int = if ctx.error is Some {
        1
    } else {
        0
    };
    let t: int = if ctx.response_time_ms is Some {
        1
    } else {
        0
    };
    if let Some(m) = ctx.error {
        lemma_line_is_held(lines, 4, "Error: "@ + m@);
    }
    if let Some(n) = ctx.response_time_ms {
        lemma_line_is_held(lines, 4 + e, "Response time: "@ + text::dec(n as int) + "ms"@);
    }
    if let Some(n) = ctx.duration {
        lemma_line_is_held(lines, 4 + e + t, "Duration: "@ + text::dec(n as int) + "s"@);
    }
}

proof fn lemma_sentence_holds(before: Seq<char>, name: Seq<char>, after: Seq<char>)
    ensures
        text::within(before + name + after, before),
        text::within(before + name + after, name),
        text::within(before + name + after, after),
{
    text::law_halves_are_held(before, name, before);
    text::law_halves_are_held(name, Seq::empty(), name);
    text::law_halves_are_held(before, name, name);
    text::law_halves_are_held(after, Seq::empty(), after);
    text::law_halves_are_held(before + name, after, before);
    text::law_halves_are_held(before + name, after, name);
    text::law_halves_are_held(before + name, after, after);
}

/// Every subject names the monitor and what happened to it.
pub proof fn law_subjects_say_what_happened(trigger: Trigger, name: Seq<char>)
    ensures
        text::within(transition_subject(trigger, name), name),
        text::within(alert_subject(trigger, name), name),
        trigger == Trigger::Down ==> text::within(transition_subject(trigger, name), " is DOWN"@),
        trigger == Trigger::Recovered ==> text::within(
            transition_subject(trigger, name),
            " recovered"@,
        ),
        trigger == Trigger::SslExpiring ==> text::within(
            alert_subject(trigger, name),
            " SSL certificate expiring soon"@,
        ),
        trigger == Trigger::SslInvalid ==> text::within(
            alert_subject(trigger, name),
            " SSL certificate invalid"@,
        ),
        trigger == Trigger::DomainExpiring ==> text::within(
            alert_subject(trigger, name),
            " domain registration expiring soon"@,
        ),
        trigger == Trigger::HeartbeatMissed ==> text::within(
            transition_subject(trigger, name),
            " notification"@,
        ),
{
    lemma_sentence_holds("🔴 "@, name, " is DOWN"@);
    lemma_sentence_holds("✅ "@, name, " recovered"@);
    lemma_sentence_holds("⚠️ "@, name, " SSL certificate expiring soon"@);
    lemma_sentence_holds("🔴 "@, name, " SSL certificate invalid"@);
    lemma_sentence_holds("⚠️ "@, name, " domain registration expiring soon"@);
    lemma_sentence_holds(Seq::empty(), name, " notification"@);
    assert(Seq::<char>::empty() + name + " notification"@ =~= name + " notification"@);
}

} // verus!
