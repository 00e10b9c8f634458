//! Who gets a notification: the message of an event, the channels that want it, and the cooldown
//! between repeats.

use vstd::prelude::*;

use crate::cooldown;
use crate::json;
use crate::maintenance_windows::resolve;
use crate::maintenance_windows::resolve::{maintenance_for, parse_tags, Suppression};
use crate::models::{MaintenanceWindow, Monitor, Trigger, Ts};
use crate::notify::templates;
use crate::notify;
use crate::notify::{own_opt, own_or, AlertCtx, EmailMsg, NotifyMsg, SmtpConfig, TemplateCtx};
use crate::text;

verus! {

/// A channel attached to a monitor, with the triggers it is sent.
#[derive(Clone, Debug)]
pub struct AttachedChannel {
    pub channel_id: i64,
    pub channel_type: String,
    pub config: String,
    /// A JSON array of trigger texts.
    pub triggers: String,
}

/// What an email channel's configuration states.
#[derive(Clone, Debug)]
pub struct EmailChannelConfig {
    pub host: String,
    pub port: u16,
    pub security: String,
    pub from: String,
    pub to: Vec<String>,
    pub username: Option<String>,
}

/// The status that a trigger settles a monitor into.
pub open spec fn settled_status(trigger: Trigger) -> Seq<char> {
    match trigger {
        Trigger::Down => "down"@,
        Trigger::Recovered => "up"@,
        Trigger::HeartbeatMissed => "down"@,
        _ => "alert"@,
    }
}

/// The status that a trigger settles a monitor into, for display.
pub fn trigger_status(trigger: Trigger) -> (r: &'static str)
    ensures
        r@ == settled_status(trigger),
{
    match trigger {
        Trigger::Down => "down",
        Trigger::Recovered => "up",
        Trigger::HeartbeatMissed => "down",
        Trigger::SslExpiring => "alert",
        Trigger::SslInvalid => "alert",
        Trigger::DomainExpiring => "alert",
    }
}

/// `ctx` is what an up or down notification of a monitor says.
pub open spec fn is_transition_ctx(
    ctx: TemplateCtx,
    m: Monitor,
    status: Seq<char>,
    duration: Option<i64>,
    checked_at: Ts,
) -> bool {
    &&& ctx.monitor_name@ == m.name@
    &&& ctx.url@ == notify::text_or(m.url, Seq::empty())
    &&& ctx.status@ == status
    &&& ctx.status_code is None
    &&& ctx.error is None
    &&& ctx.response_time_ms is None
    &&& ctx.duration == duration
    &&& ctx.checked_at == checked_at
}

/// What an up or down notification of a monitor says.
pub fn transition_ctx(m: &Monitor, status: &str, duration: Option<i64>, checked_at: Ts) -> (r:
    TemplateCtx)
    ensures
        is_transition_ctx(r, *m, status@, duration, checked_at),
{
    proof {
        reveal_strlit("");
        assert(""@ =~= Seq::<char>::empty());
    }
    TemplateCtx {
        monitor_name: text::own(m.name.as_str()),
        url: own_or(&m.url, ""),
        status: text::own(status),
        status_code: None,
        error: None,
        response_time_ms: None,
        duration,
        checked_at,
    }
}

/// `msg` carries what `ctx` says.
pub open spec fn carries(msg: NotifyMsg, ctx: TemplateCtx) -> bool {
    &&& msg.monitor_name@ == ctx.monitor_name@
    &&& msg.url@ == ctx.url@
    &&& msg.status@ == ctx.status@
    &&& msg.status_code == ctx.status_code
    &&& text::view_opt(msg.error) == text::view_opt(ctx.error)
    &&& msg.response_time_ms == ctx.response_time_ms
    &&& msg.duration == ctx.duration
    &&& msg.ssl_days is None
    &&& msg.domain_days is None
    &&& msg.checked_at == ctx.checked_at
    &&& msg.incident_url is None
    &&& msg.body_html is None
}

/// `msg` is the notification that a monitor went down or recovered.
pub open spec fn is_transition_msg(
    msg: NotifyMsg,
    m: Monitor,
    trigger: Trigger,
    checked_at: Ts,
) -> bool {
    exists|ctx: TemplateCtx|
        is_transition_ctx(ctx, m, settled_status(trigger), None, checked_at) && #[trigger] carries(
            msg,
            ctx,
        ) && msg.subject@ == templates::transition_subject(trigger, ctx.monitor_name@) && msg.body@
            == text::joined(templates::transition_lines(ctx), "\n"@)
}

/// The notification that a monitor went down or recovered.
pub fn on_transition(m: &Monitor, trigger: Trigger, checked_at: Ts) -> (msg: NotifyMsg)
    ensures
        is_transition_msg(msg, *m, trigger, checked_at),
{
    let ctx = transition_ctx(m, trigger_status(trigger), None, checked_at);
    let (subject, body, body_html) = templates::render(trigger, &ctx);
    let msg = NotifyMsg {
        monitor_name: text::own(ctx.monitor_name.as_str()),
        url: text::own(ctx.url.as_str()),
        status: text::own(ctx.status.as_str()),
        status_code: ctx.status_code,
        error: own_opt(&ctx.error),
        response_time_ms: ctx.response_time_ms,
        duration: ctx.duration,
        ssl_days: None,
        domain_days: None,
        checked_at: ctx.checked_at,
        incident_url: None,
        subject,
        body,
        body_html,
    };
    assert(carries(msg, ctx));
    msg
}

/// `msg` is a certificate or domain alert.
pub open spec fn is_alert_msg(msg: NotifyMsg, trigger: Trigger, ctx: AlertCtx) -> bool {
    &&& msg.monitor_name@ == ctx.monitor_name@
    &&& msg.url@ == ctx.url@
    &&& msg.status@ == trigger.name()
    &&& msg.status_code is None
    &&& text::view_opt(msg.error) == text::view_opt(ctx.error)
    &&& msg.response_time_ms is None
    &&& msg.duration is None
    &&& msg.ssl_days == ctx.ssl_days
    &&& msg.domain_days == ctx.domain_days
    &&& msg.checked_at == ctx.checked_at
    &&& msg.incident_url is None
    &&& msg.subject@ == templates::alert_subject(trigger, ctx.monitor_name@)
    &&& msg.body@ == text::joined(templates::alert_lines(ctx), "\n"@)
    &&& msg.body_html is None
}

/// The notification of a certificate or domain alert.
pub fn send_alert(trigger: Trigger, ctx: &AlertCtx) -> (msg: NotifyMsg)
    ensures
        is_alert_msg(msg, trigger, *ctx),
{
    let (subject, body, body_html) = templates::render_alert(trigger, ctx);
    NotifyMsg {
        monitor_name: text::own(ctx.monitor_name.as_str()),
        url: text::own(ctx.url.as_str()),
        status: text::own(trigger.as_str()),
        status_code: None,
        error: own_opt(&ctx.error),
        response_time_ms: None,
        duration: None,
        ssl_days: ctx.ssl_days,
        domain_days: ctx.domain_days,
        checked_at: ctx.checked_at,
        incident_url: None,
        subject,
        body,
        body_html,
    }
}

/// The tags of a monitor.
pub open spec fn monitor_tags(m: Monitor) -> Seq<Seq<char>> {
    resolve::tags_of(notify::text_or(m.tags, Seq::empty()))
}

/// A monitor under any maintenance window is not alerted about.
pub open spec fn muted(windows: Seq<MaintenanceWindow>, m: Monitor, now: int) -> bool {
    resolve::suppression(windows, m.id, monitor_tags(m), now) != Suppression::Nothing
}

/// The channel is sent this trigger.
pub open spec fn opted_in(triggers: Seq<char>, trigger: Trigger) -> bool {
    resolve::tags_of(triggers).contains(trigger.name())
}

/// Channel `k` is sent the notification: it wants the trigger, and its own last send of it is past
/// the cooldown.
pub open spec fn selected(
    channels: Seq<AttachedChannel>,
    last_sent: Seq<Option<Ts>>,
    trigger: Trigger,
    sent_at: int,
    cooldown_minutes: int,
    k: int,
) -> bool {
    0 <= k < channels.len() && opted_in(channels[k].triggers@, trigger) && cooldown::cooled(
        last_sent[k],
        sent_at,
        cooldown_minutes,
    )
}

/// Whether a channel is sent this trigger.
pub fn wants(triggers: &str, trigger: Trigger) -> (r: bool)
    ensures
        r == opted_in(triggers@, trigger),
{
    let list = parse_tags(triggers);
    let name = trigger.as_str();
    let mut i: usize = 0;
    while i < list.len()
        invariant
            i <= list@.len(),
            text::views(list@) == resolve::tags_of(triggers@),
            name@ == trigger.name(),
            forall|k: int| 0 <= k < i ==> (#[trigger] list@[k])@ != name@,
        decreases list@.len() - i,
    {
        if text::same(list[i].as_str(), name) {
            assert(text::views(list@)[i as int] == name@);
            return true;
        }
        i += 1;
    }
    proof {
        if opted_in(triggers@, trigger) {
            let v = text::views(list@);
            let k = choose|k: int| 0 <= k < v.len() && v[k] == name@;
            assert(list@[k]@ == name@);
        }
    }
    false
}

/// `r` selects the attached channels that are sent a notification, by their positions.
pub open spec fn selects(
    r: Seq<usize>,
    windows: Seq<MaintenanceWindow>,
    m: Monitor,
    trigger: Trigger,
    channels: Seq<AttachedChannel>,
    last_sent: Seq<Option<Ts>>,
    sent_at: int,
    cooldown_minutes: int,
) -> bool {
    &&& (muted(windows, m, sent_at) ==> r.len() == 0)
    &&& (!muted(windows, m, sent_at) ==> forall|k: usize| #[trigger]
        r.contains(k) <==> selected(channels, last_sent, trigger, sent_at, cooldown_minutes, k as int))
    &&& (forall|i: int, j: int| 0 <= i < j < r.len() ==> r[i] < r[j])
    &&& (forall|i: int| 0 <= i < r.len() ==> r[i] < channels.len())
}

/// Selects the attached channels that are sent a notification, by their positions: none for a
/// monitor under maintenance, and otherwise every channel that wants the trigger and was not sent
/// it within the cooldown. The cooldown runs for each channel by itself.
pub fn deliver(
    windows: &[MaintenanceWindow],
    m: &Monitor,
    trigger: Trigger,
    channels: &Vec<AttachedChannel>,
    last_sent: &Vec<Option<Ts>>,
    sent_at: Ts,
    cooldown_minutes: i64,
) -> (r: Vec<usize>)
    requires
        channels@.len() == last_sent@.len(),
        forall|k: int|
            0 <= k < windows@.len() && (#[trigger] windows@[k]).is_active ==> resolve::resolvable(
                windows@[k],
                sent_at as int,
            ),
    ensures
        selects(
            r@,
            windows@,
            *m,
            trigger,
            channels@,
            last_sent@,
            sent_at as int,
            cooldown_minutes as int,
        ),
{
    proof {
        reveal_strlit("");
        assert(""@ =~= Seq::<char>::empty());
    }
    let mut out: Vec<usize> = Vec::new();
    let tags = parse_tags(own_or(&m.tags, "").as_str());
    let suppressed = maintenance_for(windows, m.id, tags.as_slice(), sent_at)
        != Suppression::Nothing;
    if suppressed {
        return out;
    }
    let mut i: usize = 0;
    while i < channels.len()
        invariant
            i <= channels@.len(),
            channels@.len() == last_sent@.len(),
            forall|k: usize|
                k < i ==> (#[trigger] out@.contains(k) <==> selected(
                    channels@,
                    last_sent@,
                    trigger,
                    sent_at as int,
                    cooldown_minutes as int,
                    k as int,
                )),
            forall|a: int| 0 <= a < out@.len() ==> out@[a] < i,
            forall|a: int, b: int| 0 <= a < b < out@.len() ==> out@[a] < out@[b],
        decreases channels@.len() - i,
    {
        let ghost before = out@;
        let hit = wants(channels[i].triggers.as_str(), trigger) && cooldown::allowed(
            last_sent[i],
            sent_at,
            cooldown_minutes,
        );
        if hit {
            out.push(i);
        }
        proof {
            assert forall|k: usize| k < i + 1 implies (#[trigger] out@.contains(k) <==> selected(
                channels@,
                last_sent@,
                trigger,
                sent_at as int,
                cooldown_minutes as int,
                k as int,
            )) by {
                if k < i {
                    if before.contains(k) {
                        let q = choose|q: int| 0 <= q < before.len() && before[q] == k;
                        assert(out@[q] == k);
                    }
                    if out@.contains(k) {
                        let q = choose|q: int| 0 <= q < out@.len() && out@[q] == k;
                        if q < before.len() {
                            assert(before[q] == k);
                        }
                    }
                } else {
                    if hit {
                        assert(out@[out@.len() - 1] == i);
                    }
                    if out@.contains(k) && !hit {
                        let q = choose|q: int| 0 <= q < out@.len() && out@[q] == k;
                        assert(before[q] == i);
                    }
                }
            }
        }
        i += 1;
    }
    proof {
        assert forall|k: usize| #[trigger] out@.contains(k) <==> selected(
            channels@,
            last_sent@,
            trigger,
            sent_at as int,
            cooldown_minutes as int,
            k as int,
        ) by {
            if out@.contains(k) {
                let q = choose|q: int| 0 <= q < out@.len() && out@[q] == k;
                assert(out@[q] < channels@.len());
            }
        }
    }
    out
}

/// `r` addresses a message as an email channel is configured.
pub open spec fn is_email(
    r: (SmtpConfig, EmailMsg),
    cfg: EmailChannelConfig,
    subject: Seq<char>,
    body_text: Seq<char>,
    body_html: Option<Seq<char>>,
) -> bool {
    &&& r.0.host == cfg.host
    &&& r.0.port == cfg.port
    &&& r.0.security == cfg.security
    &&& r.0.username == cfg.username
    &&& r.1.to == cfg.to
    &&& r.1.from == cfg.from
    &&& r.1.subject@ == subject
    &&& r.1.body_text@ == body_text
    &&& text::view_opt(r.1.body_html) == body_html
}

/// Addresses a message as an email channel is configured.
pub fn send_email_via_channel(
    cfg: EmailChannelConfig,
    subject: &str,
    body_text: &str,
    body_html: &Option<String>,
) -> (r: (SmtpConfig, EmailMsg))
    ensures
        is_email(r, cfg, subject@, body_text@, text::view_opt(*body_html)),
{
    let smtp = SmtpConfig {
        host: cfg.host,
        port: cfg.port,
        security: cfg.security,
        username: cfg.username,
    };
    let email = EmailMsg {
        to: cfg.to,
        from: cfg.from,
        subject: text::own(subject),
        body_text: text::own(body_text),
        body_html: own_opt(body_html),
    };
    (smtp, email)
}

/// Whether a channel type is sent by email; every other type is sent by a request.
pub fn by_email(channel_type: &str) -> (r: bool)
    ensures
        r == (channel_type@ == "email"@),
{
    text::same(channel_type, "email")
}

/// One channel's recent send does not hold up another channel: whether a channel is selected depends
/// on its own last send alone.
pub proof fn law_channels_cool_down_separately(
    channels: Seq<AttachedChannel>,
    a: Seq<Option<Ts>>,
    b: Seq<Option<Ts>>,
    trigger: Trigger,
    sent_at: int,
    cooldown_minutes: int,
    k: int,
)
    requires
        a.len() == channels.len(),
        b.len() == channels.len(),
        0 <= k < channels.len(),
        a[k] == b[k],
    ensures
        selected(channels, a, trigger, sent_at, cooldown_minutes, k) == selected(
            channels,
            b,
            trigger,
            sent_at,
            cooldown_minutes,
            k,
        ),
{
}

/// A channel is sent a notification exactly where no window covers its monitor, the channel opted into
/// the trigger, and its own last send of it, if there was one, is at least the cooldown past; each is
/// sent it once.
pub proof fn law_who_is_notified(
    r: Seq<usize>,
    windows: Seq<MaintenanceWindow>,
    m: Monitor,
    trigger: Trigger,
    channels: Seq<AttachedChannel>,
    last_sent: Seq<Option<Ts>>,
    sent_at: int,
    cooldown_minutes: int,
    k: usize,
    w: int,
)
    requires
        selects(r, windows, m, trigger, channels, last_sent, sent_at, cooldown_minutes),
        last_sent.len() == channels.len(),
        k < channels.len(),
    ensures
        0 <= w < windows.len() && resolve::applies(windows[w], m.id, monitor_tags(m), sent_at)
            ==> r.len() == 0,
        (forall|j: int|
            0 <= j < windows.len() ==> !resolve::applies(
                #[trigger] windows[j],
                m.id,
                monitor_tags(m),
                sent_at,
            )) ==> (r.contains(k) <==> resolve::tags_of(channels[k as int].triggers@).contains(
            trigger.name(),
        ) && (last_sent[k as int] is None || sent_at - last_sent[k as int]->0 >= cooldown_minutes
            * 60)),
        r.no_duplicates(),
{
    resolve::law_only_applying_windows_suppress(windows, m.id, monitor_tags(m), sent_at);
    if 0 <= w < windows.len() && resolve::applies(windows[w], m.id, monitor_tags(m), sent_at) {
        assert(muted(windows, m, sent_at));
    }
}

/// An up or down notification is about its monitor and its trigger: its name, its address or none, the
/// status that the trigger settles it into, and the time; and it reads so.
pub proof fn law_transition_message(msg: NotifyMsg, m: Monitor, trigger: Trigger, checked_at: Ts)
    requires
        is_transition_msg(msg, m, trigger, checked_at),
    ensures
        msg.monitor_name@ == m.name@,
        m.url matches Some(u) ==> msg.url@ == u@,
        m.url is None ==> msg.url@.len() == 0,
        trigger == Trigger::Down || trigger == Trigger::HeartbeatMissed ==> msg.status@ == "down"@,
        trigger == Trigger::Recovered ==> msg.status@ == "up"@,
        trigger != Trigger::Down && trigger != Trigger::HeartbeatMissed && trigger
            != Trigger::Recovered ==> msg.status@ == "alert"@,
        msg.status_code is None && msg.error is None && msg.response_time_ms is None,
        msg.duration is None && msg.ssl_days is None && msg.domain_days is None,
        msg.checked_at == checked_at,
        msg.incident_url is None && msg.body_html is None,
        text::within(msg.subject@, m.name@),
        trigger == Trigger::Down ==> text::within(msg.subject@, " is DOWN"@),
        trigger == Trigger::Recovered ==> text::within(msg.subject@, " recovered"@),
        text::within(msg.body@, "Monitor: "@ + m.name@),
        text::within(msg.body@, "Status: "@ + msg.status@),
        text::within(msg.body@, "Checked at: "@ + text::dec(checked_at as int)),
{
    let ctx = choose|ctx: TemplateCtx|
        is_transition_ctx(ctx, m, settled_status(trigger), None, checked_at) && #[trigger] carries(
            msg,
            ctx,
        ) && msg.subject@ == templates::transition_subject(trigger, ctx.monitor_name@) && msg.body@
            == text::joined(templates::transition_lines(ctx), "\n"@);
    templates::law_subjects_say_what_happened(trigger, m.name@);
    templates::law_transition_states_its_context(
        (msg.subject, msg.body, None::<String>),
        trigger,
        ctx,
    );
}

/// A certificate or domain alert carries what its context says, and reads so.
pub proof fn law_alert_message(msg: NotifyMsg, trigger: Trigger, ctx: AlertCtx)
    requires
        is_alert_msg(msg, trigger, ctx),
    ensures
        msg.monitor_name@ == ctx.monitor_name@,
        msg.url@ == ctx.url@,
        msg.status@ == trigger.name(),
        msg.ssl_days == ctx.ssl_days,
        msg.domain_days == ctx.domain_days,
        msg.checked_at == ctx.checked_at,
        msg.error is Some <==> ctx.error is Some,
        msg.error matches Some(e) ==> e@ == ctx.error->0@,
        msg.status_code is None && msg.response_time_ms is None && msg.duration is None,
        msg.incident_url is None && msg.body_html is None,
        text::within(msg.subject@, ctx.monitor_name@),
        ctx.ssl_days matches Some(n) ==> text::within(
            msg.body@,
            "SSL days remaining: "@ + text::dec(n as int),
        ),
        ctx.domain_days matches Some(n) ==> text::within(
            msg.body@,
            "Domain days remaining: "@ + text::dec(n as int),
        ),
        ctx.error matches Some(e) ==> text::within(msg.body@, "Error: "@ + e@),
{
    templates::law_subjects_say_what_happened(trigger, ctx.monitor_name@);
    templates::law_alert_states_its_context((msg.subject, msg.body, None::<String>), trigger, ctx);
}

/// A mail goes to the server and the addresses that its channel names, and says what it was given.
pub proof fn law_mail_follows_its_channel(
    r: (SmtpConfig, EmailMsg),
    cfg: EmailChannelConfig,
    subject: Seq<char>,
    body_text: Seq<char>,
    body_html: Option<Seq<char>>,
)
    requires
        is_email(r, cfg, subject, body_text, body_html),
    ensures
        r.0.host@ == cfg.host@ && r.0.port == cfg.port && r.0.security@ == cfg.security@,
        r.0.username == cfg.username,
        r.1.to@ == cfg.to@ && r.1.from@ == cfg.from@,
        r.1.subject@ == subject && r.1.body_text@ == body_text,
        r.1.body_html is Some <==> body_html is Some,
        r.1.body_html matches Some(h) ==> h@ == body_html->0,
{
}

} // verus!
