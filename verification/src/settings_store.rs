//! Typed settings: what a stored value means, and what holds where none is stored.
//!
//! Every reader takes the stored text of its key, if there is one.

use vstd::prelude::*;

use crate::json;
use crate::notify;
use crate::notify::own_or;
use crate::text;

verus! {

/// The anchors where none are set.
pub const DEFAULT_ANCHORS: &'static str = "1.1.1.1:443,8.8.8.8:443";

/// The time of the digest and of the report where none is set.
pub const DEFAULT_TIME: &'static str = "08:00";

/// A stored text, or a default where there is none.
pub fn get(raw: &Option<String>, default: &str) -> (r: String)
    ensures
        r@ == notify::text_or(*raw, default@),
{
    own_or(raw, default)
}

/// A stored number: the default where none is stored or the text is no number.
pub open spec fn number(raw: Option<String>, default: int) -> int {
    match raw {
        Some(s) => match text::signed(s@, i64::MIN as int, i64::MAX as int) {
            Some(n) => n,
            None => default,
        },
        None => default,
    }
}

fn read_number(raw: &Option<String>, default: i64) -> (r: i64)
    ensures
        r == number(*raw, default as int),
{
    match raw {
        Some(s) => match text::parse_i64(s.as_str()) {
            Some(n) => n,
            None => default,
        },
        None => default,
    }
}

/// A number that was stored as text reads back as the number.
pub proof fn law_number_round_trips(stored: String, n: i64, default: int)
    requires
        stored@ == text::dec(n as int),
    ensures
        number(Some(stored), default) == n,
{
    text::law_signed_round_trip(n as int, i64::MIN as int, i64::MAX as int);
}

/// The settings that are numbers.
pub enum NumberSetting {
    CooldownMinutes,
    RetentionDays,
    CertSslIntervalSeconds,
    CertDomainIntervalSeconds,
    CertTickSeconds,
    CertConcurrency,
    HeartbeatTickSeconds,
    MaintenanceTickSeconds,
    RenotifyHours,
    RenotifyTickSeconds,
    DigestTickSeconds,
    ReportDayOfMonth,
    ReportTickSeconds,
}

/// What a setting is where it is not stored.
pub open spec fn default_of(which: NumberSetting) -> int {
    match which {
        NumberSetting::CooldownMinutes => 15,
        NumberSetting::RetentionDays => 30,
        NumberSetting::CertSslIntervalSeconds => 43200,
        NumberSetting::CertDomainIntervalSeconds => 86400,
        NumberSetting::CertTickSeconds => 60,
        NumberSetting::CertConcurrency => 5,
        NumberSetting::HeartbeatTickSeconds => 20,
        NumberSetting::MaintenanceTickSeconds => 30,
        NumberSetting::RenotifyHours => 6,
        NumberSetting::RenotifyTickSeconds => 300,
        NumberSetting::DigestTickSeconds => 60,
        NumberSetting::ReportDayOfMonth => 1,
        NumberSetting::ReportTickSeconds => 300,
    }
}

/// What a setting is: the stored number, or its default.
pub open spec fn held(which: NumberSetting, raw: Option<String>) -> int {
    number(raw, default_of(which))
}

/// Minutes in which a notification is not repeated. Key `notify.cooldown_minutes`, default 15.
pub fn cooldown_minutes(raw: &Option<String>) -> (r: i64)
    ensures
        r == held(NumberSetting::CooldownMinutes, *raw),
{
    read_number(raw, 15)
}

/// Days for which raw checks are kept. Key `retention.raw_days`, default 30.
pub fn retention_days(raw: &Option<String>) -> (r: i64)
    ensures
        r == held(NumberSetting::RetentionDays, *raw),
{
    read_number(raw, 30)
}

/// Seconds between certificate checks. Key `cert.ssl_interval_seconds`, default 43200.
pub fn cert_ssl_interval_seconds(raw: &Option<String>) -> (r: i64)
    ensures
        r == held(NumberSetting::CertSslIntervalSeconds, *raw),
{
    read_number(raw, 43200)
}

/// Seconds between domain checks. Key `cert.domain_interval_seconds`, default 86400.
pub fn cert_domain_interval_seconds(raw: &Option<String>) -> (r: i64)
    ensures
        r == held(NumberSetting::CertDomainIntervalSeconds, *raw),
{
    read_number(raw, 86400)
}

/// Seconds between looks for due certificate and domain checks. Key `cert.tick_seconds`, default 60.
pub fn cert_tick_seconds(raw: &Option<String>) -> (r: i64)
    ensures
        r == held(NumberSetting::CertTickSeconds, *raw),
{
    read_number(raw, 60)
}

/// How many certificate and domain checks run at once. Key `cert.concurrency`, default 5.
pub fn cert_concurrency(raw: &Option<String>) -> (r: i64)
    ensures
        r == held(NumberSetting::CertConcurrency, *raw),
{
    read_number(raw, 5)
}

/// Seconds between looks for late heartbeats. Key `heartbeat.tick_seconds`, default 20.
pub fn heartbeat_tick_seconds(raw: &Option<String>) -> (r: i64)
    ensures
        r == held(NumberSetting::HeartbeatTickSeconds, *raw),
{
    read_number(raw, 20)
}

/// Seconds between looks at the maintenance windows. Key `maintenance.tick_seconds`, default 30.
pub fn maintenance_tick_seconds(raw: &Option<String>) -> (r: i64)
    ensures
        r == held(NumberSetting::MaintenanceTickSeconds, *raw),
{
    read_number(raw, 30)
}

/// Hours between reminders of an outage; zero switches them off. Key `notify.renotify_hours`, default 6.
pub fn renotify_hours(raw: &Option<String>) -> (r: i64)
    ensures
        r == held(NumberSetting::RenotifyHours, *raw),
{
    read_number(raw, 6)
}

/// Seconds between looks for due reminders. Key `notify.renotify_tick_seconds`, default 300.
pub fn renotify_tick_seconds(raw: &Option<String>) -> (r: i64)
    ensures
        r == held(NumberSetting::RenotifyTickSeconds, *raw),
{
    read_number(raw, 300)
}

/// Seconds between looks for a due digest. Key `notify.digest_tick_seconds`, default 60.
pub fn digest_tick_seconds(raw: &Option<String>) -> (r: i64)
    ensures
        r == held(NumberSetting::DigestTickSeconds, *raw),
{
    read_number(raw, 60)
}

/// The day of the month on which the report is made. Key `report_day_of_month`, default 1.
pub fn report_day_of_month(raw: &Option<String>) -> (r: i64)
    ensures
        r == held(NumberSetting::ReportDayOfMonth, *raw),
{
    read_number(raw, 1)
}

/// Seconds between looks for a due report. Key `report_tick_seconds`, default 300.
pub fn report_tick_seconds(raw: &Option<String>) -> (r: i64)
    ensures
        r == held(NumberSetting::ReportTickSeconds, *raw),
{
    read_number(raw, 300)
}

/// The entries of a comma-separated list, without white space and without empty ones.
pub open spec fn list_entries(parts: Seq<Seq<char>>) -> Seq<Seq<char>>
    decreases parts.len(),
{
    if parts.len() == 0 {
        Seq::empty()
    } else {
        let rest = list_entries(parts.drop_last());
        let t = text::trimmed(parts.last());
        if t.len() == 0 {
            rest
        } else {
            rest.push(t)
        }
    }
}

/// The entries of a text with commas, without white space and without empty ones.
pub fn entries(list: &str) -> (r: Vec<String>)
    ensures
        text::views(r@) == list_entries(text::split(list@, ',')),
{
    let parts = text::split_on(list, ',');
    let ghost all = text::split(list@, ',');
    let mut out: Vec<String> = Vec::new();
    let mut i: usize = 0;
    assert(all.take(0) =~= Seq::<Seq<char>>::empty());
    assert(text::views(out@) =~= Seq::<Seq<char>>::empty());
    while i < parts.len()
        invariant
            i <= parts@.len(),
            text::views(parts@) == all,
            text::views(out@) == list_entries(all.take(i as int)),
        decreases parts@.len() - i,
    {
        assert(all.take(i + 1).drop_last() =~= all.take(i as int));
        assert(all.take(i + 1).last() == parts@[i as int]@);
        let t = text::trim(parts[i].as_str());
        if !t.as_str().is_empty() {
            let ghost before = text::views(out@);
            let ghost view = t@;
            out.push(t);
            assert(text::views(out@) =~= before.push(view));
        }
        i += 1;
    }
    assert(all.take(parts@.len() as int) =~= all);
    out
}

/// The anchors, `host:port` each. Key `anchors`.
pub fn anchors(raw: &Option<String>) -> (r: Vec<String>)
    ensures
        text::views(r@) == list_entries(text::split(notify::text_or(*raw, DEFAULT_ANCHORS@), ',')),
{
    let list = own_or(raw, DEFAULT_ANCHORS);
    entries(list.as_str())
}

/// Whether the daily digest is sent. Key `notify.digest_enabled`; anything but `1` means no.
pub fn digest_enabled(raw: &Option<String>) -> (r: bool)
    ensures
        r == (raw matches Some(s) && s@ == "1"@),
{
    match raw {
        Some(s) => text::same(s.as_str(), "1"),
        None => false,
    }
}

/// The time of the digest. Key `notify.digest_time`.
pub fn digest_time(raw: &Option<String>) -> (r: String)
    ensures
        r@ == notify::text_or(*raw, DEFAULT_TIME@),
{
    own_or(raw, DEFAULT_TIME)
}

/// The ids of a stored recipient list: none where it is no JSON array of integers.
pub open spec fn ids_of(raw: Option<String>) -> Seq<i64> {
    match raw {
        Some(s) => match json::json_ints(s@) {
            Some(ids) => ids,
            None => Seq::empty(),
        },
        None => Seq::empty(),
    }
}

/// The channels that a digest or report is sent to. Keys `notify.digest_recipients` and
/// `report_recipients`.
pub fn digest_recipients(raw: &Option<String>) -> (r: Vec<i64>)
    ensures
        r@ == ids_of(*raw),
{
    match raw {
        Some(s) => match json::parse_ints(s.as_str()) {
            Some(ids) => ids,
            None => Vec::new(),
        },
        None => Vec::new(),
    }
}

/// Whether the monthly report is made by itself. Key `report_auto_generate`; on unless set otherwise.
pub fn report_auto_generate(raw: &Option<String>) -> (r: bool)
    ensures
        r == (raw matches Some(s) ==> s@ == "1"@),
{
    match raw {
        Some(s) => text::same(s.as_str(), "1"),
        None => true,
    }
}

/// The time of the report. Key `report_time`.
pub fn report_time(raw: &Option<String>) -> (r: String)
    ensures
        r@ == notify::text_or(*raw, DEFAULT_TIME@),
{
    own_or(raw, DEFAULT_TIME)
}

/// `r` is how long a loop with a tick sleeps.
pub open spec fn is_sleep(tick: int, r: u64) -> bool {
    &&& r == if tick > 1 {
        tick
    } else {
        1
    }
}

/// How long a background loop sleeps between two passes: at least a second.
pub fn sleep_seconds(tick: i64) -> (r: u64)
    ensures
        is_sleep(tick as int, r),
{
    if tick > 1 {
        tick as u64
    } else {
        1
    }
}

/// A stored number is what its text reads as, and the default where it reads as none.
pub proof fn law_numbers_have_defaults(stored: String, default: int)
    ensures
        number(None, default) == default,
        text::signed(stored@, i64::MIN as int, i64::MAX as int) is None ==> number(
            Some(stored),
            default,
        ) == default,
        text::signed(stored@, i64::MIN as int, i64::MAX as int) matches Some(n) ==> number(
            Some(stored),
            default,
        ) == n,
{
}

/// The entries of a list are its parts without white space around them, in order, but for those that
/// are white space alone.
pub proof fn law_entries_of_a_list(a: Seq<Seq<char>>, b: Seq<Seq<char>>, one: Seq<char>)
    ensures
        list_entries(a + b) == list_entries(a) + list_entries(b),
        text::trimmed(one).len() > 0 ==> list_entries(seq![one]) == seq![text::trimmed(one)],
        text::trimmed(one).len() == 0 ==> list_entries(seq![one]).len() == 0,
    decreases b.len(),
{
    reveal_with_fuel(list_entries, 2);
    assert(seq![one].drop_last() =~= Seq::<Seq<char>>::empty());
    if text::trimmed(one).len() > 0 {
        assert(list_entries(seq![one]) =~= seq![text::trimmed(one)]);
    }
    if b.len() == 0 {
        assert(a + b =~= a);
        assert(list_entries(a) + list_entries(b) =~= list_entries(a));
    } else {
        law_entries_of_a_list(a, b.drop_last(), one);
        assert((a + b).drop_last() =~= a + b.drop_last());
        assert(list_entries(a + b) =~= list_entries(a) + list_entries(b));
    }
}

/// A loop sleeps as long as its tick says, and never less than a second.
pub proof fn law_loops_sleep_a_second(tick: i64, r: u64)
    requires
        is_sleep(tick as int, r),
    ensures
        r >= 1,
        tick >= 1 ==> r == tick,
        tick < 1 ==> r == 1,
{
}

/// A stored number is the setting, whichever setting it is; each setting has its own default where
/// nothing is stored or the text is no number.
pub proof fn law_settings_hold_what_is_stored(which: NumberSetting, raw: Option<String>)
    ensures
        raw matches Some(s) ==> (text::signed(s@, i64::MIN as int, i64::MAX as int) matches Some(n)
            ==> held(which, raw) == n),
        raw matches Some(s) ==> (text::signed(s@, i64::MIN as int, i64::MAX as int) is None ==> held(
            which,
            raw,
        ) == held(which, None)),
        held(NumberSetting::CooldownMinutes, None) == 15,
        held(NumberSetting::RetentionDays, None) == 30,
        held(NumberSetting::CertSslIntervalSeconds, None) == 12 * 3600,
        held(NumberSetting::CertDomainIntervalSeconds, None) == 24 * 3600,
        held(NumberSetting::CertTickSeconds, None) == 60,
        held(NumberSetting::CertConcurrency, None) == 5,
        held(NumberSetting::HeartbeatTickSeconds, None) == 20,
        held(NumberSetting::MaintenanceTickSeconds, None) == 30,
        held(NumberSetting::RenotifyHours, None) == 6,
        held(NumberSetting::RenotifyTickSeconds, None) == 5 * 60,
        held(NumberSetting::DigestTickSeconds, None) == 60,
        held(NumberSetting::ReportDayOfMonth, None) == 1,
        held(NumberSetting::ReportTickSeconds, None) == 5 * 60,
{
}

} // verus!
