//! Requests about settings: what a change stores, key by key.

use vstd::prelude::*;

use crate::json;
use crate::json::Json;
use crate::notify;
use crate::settings_store;
use crate::text;

verus! {

/// The accent colour where none is chosen.
pub const DEFAULT_ACCENT: &'static str = "#3FC8E4";

/// A request to change settings: what is absent stays.
#[derive(Debug)]
pub struct UpdateSettingsDto {
    /// An array of `host:port` texts, or one text with commas.
    pub anchors: Option<Json>,
    pub cooldown_minutes: Option<i64>,
    pub retention_days: Option<i64>,
    pub accent: Option<String>,
    pub renotify_hours: Option<i64>,
    pub digest_enabled: Option<bool>,
    pub digest_time: Option<String>,
    pub digest_recipients: Option<Json>,
    pub report_auto_generate: Option<bool>,
    pub report_day_of_month: Option<i64>,
    pub report_time: Option<String>,
    pub report_recipients: Option<Json>,
}

/// The texts of an array of values.
pub open spec fn texts_of(v: Seq<Json>) -> Seq<Seq<char>>
    decreases v.len(),
{
    if v.len() == 0 {
        Seq::empty()
    } else {
        match v.last().text_view() {
            Some(s) => texts_of(v.drop_last()).push(s),
            None => texts_of(v.drop_last()),
        }
    }
}

/// The anchors that a request names.
pub open spec fn hosts_of(anchors: Json) -> Seq<Seq<char>> {
    match anchors {
        Json::Array(v) => texts_of(v@),
        Json::Str(s) => settings_store::list_entries(text::split(s@, ',')),
        _ => Seq::empty(),
    }
}

fn texts(v: &Vec<Json>) -> (r: Vec<String>)
    ensures
        text::views(r@) == texts_of(v@),
{
    let mut r: Vec<String> = Vec::new();
    let mut i: usize = 0;
    assert(text::views(r@) =~= texts_of(v@.take(0)));
    while i < v.len()
        invariant
            i <= v@.len(),
            text::views(r@) == texts_of(v@.take(i as int)),
        decreases v@.len() - i,
    {
        let ghost before = text::views(r@);
        assert(v@.take(i + 1).drop_last() =~= v@.take(i as int));
        if let Some(s) = v[i].as_str() {
            let copy = text::own(s.as_str());
            let ghost view = copy@;
            r.push(copy);
            assert(text::views(r@) =~= before.push(view));
        }
        i += 1;
    }
    assert(v@.take(v@.len() as int) =~= v@);
    r
}

/// Reads the anchors that a request names: the texts of an array, or the entries of one text with
/// commas.
pub fn hosts(anchors: &Json) -> (r: Vec<String>)
    ensures
        text::views(r@) == hosts_of(*anchors),
{
    match anchors {
        Json::Array(v) => texts(v),
        Json::Str(s) => settings_store::entries(s.as_str()),
        _ => {
            let none: Vec<String> = Vec::new();
            assert(text::views(none@) =~= Seq::<Seq<char>>::empty());
            none
        },
    }
}

/// The integers of an array of values.
pub open spec fn ints_of(v: Seq<Json>) -> Seq<i64>
    decreases v.len(),
{
    if v.len() == 0 {
        Seq::empty()
    } else {
        match v.last() {
            Json::Int(n) => ints_of(v.drop_last()).push(n),
            _ => ints_of(v.drop_last()),
        }
    }
}

/// The channels that a request names.
pub open spec fn recipients_of(v: Json) -> Seq<i64> {
    match v {
        Json::Array(a) => ints_of(a@),
        _ => Seq::empty(),
    }
}

/// Reads the channels that a request names: the integers of an array.
pub fn recipients(v: &Json) -> (r: Vec<i64>)
    ensures
        r@ == recipients_of(*v),
{
    let mut r: Vec<i64> = Vec::new();
    if let Json::Array(a) = v {
        let mut i: usize = 0;
        while i < a.len()
            invariant
                i <= a@.len(),
                r@ == ints_of(a@.take(i as int)),
            decreases a@.len() - i,
        {
            assert(a@.take(i + 1).drop_last() =~= a@.take(i as int));
            if let Json::Int(n) = &a[i] {
                r.push(*n);
            }
            i += 1;
        }
        assert(a@.take(a@.len() as int) =~= a@);
    }
    r
}

/// A stored pair of key and value.
pub type Pair = (Seq<char>, Seq<char>);

/// A flag as it is stored.
pub open spec fn flag_text(b: bool) -> Seq<char> {
    if b {
        "1"@
    } else {
        "0"@
    }
}

/// The anchors as they are stored.
pub open spec fn anchors_text(v: Option<Json>) -> Option<Seq<char>> {
    match v {
        Some(j) => Some(text::joined(hosts_of(j), ","@)),
        None => None,
    }
}

/// A number as it is stored.
pub open spec fn number_text(n: Option<i64>) -> Option<Seq<char>> {
    match n {
        Some(v) => Some(text::dec(v as int)),
        None => None,
    }
}

/// A flag as it is stored, where there is one.
pub open spec fn switch_text(b: Option<bool>) -> Option<Seq<char>> {
    match b {
        Some(v) => Some(flag_text(v)),
        None => None,
    }
}

/// A list of channels as it is stored.
pub open spec fn list_text(v: Option<Json>) -> Option<Seq<char>> {
    match v {
        Some(j) => Some(json::int_array(recipients_of(j))),
        None => None,
    }
}

/// A pair of a key with a value, where there is one.
pub open spec fn entry(key: Seq<char>, value: Option<Seq<char>>) -> Seq<Pair> {
    match value {
        Some(v) => seq![(key, v)],
        None => Seq::empty(),
    }
}

/// Every pair that a request stores, in order.
pub open spec fn writes(dto: UpdateSettingsDto) -> Seq<Pair> {
    entry("anchors"@, anchors_text(dto.anchors)) + entry(
        "notify.cooldown_minutes"@,
        number_text(dto.cooldown_minutes),
    ) + entry("retention.raw_days"@, number_text(dto.retention_days)) + entry(
        "appearance.accent"@,
        text::view_opt(dto.accent),
    ) + entry("notify.renotify_hours"@, number_text(dto.renotify_hours)) + entry(
        "notify.digest_enabled"@,
        switch_text(dto.digest_enabled),
    ) + entry("notify.digest_time"@, text::view_opt(dto.digest_time)) + entry(
        "notify.digest_recipients"@,
        list_text(dto.digest_recipients),
    ) + entry("report_auto_generate"@, switch_text(dto.report_auto_generate)) + entry(
        "report_day_of_month"@,
        number_text(dto.report_day_of_month),
    ) + entry("report_time"@, text::view_opt(dto.report_time)) + entry(
        "report_recipients"@,
        list_text(dto.report_recipients),
    )
}

/// The contents of a list of pairs.
pub open spec fn pairs(v: Seq<(String, String)>) -> Seq<Pair> {
    v.map_values(|p: (String, String)| (p.0@, p.1@))
}

fn put(out: &mut Vec<(String, String)>, key: &str, value: Option<String>)
    ensures
        pairs(final(out)@) == pairs(old(out)@) + entry(key@, text::view_opt(value)),
{
    let ghost before = pairs(out@);
    if let Some(v) = value {
        let ghost view = v@;
        out.push((text::own(key), v));
        assert(pairs(out@) =~= before + seq![(key@, view)]);
    } else {
        assert(pairs(out@) =~= before + Seq::<Pair>::empty());
    }
}

fn number(n: Option<i64>) -> (r: Option<String>)
    ensures
        text::view_opt(r) == number_text(n),
{
    match n {
        Some(v) => Some(text::int_text(v)),
        None => None,
    }
}

fn switch(b: Option<bool>) -> (r: Option<String>)
    ensures
        text::view_opt(r) == switch_text(b),
{
    match b {
        Some(true) => Some(text::own("1")),
        Some(false) => Some(text::own("0")),
        None => None,
    }
}

fn list(v: &Option<Json>) -> (r: Option<String>)
    ensures
        text::view_opt(r) == list_text(*v),
        *v matches Some(j) ==> json::json_ints(list_text(*v)->0) == Some(recipients_of(j)),
{
    match v {
        Some(j) => {
            let ids = recipients(j);
            Some(json::write_ints(&ids))
        },
        None => None,
    }
}

/// What a request stores, as pairs of key and value in order, and the anchors that take effect at
/// once.
pub fn update_settings(dto: UpdateSettingsDto) -> (r: (Vec<(String, String)>, Option<Vec<String>>))
    ensures
        pairs(r.0@) == writes(dto),
        r.1 is Some <==> dto.anchors is Some,
        r.1 matches Some(v) ==> text::views(v@) == hosts_of(dto.anchors->0),
        dto.digest_recipients matches Some(j) ==> json::json_ints(
            list_text(dto.digest_recipients)->0,
        ) == Some(recipients_of(j)),
        dto.report_recipients matches Some(j) ==> json::json_ints(
            list_text(dto.report_recipients)->0,
        ) == Some(recipients_of(j)),
{
    let mut out: Vec<(String, String)> = Vec::new();
    assert(pairs(out@) =~= Seq::<Pair>::empty());
    let (hosts, joined): (Option<Vec<String>>, Option<String>) = match &dto.anchors {
        Some(v) => {
            let h = hosts(v);
            let line = text::join(&h, ",");
            (Some(h), Some(line))
        },
        None => (None, None),
    };
    put(&mut out, "anchors", joined);
    put(&mut out, "notify.cooldown_minutes", number(dto.cooldown_minutes));
    put(&mut out, "retention.raw_days", number(dto.retention_days));
    put(&mut out, "appearance.accent", dto.accent);
    put(&mut out, "notify.renotify_hours", number(dto.renotify_hours));
    put(&mut out, "notify.digest_enabled", switch(dto.digest_enabled));
    put(&mut out, "notify.digest_time", dto.digest_time);
    put(&mut out, "notify.digest_recipients", list(&dto.digest_recipients));
    put(&mut out, "report_auto_generate", switch(dto.report_auto_generate));
    put(&mut out, "report_day_of_month", number(dto.report_day_of_month));
    put(&mut out, "report_time", dto.report_time);
    put(&mut out, "report_recipients", list(&dto.report_recipients));
    assert(pairs(out@) =~= writes(dto));
    (out, hosts)
}

/// A stored flag reads back.
pub proof fn law_stored_flag_reads_back(b: bool)
    ensures
        flag_text(b) == "1"@ <==> b,
{
    reveal_strlit("0");
    reveal_strlit("1");
    assert("0"@[0] != "1"@[0]);
}

// ---- reading ----

/// The stored texts of the settings, as far as they are stored.
#[derive(Clone, Debug)]
pub struct StoredSettings {
    pub anchors: Option<String>,
    pub cooldown_minutes: Option<String>,
    pub retention_days: Option<String>,
    pub accent: Option<String>,
    pub renotify_hours: Option<String>,
    pub digest_enabled: Option<String>,
    pub digest_time: Option<String>,
    pub digest_recipients: Option<String>,
    pub report_auto_generate: Option<String>,
    pub report_day_of_month: Option<String>,
    pub report_time: Option<String>,
    pub report_recipients: Option<String>,
}

/// The settings as they are in effect.
#[derive(Clone, Debug)]
pub struct Settings {
    pub anchors: Vec<String>,
    pub cooldown_minutes: i64,
    pub retention_days: i64,
    pub accent: String,
    pub renotify_hours: i64,
    pub digest_enabled: bool,
    pub digest_time: String,
    pub digest_recipients: Vec<i64>,
    pub report_auto_generate: bool,
    pub report_day_of_month: i64,
    pub report_time: String,
    pub report_recipients: Vec<i64>,
}

/// `r` holds the settings that are in effect, as they are stored.
pub open spec fn in_effect(r: Settings, raw: StoredSettings) -> bool {
    &&& text::views(r.anchors@) == settings_store::list_entries(
        text::split(notify::text_or(raw.anchors, settings_store::DEFAULT_ANCHORS@), ','),
    )
    &&& r.cooldown_minutes == settings_store::number(raw.cooldown_minutes, 15)
    &&& r.retention_days == settings_store::number(raw.retention_days, 30)
    &&& r.accent@ == notify::text_or(raw.accent, DEFAULT_ACCENT@)
    &&& r.renotify_hours == settings_store::number(raw.renotify_hours, 6)
    &&& r.digest_enabled == (raw.digest_enabled matches Some(s) && s@ == "1"@)
    &&& r.digest_time@ == notify::text_or(raw.digest_time, settings_store::DEFAULT_TIME@)
    &&& r.digest_recipients@ == settings_store::ids_of(raw.digest_recipients)
    &&& r.report_auto_generate == (raw.report_auto_generate matches Some(s) ==> s@ == "1"@)
    &&& r.report_day_of_month == settings_store::number(raw.report_day_of_month, 1)
    &&& r.report_time@ == notify::text_or(raw.report_time, settings_store::DEFAULT_TIME@)
    &&& r.report_recipients@ == settings_store::ids_of(raw.report_recipients)
}

/// Reads the settings that are in effect from what is stored.
pub fn get_settings(raw: &StoredSettings) -> (r: Settings)
    ensures
        in_effect(r, *raw),
{
    Settings {
        anchors: settings_store::anchors(&raw.anchors),
        cooldown_minutes: settings_store::cooldown_minutes(&raw.cooldown_minutes),
        retention_days: settings_store::retention_days(&raw.retention_days),
        accent: settings_store::get(&raw.accent, DEFAULT_ACCENT),
        renotify_hours: settings_store::renotify_hours(&raw.renotify_hours),
        digest_enabled: settings_store::digest_enabled(&raw.digest_enabled),
        digest_time: settings_store::digest_time(&raw.digest_time),
        digest_recipients: settings_store::digest_recipients(&raw.digest_recipients),
        report_auto_generate: settings_store::report_auto_generate(&raw.report_auto_generate),
        report_day_of_month: settings_store::report_day_of_month(&raw.report_day_of_month),
        report_time: settings_store::report_time(&raw.report_time),
        report_recipients: settings_store::digest_recipients(&raw.report_recipients),
    }
}

/// A store after pairs were written to it, one after the other.
pub open spec fn written(store: Map<Seq<char>, Seq<char>>, pairs: Seq<Pair>) -> Map<
    Seq<char>,
    Seq<char>,
>
    decreases pairs.len(),
{
    if pairs.len() == 0 {
        store
    } else {
        written(store, pairs.drop_last()).insert(pairs.last().0, pairs.last().1)
    }
}

/// What a store holds under a key.
pub open spec fn held(store: Map<Seq<char>, Seq<char>>, key: Seq<char>) -> Option<Seq<char>> {
    if store.dom().contains(key) {
        Some(store[key])
    } else {
        None
    }
}

/// What is held under a key after one more entry: its value, or what was held before.
proof fn lemma_entry(
    store: Map<Seq<char>, Seq<char>>,
    pairs: Seq<Pair>,
    key: Seq<char>,
    value: Option<Seq<char>>,
    k: Seq<char>,
)
    ensures
        held(written(store, pairs + entry(key, value)), k) == (if k == key && value is Some {
            value
        } else {
            held(written(store, pairs), k)
        }),
{
    match value {
        Some(v) => {
            let all = pairs + entry(key, value);
            assert(all.drop_last() =~= pairs);
            assert(all.last() == (key, v));
        },
        None => {
            assert(pairs + entry(key, value) =~= pairs);
        },
    }
}

/// A new value where there is one, or else what was there.
pub open spec fn renewed(new: Option<Seq<char>>, was: Option<Seq<char>>) -> Option<Seq<char>> {
    if new is Some {
        new
    } else {
        was
    }
}

proof fn lemma_keys_differ()
    ensures
        "anchors"@.len() == 7,
        "notify.cooldown_minutes"@.len() == 23,
        "retention.raw_days"@.len() == 18,
        "retention.raw_days"@[0] == 'r',
        "appearance.accent"@.len() == 17,
        "appearance.accent"@[0] == 'a',
        "notify.renotify_hours"@.len() == 21,
        "notify.renotify_hours"@[7] == 'r',
        "notify.digest_enabled"@.len() == 21,
        "notify.digest_enabled"@[7] == 'd',
        "notify.digest_time"@.len() == 18,
        "notify.digest_time"@[0] == 'n',
        "notify.digest_recipients"@.len() == 24,
        "report_auto_generate"@.len() == 20,
        "report_day_of_month"@.len() == 19,
        "report_time"@.len() == 11,
        "report_recipients"@.len() == 17,
        "report_recipients"@[0] == 'r',
{
    reveal_strlit("anchors");
    reveal_strlit("notify.cooldown_minutes");
    reveal_strlit("retention.raw_days");
    reveal_strlit("appearance.accent");
    reveal_strlit("notify.renotify_hours");
    reveal_strlit("notify.digest_enabled");
    reveal_strlit("notify.digest_time");
    reveal_strlit("notify.digest_recipients");
    reveal_strlit("report_auto_generate");
    reveal_strlit("report_day_of_month");
    reveal_strlit("report_time");
    reveal_strlit("report_recipients");
}

/// A request stores what it names and leaves the rest: after it, every setting holds its new value
/// where the request gives one, and what it held before where it does not.
pub proof fn law_requests_store_what_they_name(
    dto: UpdateSettingsDto,
    store: Map<Seq<char>, Seq<char>>,
    k: Seq<char>,
)
    ensures
        held(written(store, writes(dto)), k) == (if k == "anchors"@ {
            renewed(anchors_text(dto.anchors), held(store, k))
        } else if k == "notify.cooldown_minutes"@ {
            renewed(number_text(dto.cooldown_minutes), held(store, k))
        } else if k == "retention.raw_days"@ {
            renewed(number_text(dto.retention_days), held(store, k))
        } else if k == "appearance.accent"@ {
            renewed(text::view_opt(dto.accent), held(store, k))
        } else if k == "notify.renotify_hours"@ {
            renewed(number_text(dto.renotify_hours), held(store, k))
        } else if k == "notify.digest_enabled"@ {
            renewed(switch_text(dto.digest_enabled), held(store, k))
        } else if k == "notify.digest_time"@ {
            renewed(text::view_opt(dto.digest_time), held(store, k))
        } else if k == "notify.digest_recipients"@ {
            renewed(list_text(dto.digest_recipients), held(store, k))
        } else if k == "report_auto_generate"@ {
            renewed(switch_text(dto.report_auto_generate), held(store, k))
        } else if k == "report_day_of_month"@ {
            renewed(number_text(dto.report_day_of_month), held(store, k))
        } else if k == "report_time"@ {
            renewed(text::view_opt(dto.report_time), held(store, k))
        } else if k == "report_recipients"@ {
            renewed(list_text(dto.report_recipients), held(store, k))
        } else {
            held(store, k)
        }),
{
    lemma_keys_differ();
    let e1 = entry("anchors"@, anchors_text(dto.anchors));
    let e2 = entry("notify.cooldown_minutes"@, number_text(dto.cooldown_minutes));
    let e3 = entry("retention.raw_days"@, number_text(dto.retention_days));
    let e4 = entry("appearance.accent"@, text::view_opt(dto.accent));
    let e5 = entry("notify.renotify_hours"@, number_text(dto.renotify_hours));
    let e6 = entry("notify.digest_enabled"@, switch_text(dto.digest_enabled));
    let e7 = entry("notify.digest_time"@, text::view_opt(dto.digest_time));
    let e8 = entry("notify.digest_recipients"@, list_text(dto.digest_recipients));
    let e9 = entry("report_auto_generate"@, switch_text(dto.report_auto_generate));
    let e10 = entry("report_day_of_month"@, number_text(dto.report_day_of_month));
    let e11 = entry("report_time"@, text::view_opt(dto.report_time));
    let p2 = e1 + e2;
    let p3 = p2 + e3;
    let p4 = p3 + e4;
    let p5 = p4 + e5;
    let p6 = p5 + e6;
    let p7 = p6 + e7;
    let p8 = p7 + e8;
    let p9 = p8 + e9;
    let p10 = p9 + e10;
    let p11 = p10 + e11;
    let none = Seq::<Pair>::empty();
    assert(none + e1 =~= e1);
    lemma_entry(store, none, "anchors"@, anchors_text(dto.anchors), k);
    lemma_entry(store, e1, "notify.cooldown_minutes"@, number_text(dto.cooldown_minutes), k);
    lemma_entry(store, p2, "retention.raw_days"@, number_text(dto.retention_days), k);
    lemma_entry(store, p3, "appearance.accent"@, text::view_opt(dto.accent), k);
    lemma_entry(store, p4, "notify.renotify_hours"@, number_text(dto.renotify_hours), k);
    lemma_entry(store, p5, "notify.digest_enabled"@, switch_text(dto.digest_enabled), k);
    lemma_entry(store, p6, "notify.digest_time"@, text::view_opt(dto.digest_time), k);
    lemma_entry(store, p7, "notify.digest_recipients"@, list_text(dto.digest_recipients), k);
    lemma_entry(store, p8, "report_auto_generate"@, switch_text(dto.report_auto_generate), k);
    lemma_entry(store, p9, "report_day_of_month"@, number_text(dto.report_day_of_month), k);
    lemma_entry(store, p10, "report_time"@, text::view_opt(dto.report_time), k);
    lemma_entry(store, p11, "report_recipients"@, list_text(dto.report_recipients), k);
}

/// What is stored is what a store holds under the keys of the settings.
pub open spec fn stored_in(raw: StoredSettings, store: Map<Seq<char>, Seq<char>>) -> bool {
    &&& text::view_opt(raw.anchors) == held(store, "anchors"@)
    &&& text::view_opt(raw.cooldown_minutes) == held(store, "notify.cooldown_minutes"@)
    &&& text::view_opt(raw.retention_days) == held(store, "retention.raw_days"@)
    &&& text::view_opt(raw.accent) == held(store, "appearance.accent"@)
    &&& text::view_opt(raw.renotify_hours) == held(store, "notify.renotify_hours"@)
    &&& text::view_opt(raw.digest_enabled) == held(store, "notify.digest_enabled"@)
    &&& text::view_opt(raw.digest_time) == held(store, "notify.digest_time"@)
    &&& text::view_opt(raw.digest_recipients) == held(store, "notify.digest_recipients"@)
    &&& text::view_opt(raw.report_auto_generate) == held(store, "report_auto_generate"@)
    &&& text::view_opt(raw.report_day_of_month) == held(store, "report_day_of_month"@)
    &&& text::view_opt(raw.report_time) == held(store, "report_time"@)
    &&& text::view_opt(raw.report_recipients) == held(store, "report_recipients"@)
}

#[verifier::rlimit(50)]
proof fn lemma_held_after(dto: UpdateSettingsDto, store: Map<Seq<char>, Seq<char>>)
    ensures
        held(written(store, writes(dto)), "anchors"@) == renewed(
            anchors_text(dto.anchors),
            held(store, "anchors"@),
        ),
        held(written(store, writes(dto)), "notify.cooldown_minutes"@) == renewed(
            number_text(dto.cooldown_minutes),
            held(store, "notify.cooldown_minutes"@),
        ),
        held(written(store, writes(dto)), "retention.raw_days"@) == renewed(
            number_text(dto.retention_days),
            held(store, "retention.raw_days"@),
        ),
        held(written(store, writes(dto)), "appearance.accent"@) == renewed(
            text::view_opt(dto.accent),
            held(store, "appearance.accent"@),
        ),
        held(written(store, writes(dto)), "notify.renotify_hours"@) == renewed(
            number_text(dto.renotify_hours),
            held(store, "notify.renotify_hours"@),
        ),
        held(written(store, writes(dto)), "notify.digest_enabled"@) == renewed(
            switch_text(dto.digest_enabled),
            held(store, "notify.digest_enabled"@),
        ),
        held(written(store, writes(dto)), "notify.digest_time"@) == renewed(
            text::view_opt(dto.digest_time),
            held(store, "notify.digest_time"@),
        ),
        held(written(store, writes(dto)), "notify.digest_recipients"@) == renewed(
            list_text(dto.digest_recipients),
            held(store, "notify.digest_recipients"@),
        ),
        held(written(store, writes(dto)), "report_auto_generate"@) == renewed(
            switch_text(dto.report_auto_generate),
            held(store, "report_auto_generate"@),
        ),
        held(written(store, writes(dto)), "report_day_of_month"@) == renewed(
            number_text(dto.report_day_of_month),
            held(store, "report_day_of_month"@),
        ),
        held(written(store, writes(dto)), "report_time"@) == renewed(
            text::view_opt(dto.report_time),
            held(store, "report_time"@),
        ),
        held(written(store, writes(dto)), "report_recipients"@) == renewed(
            list_text(dto.report_recipients),
            held(store, "report_recipients"@),
        ),
{
    lemma_keys_differ();
    assert(held(written(store, writes(dto)), "anchors"@) == renewed(
        anchors_text(dto.anchors),
        held(store, "anchors"@),
    )) by {
        law_requests_store_what_they_name(dto, store, "anchors"@);
    }
    assert(held(written(store, writes(dto)), "notify.cooldown_minutes"@) == renewed(
        number_text(dto.cooldown_minutes),
        held(store, "notify.cooldown_minutes"@),
    )) by {
        law_requests_store_what_they_name(dto, store, "notify.cooldown_minutes"@);
    }
    assert(held(written(store, writes(dto)), "retention.raw_days"@) == renewed(
        number_text(dto.retention_days),
        held(store, "retention.raw_days"@),
    )) by {
        law_requests_store_what_they_name(dto, store, "retention.raw_days"@);
    }
    assert(held(written(store, writes(dto)), "appearance.accent"@) == renewed(
        text::view_opt(dto.accent),
        held(store, "appearance.accent"@),
    )) by {
        law_requests_store_what_they_name(dto, store, "appearance.accent"@);
    }
    assert(held(written(store, writes(dto)), "notify.renotify_hours"@) == renewed(
        number_text(dto.renotify_hours),
        held(store, "notify.renotify_hours"@),
    )) by {
        law_requests_store_what_they_name(dto, store, "notify.renotify_hours"@);
    }
    assert(held(written(store, writes(dto)), "notify.digest_enabled"@) == renewed(
        switch_text(dto.digest_enabled),
        held(store, "notify.digest_enabled"@),
    )) by {
        law_requests_store_what_they_name(dto, store, "notify.digest_enabled"@);
    }
    assert(held(written(store, writes(dto)), "notify.digest_time"@) == renewed(
        text::view_opt(dto.digest_time),
        held(store, "notify.digest_time"@),
    )) by {
        law_requests_store_what_they_name(dto, store, "notify.digest_time"@);
    }
    assert(held(written(store, writes(dto)), "notify.digest_recipients"@) == renewed(
        list_text(dto.digest_recipients),
        held(store, "notify.digest_recipients"@),
    )) by {
        law_requests_store_what_they_name(dto, store, "notify.digest_recipients"@);
    }
    assert(held(written(store, writes(dto)), "report_auto_generate"@) == renewed(
        switch_text(dto.report_auto_generate),
        held(store, "report_auto_generate"@),
    )) by {
        law_requests_store_what_they_name(dto, store, "report_auto_generate"@);
    }
    assert(held(written(store, writes(dto)), "report_day_of_month"@) == renewed(
        number_text(dto.report_day_of_month),
        held(store, "report_day_of_month"@),
    )) by {
        law_requests_store_what_they_name(dto, store, "report_day_of_month"@);
    }
    assert(held(written(store, writes(dto)), "report_time"@) == renewed(
        text::view_opt(dto.report_time),
        held(store, "report_time"@),
    )) by {
        law_requests_store_what_they_name(dto, store, "report_time"@);
    }
    assert(held(written(store, writes(dto)), "report_recipients"@) == renewed(
        list_text(dto.report_recipients),
        held(store, "report_recipients"@),
    )) by {
        law_requests_store_what_they_name(dto, store, "report_recipients"@);
    }
}

proof fn lemma_read_back(
    dto: UpdateSettingsDto,
    store: Map<Seq<char>, Seq<char>>,
    after: Map<Seq<char>, Seq<char>>,
    raw: StoredSettings,
    r: Settings,
)
    requires
        stored_in(raw, after),
        in_effect(r, raw),
        dto.digest_recipients matches Some(j) ==> json::json_ints(
            json::int_array(recipients_of(j)),
        ) == Some(recipients_of(j)),
        dto.report_recipients matches Some(j) ==> json::json_ints(
            json::int_array(recipients_of(j)),
        ) == Some(recipients_of(j)),
        held(after, "anchors"@) == renewed(anchors_text(dto.anchors), held(store, "anchors"@)),
        held(after, "notify.cooldown_minutes"@) == renewed(number_text(dto.cooldown_minutes), held(store, "notify.cooldown_minutes"@)),
        held(after, "retention.raw_days"@) == renewed(number_text(dto.retention_days), held(store, "retention.raw_days"@)),
        held(after, "appearance.accent"@) == renewed(text::view_opt(dto.accent), held(store, "appearance.accent"@)),
        held(after, "notify.renotify_hours"@) == renewed(number_text(dto.renotify_hours), held(store, "notify.renotify_hours"@)),
        held(after, "notify.digest_enabled"@) == renewed(switch_text(dto.digest_enabled), held(store, "notify.digest_enabled"@)),
        held(after, "notify.digest_time"@) == renewed(text::view_opt(dto.digest_time), held(store, "notify.digest_time"@)),
        held(after, "notify.digest_recipients"@) == renewed(list_text(dto.digest_recipients), held(store, "notify.digest_recipients"@)),
        held(after, "report_auto_generate"@) == renewed(switch_text(dto.report_auto_generate), held(store, "report_auto_generate"@)),
        held(after, "report_day_of_month"@) == renewed(number_text(dto.report_day_of_month), held(store, "report_day_of_month"@)),
        held(after, "report_time"@) == renewed(text::view_opt(dto.report_time), held(store, "report_time"@)),
        held(after, "report_recipients"@) == renewed(list_text(dto.report_recipients), held(store, "report_recipients"@)),
    ensures
        dto.cooldown_minutes matches Some(v) ==> r.cooldown_minutes == v,
        dto.retention_days matches Some(v) ==> r.retention_days == v,
        dto.renotify_hours matches Some(v) ==> r.renotify_hours == v,
        dto.report_day_of_month matches Some(v) ==> r.report_day_of_month == v,
        dto.digest_enabled matches Some(v) ==> r.digest_enabled == v,
        dto.report_auto_generate matches Some(v) ==> r.report_auto_generate == v,
        dto.accent matches Some(v) ==> r.accent@ == v@,
        dto.digest_time matches Some(v) ==> r.digest_time@ == v@,
        dto.report_time matches Some(v) ==> r.report_time@ == v@,
        dto.digest_recipients matches Some(Json::Array(a)) ==> r.digest_recipients@ == ints_of(a@),
        dto.report_recipients matches Some(Json::Array(a)) ==> r.report_recipients@ == ints_of(a@),
{
    if let Some(v) = dto.cooldown_minutes {
        settings_store::law_number_round_trips(raw.cooldown_minutes->0, v, 15);
    }
    if let Some(v) = dto.retention_days {
        settings_store::law_number_round_trips(raw.retention_days->0, v, 30);
    }
    if let Some(v) = dto.renotify_hours {
        settings_store::law_number_round_trips(raw.renotify_hours->0, v, 6);
    }
    if let Some(v) = dto.report_day_of_month {
        settings_store::law_number_round_trips(raw.report_day_of_month->0, v, 1);
    }
    if let Some(v) = dto.digest_enabled {
        law_stored_flag_reads_back(v);
    }
    if let Some(v) = dto.report_auto_generate {
        law_stored_flag_reads_back(v);
    }
}

/// A setting that a request names is in effect once the request is stored: numbers, flags, texts and
/// lists of channels read back as they were named.
pub proof fn law_named_settings_take_effect(
    dto: UpdateSettingsDto,
    store: Map<Seq<char>, Seq<char>>,
    raw: StoredSettings,
    r: Settings,
)
    requires
        stored_in(raw, written(store, writes(dto))),
        in_effect(r, raw),
        dto.digest_recipients matches Some(j) ==> json::json_ints(
            json::int_array(recipients_of(j)),
        ) == Some(recipients_of(j)),
        dto.report_recipients matches Some(j) ==> json::json_ints(
            json::int_array(recipients_of(j)),
        ) == Some(recipients_of(j)),
    ensures
        dto.cooldown_minutes matches Some(v) ==> r.cooldown_minutes == v,
        dto.retention_days matches Some(v) ==> r.retention_days == v,
        dto.renotify_hours matches Some(v) ==> r.renotify_hours == v,
        dto.report_day_of_month matches Some(v) ==> r.report_day_of_month == v,
        dto.digest_enabled matches Some(v) ==> r.digest_enabled == v,
        dto.report_auto_generate matches Some(v) ==> r.report_auto_generate == v,
        dto.accent matches Some(v) ==> r.accent@ == v@,
        dto.digest_time matches Some(v) ==> r.digest_time@ == v@,
        dto.report_time matches Some(v) ==> r.report_time@ == v@,
        dto.digest_recipients matches Some(Json::Array(a)) ==> r.digest_recipients@ == ints_of(a@),
        dto.report_recipients matches Some(Json::Array(a)) ==> r.report_recipients@ == ints_of(a@),
{
    lemma_held_after(dto, store);
    lemma_read_back(dto, store, written(store, writes(dto)), raw, r);
}

/// A setting that was never stored, or whose text is no number, is at its default.
pub proof fn law_unset_settings_are_at_their_defaults(raw: StoredSettings, r: Settings)
    requires
        in_effect(r, raw),
    ensures
        raw.cooldown_minutes is None ==> r.cooldown_minutes == 15,
        raw.retention_days is None ==> r.retention_days == 30,
        raw.renotify_hours is None ==> r.renotify_hours == 6,
        raw.report_day_of_month is None ==> r.report_day_of_month == 1,
        raw.digest_enabled is None ==> !r.digest_enabled,
        raw.report_auto_generate is None ==> r.report_auto_generate,
        raw.accent is None ==> r.accent@ == "#3FC8E4"@,
        raw.digest_time is None ==> r.digest_time@ == "08:00"@,
        raw.report_time is None ==> r.report_time@ == "08:00"@,
        raw.digest_recipients is None ==> r.digest_recipients@.len() == 0,
        raw.report_recipients is None ==> r.report_recipients@.len() == 0,
        raw.digest_enabled matches Some(s) ==> (r.digest_enabled <==> s@ == "1"@),
        raw.report_auto_generate matches Some(s) ==> (r.report_auto_generate <==> s@ == "1"@),
{
}

/// The texts and the integers of an array are read one by one, in order; what is neither is passed
/// over.
pub proof fn law_arrays_are_read_item_by_item(a: Seq<Json>, b: Seq<Json>, s: String, n: i64)
    ensures
        texts_of(a + b) == texts_of(a) + texts_of(b),
        ints_of(a + b) == ints_of(a) + ints_of(b),
        texts_of(seq![Json::Str(s)]) == seq![s@],
        texts_of(seq![Json::Int(n)]).len() == 0,
        ints_of(seq![Json::Int(n)]) == seq![n],
        ints_of(seq![Json::Str(s)]).len() == 0,
    decreases b.len(),
{
    reveal_with_fuel(texts_of, 2);
    reveal_with_fuel(ints_of, 2);
    let x = seq![Json::Str(s)];
    let y = seq![Json::Int(n)];
    assert(x.drop_last() =~= Seq::<Json>::empty());
    assert(y.drop_last() =~= Seq::<Json>::empty());
    assert(texts_of(x) =~= seq![s@]);
    assert(ints_of(y) =~= seq![n]);
    if b.len() == 0 {
        assert(a + b =~= a);
        assert(texts_of(a) + texts_of(b) =~= texts_of(a));
        assert(ints_of(a) + ints_of(b) =~= ints_of(a));
    } else {
        law_arrays_are_read_item_by_item(a, b.drop_last(), s, n);
        assert((a + b).drop_last() =~= a + b.drop_last());
        assert(texts_of(a + b) =~= texts_of(a) + texts_of(b));
        assert(ints_of(a + b) =~= ints_of(a) + ints_of(b));
    }
}

} // verus!
