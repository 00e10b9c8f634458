//! Requests about maintenance windows.

use vstd::prelude::*;

use crate::api;
use crate::api::{invalid, ApiError};
use crate::json;
use crate::json::Json;
use crate::maintenance_windows;
use crate::maintenance_windows::resolve;
use crate::models;
use crate::models::{
    validate_window_dto, CreateMaintenanceWindowDto, MaintenanceWindow, Ts,
    UpdateMaintenanceWindowDto,
};
use crate::text;

verus! {

/// The stored target of a scope: none for `all`, whatever was given, and the JSON text of the
/// target otherwise.
pub open spec fn column_of(scope: Seq<char>, target_ref: Option<Json>) -> Option<Seq<char>> {
    if scope == "all"@ {
        None
    } else {
        match target_ref {
            Some(v) => Some(json::written(v)),
            None => None,
        }
    }
}

/// A target reads back from its JSON text, where it is a text or an array of integers.
pub open spec fn reads_back(v: Json) -> bool {
    match v {
        Json::Str(s) => json::json_string(json::written(v)) == Some(s@),
        Json::Array(a) => all_ints(a@) ==> json::json_ints(json::written(v)) == Some(ints(a@)),
        _ => true,
    }
}

/// Every item of an array is an integer of 64 bits.
pub open spec fn all_ints(v: Seq<Json>) -> bool {
    forall|i: int| 0 <= i < v.len() ==> (#[trigger] v[i]) is Int
}

/// The integers of an array of integers.
pub open spec fn ints(v: Seq<Json>) -> Seq<i64> {
    v.map_values(|j: Json| j->Int_0)
}

proof fn lemma_items(v: Vec<Json>, n: nat)
    requires
        all_ints(v@),
        n <= v@.len(),
    ensures
        json::written_items(v, n) == text::joined(
            ints(v@).take(n as int).map_values(|k: i64| text::dec(k as int)),
            seq![','],
        ),
    decreases n,
{
    let parts = ints(v@).take(n as int).map_values(|k: i64| text::dec(k as int));
    if n > 0 {
        assert(v@[n - 1] is Int);
        assert(parts.last() == json::written(v@[n - 1]));
        let m = (n - 1) as nat;
        lemma_items(v, m);
        assert(parts.drop_last() =~= ints(v@).take(m as int).map_values(
            |k: i64| text::dec(k as int),
        ));
        if n == 1 {
            assert(parts =~= seq![json::written(v@[0])]);
        }
    }
}

/// The integers of an array, where every item is one.
fn int_items(v: &Vec<Json>) -> (r: Option<Vec<i64>>)
    ensures
        r is Some <==> all_ints(v@),
        r matches Some(n) ==> n@ == ints(v@),
{
    let mut out: Vec<i64> = Vec::new();
    let mut i: usize = 0;
    while i < v.len()
        invariant
            i <= v@.len(),
            forall|k: int| 0 <= k < i ==> (#[trigger] v@[k]) is Int,
            out@ =~= ints(v@).take(i as int),
        decreases v@.len() - i,
    {
        match &v[i] {
            Json::Int(n) => out.push(*n),
            _ => {
                assert(!(v@[i as int] is Int));
                return None;
            },
        }
        i += 1;
    }
    Some(out)
}

/// Writes a target as JSON text.
fn target_text(v: &Json) -> (r: String)
    ensures
        r@ == json::written(*v),
        reads_back(*v),
{
    match v {
        Json::Str(s) => json::quote(s.as_str()),
        Json::Array(a) => match int_items(a) {
            Some(n) => {
                proof {
                    lemma_items(*a, a@.len());
                    assert(ints(a@).take(a@.len() as int) =~= ints(a@));
                }
                json::write_ints(&n)
            },
            None => json::write(v),
        },
        _ => json::write(v),
    }
}

/// The stored target of a window.
pub fn target_ref_column(scope: &str, target_ref: &Option<Json>) -> (r: Option<String>)
    ensures
        text::view_opt(r) == column_of(scope@, *target_ref),
        r is Some ==> reads_back(target_ref->0),
{
    if text::same(scope, "all") {
        return None;
    }
    match target_ref {
        Some(v) => Some(target_text(v)),
        None => None,
    }
}

/// What a window whose scope is `tag` or `monitors` covers: the monitors with the tag, or the named
/// ones.
pub open spec fn covers(w: MaintenanceWindow, target_ref: Option<Json>) -> bool {
    match target_ref {
        Some(Json::Str(s)) => w.scope@ == "tag"@ ==> forall|id: i64, tags: Seq<Seq<char>>|
            #[trigger] resolve::in_scope(w, id, tags) <==> tags.contains(s@),
        Some(Json::Array(a)) => w.scope@ == "monitors"@ && all_ints(a@) ==> forall|
            id: i64,
            tags: Seq<Seq<char>>,
        | #[trigger]
            resolve::in_scope(w, id, tags) <==> ints(a@).contains(id),
        _ => true,
    }
}

proof fn lemma_covers(w: MaintenanceWindow, target_ref: Option<Json>)
    requires
        text::view_opt(w.target_ref) == column_of(w.scope@, target_ref),
        w.scope@ != "all"@ && target_ref is Some ==> reads_back(target_ref->0),
    ensures
        covers(w, target_ref),
{
    reveal_strlit("all");
    reveal_strlit("tag");
    reveal_strlit("monitors");
    assert("tag"@[0] != "all"@[0]);
    assert("monitors"@.len() != "all"@.len());
    assert("monitors"@.len() != "tag"@.len());
}

/// `w` is the window that a request creates.
pub open spec fn is_created(w: MaintenanceWindow, dto: CreateMaintenanceWindowDto, ts: Ts) -> bool {
    &&& w.id == 0
    &&& w.name == dto.name
    &&& w.scope == dto.scope
    &&& text::view_opt(w.target_ref) == column_of(dto.scope@, dto.target_ref)
    &&& w.starts_at == dto.starts_at
    &&& w.ends_at == dto.ends_at
    &&& w.recurrence == dto.recurrence
    &&& w.suppress == dto.suppress
    &&& w.is_active
    &&& w.created_at == ts
}

/// What is wrong with a request to create a window, if anything.
pub open spec fn create_error(dto: CreateMaintenanceWindowDto) -> Option<Seq<char>> {
    models::window_error(
        dto.name@,
        dto.scope@,
        dto.target_ref,
        dto.starts_at as int,
        dto.ends_at as int,
        dto.recurrence,
    )
}

/// `r` is what a request to create a window comes to.
pub open spec fn is_creation(r: Result<MaintenanceWindow, ApiError>, dto: CreateMaintenanceWindowDto, ts: Ts) -> bool {
    &&& match r {
        Ok(w) => create_error(dto) is None && is_created(w, dto, ts) && covers(w, dto.target_ref),
        Err(e) => create_error(dto) is Some && api::refuses(
            e,
            api::UNPROCESSABLE,
            create_error(dto)->0,
        ),
    }
}

/// The window that a request creates, with no id yet, if nothing is wrong with it.
pub fn create(dto: CreateMaintenanceWindowDto, ts: Ts) -> (r: Result<MaintenanceWindow, ApiError>)
    ensures
        is_creation(r, dto, ts),
{
    if let Err(message) = validate_window_dto(
        dto.name.as_str(),
        dto.scope.as_str(),
        &dto.target_ref,
        dto.starts_at,
        dto.ends_at,
        &dto.recurrence,
    ) {
        return Err(invalid(message));
    }
    let target_ref = target_ref_column(dto.scope.as_str(), &dto.target_ref);
    let w = MaintenanceWindow {
        id: 0,
        name: dto.name,
        scope: dto.scope,
        target_ref,
        starts_at: dto.starts_at,
        ends_at: dto.ends_at,
        recurrence: dto.recurrence,
        suppress: dto.suppress,
        is_active: true,
        created_at: ts,
    };
    proof {
        lemma_covers(w, dto.target_ref);
    }
    Ok(w)
}

/// The target after a change: the new one, or else the stored one.
pub open spec fn merged_target(new: Option<Json>, stored: Option<Json>) -> Option<Json> {
    match new {
        Some(v) => Some(v),
        None => stored,
    }
}

/// `w` is a window with a change applied; `target` is the window's target before the change.
pub open spec fn is_merged(
    w: MaintenanceWindow,
    existing: MaintenanceWindow,
    target: Option<Json>,
    dto: UpdateMaintenanceWindowDto,
) -> bool {
    &&& w.id == existing.id
    &&& w.created_at == existing.created_at
    &&& w.name == match dto.name {
        Some(n) => n,
        None => existing.name,
    }
    &&& w.scope == match dto.scope {
        Some(s) => s,
        None => existing.scope,
    }
    &&& text::view_opt(w.target_ref) == column_of(w.scope@, merged_target(dto.target_ref, target))
    &&& w.starts_at == match dto.starts_at {
        Some(t) => t,
        None => existing.starts_at,
    }
    &&& w.ends_at == match dto.ends_at {
        Some(t) => t,
        None => existing.ends_at,
    }
    &&& w.recurrence == match dto.recurrence {
        Some(c) => Some(c),
        None => existing.recurrence,
    }
    &&& w.suppress == match dto.suppress {
        Some(s) => s,
        None => existing.suppress,
    }
    &&& w.is_active == match dto.is_active {
        Some(a) => a,
        None => existing.is_active,
    }
}

/// What is wrong with a window after a change, if anything.
pub open spec fn update_error(
    existing: MaintenanceWindow,
    target: Option<Json>,
    dto: UpdateMaintenanceWindowDto,
) -> Option<Seq<char>> {
    models::window_error(
        match dto.name {
            Some(n) => n@,
            None => existing.name@,
        },
        match dto.scope {
            Some(s) => s@,
            None => existing.scope@,
        },
        merged_target(dto.target_ref, target),
        match dto.starts_at {
            Some(t) => t as int,
            None => existing.starts_at as int,
        },
        match dto.ends_at {
            Some(t) => t as int,
            None => existing.ends_at as int,
        },
        match dto.recurrence {
            Some(c) => Some(c),
            None => existing.recurrence,
        },
    )
}

/// `r` is what a request to change a window comes to.
pub open spec fn is_change(
    r: Result<MaintenanceWindow, ApiError>,
    existing: MaintenanceWindow,
    target: Option<Json>,
    dto: UpdateMaintenanceWindowDto,
) -> bool {
    &&& match r {
        Ok(w) => update_error(existing, target, dto) is None && is_merged(w, existing, target, dto)
            && covers(w, merged_target(dto.target_ref, target)),
        Err(e) => update_error(existing, target, dto) is Some && api::refuses(
            e,
            api::UNPROCESSABLE,
            update_error(existing, target, dto)->0,
        ),
    }
}

/// Applies a change to a window: what the request leaves out stays, and the window that results
/// must be valid as a whole. `target` is the stored target as a value.
pub fn update(
    existing: MaintenanceWindow,
    target: Option<Json>,
    dto: UpdateMaintenanceWindowDto,
) -> (r: Result<MaintenanceWindow, ApiError>)
    ensures
        is_change(r, existing, target, dto),
{
    let name = match dto.name {
        Some(n) => n,
        None => existing.name,
    };
    let scope = match dto.scope {
        Some(s) => s,
        None => existing.scope,
    };
    let target_ref = match dto.target_ref {
        Some(v) => Some(v),
        None => target,
    };
    let starts_at: i64 = match dto.starts_at {
        Some(t) => t,
        None => existing.starts_at,
    };
    let ends_at: i64 = match dto.ends_at {
        Some(t) => t,
        None => existing.ends_at,
    };
    let recurrence = match dto.recurrence {
        Some(c) => Some(c),
        None => existing.recurrence,
    };
    if let Err(message) = validate_window_dto(
        name.as_str(),
        scope.as_str(),
        &target_ref,
        starts_at,
        ends_at,
        &recurrence,
    ) {
        return Err(invalid(message));
    }
    let column = target_ref_column(scope.as_str(), &target_ref);
    let w = MaintenanceWindow {
        id: existing.id,
        name,
        scope,
        target_ref: column,
        starts_at,
        ends_at,
        recurrence,
        suppress: match dto.suppress {
            Some(s) => s,
            None => existing.suppress,
        },
        is_active: match dto.is_active {
            Some(a) => a,
            None => existing.is_active,
        },
        created_at: existing.created_at,
    };
    proof {
        lemma_covers(w, target_ref);
    }
    Ok(w)
}

/// A window that is being written: a scope and a target, and a time where one is given.
#[derive(Debug)]
pub struct PreviewDto {
    pub scope: String,
    pub target_ref: Option<Json>,
    pub recurrence: Option<String>,
    pub starts_at: Option<i64>,
    pub ends_at: Option<i64>,
}

/// A time, or the epoch where none is given.
pub open spec fn time_or_epoch(t: Option<i64>) -> i64 {
    match t {
        Some(v) => v,
        None => 0,
    }
}

/// `w` is the window that a preview stands for.
pub open spec fn is_preview(w: MaintenanceWindow, body: PreviewDto) -> bool {
    &&& w.id == 0
    &&& w.scope == body.scope
    &&& text::view_opt(w.target_ref) == column_of(body.scope@, body.target_ref)
    &&& w.starts_at == time_or_epoch(body.starts_at)
    &&& w.ends_at == time_or_epoch(body.ends_at)
    &&& w.recurrence == body.recurrence
    &&& w.name@.len() == 0
    &&& w.suppress@ == "alerts"@
    &&& w.is_active
    &&& w.created_at == 0
}

/// The window that a preview stands for, as it would be stored.
pub fn preview_window(body: PreviewDto) -> (r: MaintenanceWindow)
    ensures
        is_preview(r, body),
        covers(r, body.target_ref),
{
    let target_ref = target_ref_column(body.scope.as_str(), &body.target_ref);
    let w = MaintenanceWindow {
        id: 0,
        name: String::new(),
        scope: body.scope,
        target_ref,
        starts_at: match body.starts_at {
            Some(t) => t,
            None => 0,
        },
        ends_at: match body.ends_at {
            Some(t) => t,
            None => 0,
        },
        recurrence: body.recurrence,
        suppress: text::own("alerts"),
        is_active: true,
        created_at: 0,
    };
    proof {
        lemma_covers(w, body.target_ref);
    }
    w
}

/// The monitors in a window's scope, in order.
pub open spec fn affected(w: MaintenanceWindow, rows: Seq<(i64, Option<String>)>) -> Seq<i64>
    decreases rows.len(),
{
    if rows.len() == 0 {
        Seq::empty()
    } else if resolve::in_scope(
        w,
        rows.last().0,
        maintenance_windows::stored_tags(rows.last().1),
    ) {
        affected(w, rows.drop_last()).push(rows.last().0)
    } else {
        affected(w, rows.drop_last())
    }
}

/// The monitors that a window affects, each row holding a monitor's id and its tags.
pub fn preview(w: &MaintenanceWindow, rows: &Vec<(i64, Option<String>)>) -> (r: Vec<i64>)
    ensures
        r@ == affected(*w, rows@),
{
    let mut r: Vec<i64> = Vec::new();
    let mut i: usize = 0;
    while i < rows.len()
        invariant
            i <= rows@.len(),
            r@ == affected(*w, rows@.take(i as int)),
        decreases rows@.len() - i,
    {
        assert(rows@.take(i + 1).drop_last() =~= rows@.take(i as int));
        let (id, raw) = &rows[i];
        let tags = match raw {
            Some(s) => resolve::parse_tags(s.as_str()),
            None => resolve::parse_tags(""),
        };
        if resolve::monitor_in_scope(w, *id, tags.as_slice()) {
            r.push(*id);
        }
        i += 1;
    }
    assert(rows@.take(rows@.len() as int) =~= rows@);
    r
}

/// `r` says whether a previewed window is active, where it has times.
pub open spec fn shows_active(w: MaintenanceWindow, timed: bool, now: int, r: Option<bool>) -> bool {
    &&& r == (if timed {
        Some(resolve::active_at(w, now))
    } else {
        None
    })
}

/// Whether a window would be active now; not said where it has no start or no end yet.
pub fn preview_active(w: &MaintenanceWindow, timed: bool, now: Ts) -> (r: Option<bool>)
    requires
        timed ==> resolve::resolvable(*w, now as int),
    ensures
        shows_active(*w, timed, now as int, r),
{
    if timed {
        Some(resolve::window_active_at(w, now))
    } else {
        None
    }
}

/// A window that is created is the one that was asked for, active from the start: its times, its
/// recurrence, what it suppresses, and whom it covers, which for a tag are the monitors with the tag
/// and for a list the monitors of the list.
pub proof fn law_created_window(
    r: Result<MaintenanceWindow, ApiError>,
    dto: CreateMaintenanceWindowDto,
    ts: Ts,
    id: i64,
    tags: Seq<Seq<char>>,
)
    requires
        is_creation(r, dto, ts),
    ensures
        r matches Err(e) ==> e.status == 422,
        r is Ok <==> models::window_error(
            dto.name@,
            dto.scope@,
            dto.target_ref,
            dto.starts_at as int,
            dto.ends_at as int,
            dto.recurrence,
        ) is None,
        r matches Ok(w) ==> {
            &&& w.id == 0
            &&& w.name == dto.name && w.scope == dto.scope
            &&& w.starts_at == dto.starts_at && w.ends_at == dto.ends_at
            &&& w.recurrence == dto.recurrence && w.suppress == dto.suppress
            &&& w.is_active
            &&& w.created_at == ts
            &&& (dto.scope@ == "all"@ ==> w.target_ref is None)
            &&& (dto.target_ref matches Some(Json::Str(s)) ==> dto.scope@ == "tag"@ ==> (
            resolve::in_scope(w, id, tags) <==> tags.contains(s@)))
            &&& (dto.target_ref matches Some(Json::Array(a)) ==> dto.scope@ == "monitors"@
                && all_ints(a@) ==> (resolve::in_scope(w, id, tags) <==> ints(a@).contains(id)))
        },
{
}

/// A change of a window takes effect on what it names and leaves the rest; the window that results is
/// as valid as a new one must be.
pub proof fn law_changed_window(
    r: Result<MaintenanceWindow, ApiError>,
    existing: MaintenanceWindow,
    target: Option<Json>,
    dto: UpdateMaintenanceWindowDto,
    w: MaintenanceWindow,
)
    requires
        is_change(r, existing, target, dto),
        r == Ok::<MaintenanceWindow, ApiError>(w),
    ensures
        w.id == existing.id && w.created_at == existing.created_at,
        dto.name matches Some(v) ==> w.name == v,
        dto.name is None ==> w.name == existing.name,
        dto.scope matches Some(v) ==> w.scope == v,
        dto.scope is None ==> w.scope == existing.scope,
        dto.starts_at matches Some(v) ==> w.starts_at == v,
        dto.starts_at is None ==> w.starts_at == existing.starts_at,
        dto.ends_at matches Some(v) ==> w.ends_at == v,
        dto.ends_at is None ==> w.ends_at == existing.ends_at,
        dto.recurrence matches Some(v) ==> w.recurrence == Some(v),
        dto.recurrence is None ==> w.recurrence == existing.recurrence,
        dto.suppress matches Some(v) ==> w.suppress == v,
        dto.suppress is None ==> w.suppress == existing.suppress,
        dto.is_active matches Some(v) ==> w.is_active == v,
        dto.is_active is None ==> w.is_active == existing.is_active,
        w.scope@ == "all"@ ==> w.target_ref is None,
        w.scope@ != "all"@ && dto.target_ref is Some ==> text::view_opt(w.target_ref) == Some(
            json::written(dto.target_ref->0),
        ),
        w.scope@ != "all"@ && dto.target_ref is None && target is Some ==> text::view_opt(
            w.target_ref,
        ) == Some(json::written(target->0)),
        models::window_error(
            w.name@,
            w.scope@,
            if dto.target_ref is Some {
                dto.target_ref
            } else {
                target
            },
            w.starts_at as int,
            w.ends_at as int,
            w.recurrence,
        ) is None,
{
}

/// A change that is refused is refused for the window that it would make.
pub proof fn law_refused_change(
    e: ApiError,
    existing: MaintenanceWindow,
    target: Option<Json>,
    dto: UpdateMaintenanceWindowDto,
    would: MaintenanceWindow,
)
    requires
        is_change(Err(e), existing, target, dto),
        is_merged(would, existing, target, dto),
    ensures
        e.status == 422,
        models::window_error(
            would.name@,
            would.scope@,
            if dto.target_ref is Some {
                dto.target_ref
            } else {
                target
            },
            would.starts_at as int,
            would.ends_at as int,
            would.recurrence,
        ) == Some(e.message@),
{
}

/// A preview names exactly the monitors that the window covers, in their order.
pub proof fn law_preview_names_the_covered(
    w: MaintenanceWindow,
    a: Seq<(i64, Option<String>)>,
    b: Seq<(i64, Option<String>)>,
    one: (i64, Option<String>),
)
    ensures
        affected(w, a + b) == affected(w, a) + affected(w, b),
        resolve::in_scope(w, one.0, maintenance_windows::stored_tags(one.1)) ==> affected(
            w,
            seq![one],
        ) == seq![one.0],
        !resolve::in_scope(w, one.0, maintenance_windows::stored_tags(one.1)) ==> affected(
            w,
            seq![one],
        ).len() == 0,
    decreases b.len(),
{
    reveal_with_fuel(affected, 2);
    assert(seq![one].drop_last() =~= Seq::<(i64, Option<String>)>::empty());
    if resolve::in_scope(w, one.0, maintenance_windows::stored_tags(one.1)) {
        assert(affected(w, seq![one]) =~= seq![one.0]);
    }
    if b.len() == 0 {
        assert(a + b =~= a);
        assert(affected(w, a) + affected(w, b) =~= affected(w, a));
    } else {
        law_preview_names_the_covered(w, a, b.drop_last(), one);
        assert((a + b).drop_last() =~= a + b.drop_last());
        assert(affected(w, a + b) =~= affected(w, a) + affected(w, b));
    }
}

/// A preview stands for an active window with the scope, the target, the recurrence and the times that
/// it names, from the epoch where it names none.
pub proof fn law_preview_window(w: MaintenanceWindow, body: PreviewDto)
    requires
        is_preview(w, body),
    ensures
        w.id == 0,
        w.is_active,
        w.scope@ == body.scope@,
        w.recurrence == body.recurrence,
        body.starts_at matches Some(t) ==> w.starts_at == t,
        body.starts_at is None ==> w.starts_at == 0,
        body.ends_at matches Some(t) ==> w.ends_at == t,
        body.ends_at is None ==> w.ends_at == 0,
        body.scope@ == "all"@ ==> w.target_ref is None,
        body.scope@ != "all"@ && body.target_ref is Some ==> w.target_ref is Some,
        body.target_ref is None ==> w.target_ref is None,
{
}

/// A preview tells whether a window that does not recur covers now, from its start to its end, both
/// included; one without times tells nothing.
pub proof fn law_preview_tells_whether_it_is_active(
    w: MaintenanceWindow,
    timed: bool,
    now: int,
    r: Option<bool>,
)
    requires
        shows_active(w, timed, now, r),
    ensures
        r is Some <==> timed,
        r is Some && w.recurrence is None ==> (r->0 <==> w.starts_at <= now <= w.ends_at),
        r is Some && w.recurrence is Some && w.ends_at <= w.starts_at ==> !(r->0),
{
}

} // verus!
