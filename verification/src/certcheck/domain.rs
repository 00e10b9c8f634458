//! Domain-registration expiry: the registrable domain of a host, what RDAP and WHOIS answers
//! mean, and which answer to trust.
//!
//! A transient failure and a definitive answer exclude each other. A rate limit, a server error or
//! a broken connection says "ask again later" and carries no data; a registry that answered without
//! an expiry is a final answer that is worth keeping.

use vstd::prelude::*;

use crate::clock;
use crate::json::Json;
use crate::text;

verus! {

/// What one domain check found.
#[derive(Clone, Debug)]
pub struct DomainResult {
    pub registrar: Option<String>,
    pub expiry_date: Option<i64>,
    pub name_servers: Vec<String>,
    pub status_codes: Vec<String>,
    /// The expiry is known. Without meaning while `transient` is set.
    pub queryable: bool,
    /// `rdap`, `whois`, or nothing where no registry answered.
    pub source: Option<String>,
    /// The check failed for now: nothing of it may be kept.
    pub transient: bool,
}

impl DomainResult {
    /// A definitive answer is queryable exactly where it has an expiry, and a transient failure
    /// carries nothing.
    pub open spec fn wf(self) -> bool {
        &&& self.queryable <==> self.expiry_date is Some
        &&& self.transient ==> self.carries_nothing() && self.source is None
    }

    /// No registration data.
    pub open spec fn carries_nothing(self) -> bool {
        &&& self.registrar is None
        &&& self.expiry_date is None
        &&& self.name_servers@.len() == 0
        &&& self.status_codes@.len() == 0
        &&& !self.queryable
    }

    /// A failure to be retried.
    pub open spec fn is_transient_failure(self) -> bool {
        self.transient && self.carries_nothing() && self.source is None
    }

    /// A registry's final answer without an expiry.
    pub open spec fn is_no_answer(self, source: Seq<char>) -> bool {
        !self.transient && self.carries_nothing() && text::view_opt(self.source) == Some(source)
    }

    fn transient() -> (r: Self)
        ensures
            r.is_transient_failure(),
            r.wf(),
    {
        DomainResult {
            registrar: None,
            expiry_date: None,
            name_servers: Vec::new(),
            status_codes: Vec::new(),
            queryable: false,
            source: None,
            transient: true,
        }
    }

    fn not_queryable(source: &str) -> (r: Self)
        ensures
            r.is_no_answer(source@),
            r.wf(),
    {
        DomainResult {
            registrar: None,
            expiry_date: None,
            name_servers: Vec::new(),
            status_codes: Vec::new(),
            queryable: false,
            source: Some(text::own(source)),
            transient: false,
        }
    }
}

impl Default for DomainResult {
    fn default() -> (r: Self)
        ensures
            r.carries_nothing(),
            r.source is None,
            !r.transient,
    {
        DomainResult {
            registrar: None,
            expiry_date: None,
            name_servers: Vec::new(),
            status_codes: Vec::new(),
            queryable: false,
            source: None,
            transient: false,
        }
    }
}

// ---- the registrable domain ----

/// The two-label public suffixes that are known: the common ones, not the whole public list.
pub open spec fn is_multi_suffix(s: Seq<char>) -> bool {
    ||| s == "co.uk"@
    ||| s == "org.uk"@
    ||| s == "gov.uk"@
    ||| s == "ac.uk"@
    ||| s == "me.uk"@
    ||| s == "ltd.uk"@
    ||| s == "plc.uk"@
    ||| s == "net.uk"@
    ||| s == "sch.uk"@
    ||| s == "com.au"@
    ||| s == "net.au"@
    ||| s == "org.au"@
    ||| s == "edu.au"@
    ||| s == "gov.au"@
    ||| s == "id.au"@
    ||| s == "co.jp"@
    ||| s == "or.jp"@
    ||| s == "ne.jp"@
    ||| s == "ac.jp"@
    ||| s == "ad.jp"@
    ||| s == "ed.jp"@
    ||| s == "go.jp"@
    ||| s == "gr.jp"@
    ||| s == "co.nz"@
    ||| s == "org.nz"@
    ||| s == "net.nz"@
    ||| s == "govt.nz"@
    ||| s == "ac.nz"@
    ||| s == "com.br"@
    ||| s == "net.br"@
    ||| s == "org.br"@
    ||| s == "co.in"@
    ||| s == "org.in"@
    ||| s == "net.in"@
    ||| s == "gov.in"@
    ||| s == "ac.in"@
    ||| s == "firm.in"@
    ||| s == "co.za"@
    ||| s == "org.za"@
    ||| s == "net.za"@
    ||| s == "gov.za"@
    ||| s == "co.kr"@
    ||| s == "or.kr"@
    ||| s == "ne.kr"@
    ||| s == "com.cn"@
    ||| s == "net.cn"@
    ||| s == "org.cn"@
    ||| s == "gov.cn"@
    ||| s == "com.tw"@
    ||| s == "org.tw"@
    ||| s == "net.tw"@
    ||| s == "com.mx"@
    ||| s == "org.mx"@
    ||| s == "net.mx"@
    ||| s == "com.sg"@
    ||| s == "org.sg"@
    ||| s == "net.sg"@
    ||| s == "edu.sg"@
    ||| s == "gov.sg"@
    ||| s == "co.id"@
    ||| s == "or.id"@
    ||| s == "net.id"@
    ||| s == "com.hk"@
    ||| s == "org.hk"@
    ||| s == "net.hk"@
    ||| s == "edu.hk"@
    ||| s == "gov.hk"@
    ||| s == "co.il"@
    ||| s == "org.il"@
    ||| s == "net.il"@
    ||| s == "co.th"@
    ||| s == "or.th"@
    ||| s == "ac.th"@
    ||| s == "in.th"@
    ||| s == "com.ar"@
    ||| s == "net.ar"@
    ||| s == "org.ar"@
}

fn multi_suffix(s: &str) -> (r: bool)
    ensures
        r == is_multi_suffix(s@),
{
    text::same(s, "co.uk") || text::same(s, "org.uk") || text::same(s, "gov.uk")
        || text::same(s, "ac.uk") || text::same(s, "me.uk") || text::same(s, "ltd.uk")
        || text::same(s, "plc.uk") || text::same(s, "net.uk") || text::same(s, "sch.uk")
        || text::same(s, "com.au") || text::same(s, "net.au") || text::same(s, "org.au")
        || text::same(s, "edu.au") || text::same(s, "gov.au") || text::same(s, "id.au")
        || text::same(s, "co.jp") || text::same(s, "or.jp") || text::same(s, "ne.jp")
        || text::same(s, "ac.jp") || text::same(s, "ad.jp") || text::same(s, "ed.jp")
        || text::same(s, "go.jp") || text::same(s, "gr.jp") || text::same(s, "co.nz")
        || text::same(s, "org.nz") || text::same(s, "net.nz") || text::same(s, "govt.nz")
        || text::same(s, "ac.nz") || text::same(s, "com.br") || text::same(s, "net.br")
        || text::same(s, "org.br") || text::same(s, "co.in") || text::same(s, "org.in")
        || text::same(s, "net.in") || text::same(s, "gov.in") || text::same(s, "ac.in")
        || text::same(s, "firm.in") || text::same(s, "co.za") || text::same(s, "org.za")
        || text::same(s, "net.za") || text::same(s, "gov.za") || text::same(s, "co.kr")
        || text::same(s, "or.kr") || text::same(s, "ne.kr") || text::same(s, "com.cn")
        || text::same(s, "net.cn") || text::same(s, "org.cn") || text::same(s, "gov.cn")
        || text::same(s, "com.tw") || text::same(s, "org.tw") || text::same(s, "net.tw")
        || text::same(s, "com.mx") || text::same(s, "org.mx") || text::same(s, "net.mx")
        || text::same(s, "com.sg") || text::same(s, "org.sg") || text::same(s, "net.sg")
        || text::same(s, "edu.sg") || text::same(s, "gov.sg") || text::same(s, "co.id")
        || text::same(s, "or.id") || text::same(s, "net.id") || text::same(s, "com.hk")
        || text::same(s, "org.hk") || text::same(s, "net.hk") || text::same(s, "edu.hk")
        || text::same(s, "gov.hk") || text::same(s, "co.il") || text::same(s, "org.il")
        || text::same(s, "net.il") || text::same(s, "co.th") || text::same(s, "or.th")
        || text::same(s, "ac.th") || text::same(s, "in.th") || text::same(s, "com.ar")
        || text::same(s, "net.ar") || text::same(s, "org.ar")
}

/// The pieces that are not empty.
pub open spec fn nonempty(parts: Seq<Seq<char>>) -> Seq<Seq<char>>
    decreases parts.len(),
{
    if parts.len() == 0 {
        Seq::empty()
    } else {
        let rest = nonempty(parts.drop_last());
        if parts.last().len() == 0 {
            rest
        } else {
            rest.push(parts.last())
        }
    }
}

/// The labels of a host, in lower case.
pub open spec fn labels(host: Seq<char>) -> Seq<Seq<char>> {
    nonempty(text::split(text::lower(text::trimmed(host)), '.'))
}

/// The last `n` of some labels, joined with dots.
pub open spec fn last_labels(l: Seq<Seq<char>>, n: int) -> Seq<char> {
    text::joined(l.subrange(l.len() - n, l.len() as int), seq!['.'])
}

/// The registrable domain of a host: its public suffix and one more label. A host of two or fewer
/// labels is its own.
pub open spec fn registrable(host: Seq<char>) -> Seq<char> {
    let l = labels(host);
    if l.len() <= 2 {
        text::joined(l, seq!['.'])
    } else if is_multi_suffix(last_labels(l, 2)) {
        last_labels(l, 3)
    } else {
        last_labels(l, 2)
    }
}

fn host_labels(host: &str) -> (r: Vec<String>)
    ensures
        text::views(r@) == labels(host@),
{
    let trimmed = text::trim(host);
    let lower = text::to_lower(trimmed.as_str());
    let parts = text::split_on(lower.as_str(), '.');
    let ghost all = text::split(text::lower(text::trimmed(host@)), '.');
    let mut out: Vec<String> = Vec::new();
    let mut i: usize = 0;
    assert(all.take(0) =~= Seq::<Seq<char>>::empty());
    assert(text::views(out@) =~= Seq::<Seq<char>>::empty());
    while i < parts.len()
        invariant
            i <= parts@.len(),
            text::views(parts@) == all,
            text::views(out@) == nonempty(all.take(i as int)),
        decreases parts@.len() - i,
    {
        assert(all.take(i + 1).drop_last() =~= all.take(i as int));
        assert(all.take(i + 1).last() == parts@[i as int]@);
        if !parts[i].as_str().is_empty() {
            let ghost before = text::views(out@);
            let piece = text::own(parts[i].as_str());
            let ghost view = piece@;
            out.push(piece);
            assert(text::views(out@) =~= before.push(view));
        }
        i += 1;
    }
    assert(all.take(parts@.len() as int) =~= all);
    out
}

fn tail_labels(l: &Vec<String>, n: usize) -> (r: String)
    requires
        n <= l@.len(),
    ensures
        r@ == last_labels(text::views(l@), n as int),
{
    let mut out: Vec<String> = Vec::new();
    let len: usize = l.len();
    let mut i: usize = len - n;
    while i < len
        invariant
            len == l@.len(),
            n <= len,
            len - n <= i <= len,
            text::views(out@) == text::views(l@).subrange(len - n, i as int),
        decreases len - i,
    {
        let ghost before = text::views(out@);
        let piece = text::own(l[i].as_str());
        let ghost view = piece@;
        out.push(piece);
        assert(text::views(out@) =~= before.push(view));
        assert(text::views(l@).subrange(len - n, i + 1) =~= before.push(view));
        i += 1;
    }
    let r = text::join(&out, ".");
    proof {
        reveal_strlit(".");
        assert("."@ =~= seq!['.']);
    }
    r
}

/// Reduces a host to its registrable domain.
pub fn registrable_domain(host: &str) -> (r: String)
    ensures
        r@ == registrable(host@),
{
    let l = host_labels(host);
    assert(text::views(l@).len() == l@.len());
    let n: usize = l.len();
    if n <= 2 {
        let r = tail_labels(&l, n);
        assert(text::views(l@).subrange(0, n as int) =~= text::views(l@));
        return r;
    }
    let last_two = tail_labels(&l, 2);
    if multi_suffix(last_two.as_str()) {
        tail_labels(&l, 3)
    } else {
        last_two
    }
}

// ---- RDAP ----

/// The expiry that an event states, if it is an expiration with a readable date.
pub open spec fn event_expiry(event: Json) -> Option<int> {
    if event.member_text("eventAction"@) == Some("expiration"@) {
        match event.member_text("eventDate"@) {
            Some(d) => clock::parsed_rfc3339(d),
            None => None,
        }
    } else {
        None
    }
}

/// The first expiry that the events state.
pub open spec fn first_expiry(events: Seq<Json>) -> Option<int>
    decreases events.len(),
{
    if events.len() == 0 {
        None
    } else if event_expiry(events[0]) is Some {
        event_expiry(events[0])
    } else {
        first_expiry(events.subrange(1, events.len() as int))
    }
}

/// One of the roles is the registrar's.
pub open spec fn has_registrar_role(roles: Seq<Json>) -> bool {
    exists|k: int|
        0 <= k < roles.len() && (#[trigger] roles[k]).text_view() == Some("registrar"@)
}

/// The full name that a contact property states, if it is one.
pub open spec fn full_name(prop: Json) -> Option<Seq<char>> {
    match prop.items() {
        Some(entry) => if entry.len() > 0 && entry[0].text_view() == Some("fn"@) {
            entry.last().text_view()
        } else {
            None
        },
        None => None,
    }
}

/// The first full name among contact properties.
pub open spec fn first_full_name(props: Seq<Json>) -> Option<Seq<char>>
    decreases props.len(),
{
    if props.len() == 0 {
        None
    } else if full_name(props[0]) is Some {
        full_name(props[0])
    } else {
        first_full_name(props.subrange(1, props.len() as int))
    }
}

/// The registrar's name that an entity states, if it is the registrar.
pub open spec fn entity_registrar(entity: Json) -> Option<Seq<char>> {
    match entity.member_items("roles"@) {
        Some(roles) => if has_registrar_role(roles) {
            match entity.member_items("vcardArray"@) {
                Some(card) => if card.len() > 1 {
                    match card[1].items() {
                        Some(props) => first_full_name(props),
                        None => None,
                    }
                } else {
                    None
                },
                None => None,
            }
        } else {
            None
        },
        None => None,
    }
}

/// The first registrar's name that the entities state.
pub open spec fn first_registrar(entities: Seq<Json>) -> Option<Seq<char>>
    decreases entities.len(),
{
    if entities.len() == 0 {
        None
    } else if entity_registrar(entities[0]) is Some {
        entity_registrar(entities[0])
    } else {
        first_registrar(entities.subrange(1, entities.len() as int))
    }
}

/// The texts that some values give, without those that give none.
pub open spec fn texts(values: Seq<Option<Seq<char>>>) -> Seq<Seq<char>>
    decreases values.len(),
{
    if values.len() == 0 {
        Seq::empty()
    } else {
        let rest = texts(values.drop_last());
        match values.last() {
            Some(t) => rest.push(t),
            None => rest,
        }
    }
}

/// The host names of an RDAP answer.
pub open spec fn rdap_name_servers(json: Json) -> Seq<Seq<char>> {
    match json.member_items("nameservers"@) {
        Some(a) => texts(a.map_values(|ns: Json| ns.member_text("ldhName"@))),
        None => Seq::empty(),
    }
}

/// The status codes of an RDAP answer.
pub open spec fn rdap_status(json: Json) -> Seq<Seq<char>> {
    match json.member_items("status"@) {
        Some(a) => texts(a.map_values(|s: Json| s.text_view())),
        None => Seq::empty(),
    }
}

/// `r` is what an RDAP answer with events says.
pub open spec fn reads_rdap(json: Json, r: DomainResult) -> bool {
    &&& json.member_items("events"@) is Some
    &&& text::view_opt(r.registrar) == match json.member_items("entities"@) {
        Some(e) => first_registrar(e),
        None => None,
    }
    &&& opt_int(r.expiry_date) == first_expiry(json.member_items("events"@)->0)
    &&& text::views(r.name_servers@) == rdap_name_servers(json)
    &&& text::views(r.status_codes@) == rdap_status(json)
    &&& r.queryable == (r.expiry_date is Some)
    &&& text::view_opt(r.source) == Some("rdap"@)
    &&& !r.transient
}

/// An optional number as an optional integer.
pub open spec fn opt_int(o: Option<i64>) -> Option<int> {
    match o {
        Some(n) => Some(n as int),
        None => None,
    }
}

fn find_expiry(events: &Vec<Json>) -> (r: Option<i64>)
    ensures
        opt_int(r) == first_expiry(events@),
{
    let mut i: usize = 0;
    assert(events@.subrange(0, events@.len() as int) =~= events@);
    while i < events.len()
        invariant
            i <= events@.len(),
            first_expiry(events@) == first_expiry(
                events@.subrange(i as int, events@.len() as int),
            ),
        decreases events@.len() - i,
    {
        let ghost rest = events@.subrange(i as int, events@.len() as int);
        assert(rest.subrange(1, rest.len() as int) =~= events@.subrange(
            i + 1,
            events@.len() as int,
        ));
        let event = &events[i];
        let expires = match event.get_str("eventAction") {
            Some(action) => text::same(action.as_str(), "expiration"),
            None => false,
        };
        if expires {
            if let Some(date) = event.get_str("eventDate") {
                let found = clock::parse_rfc3339(date.as_str());
                if found.is_some() {
                    return found;
                }
            }
        }
        i += 1;
    }
    None
}

fn registrar_role(roles: &Vec<Json>) -> (r: bool)
    ensures
        r == has_registrar_role(roles@),
{
    let mut i: usize = 0;
    while i < roles.len()
        invariant
            i <= roles@.len(),
            forall|k: int|
                0 <= k < i ==> (#[trigger] roles@[k]).text_view() != Some("registrar"@),
        decreases roles@.len() - i,
    {
        let hit = match roles[i].as_str() {
            Some(s) => text::same(s.as_str(), "registrar"),
            None => false,
        };
        if hit {
            assert(roles@[i as int].text_view() == Some("registrar"@));
            return true;
        }
        i += 1;
    }
    false
}

fn find_full_name(props: &Vec<Json>) -> (r: Option<String>)
    ensures
        text::view_opt(r) == first_full_name(props@),
{
    let mut i: usize = 0;
    assert(props@.subrange(0, props@.len() as int) =~= props@);
    while i < props.len()
        invariant
            i <= props@.len(),
            first_full_name(props@) == first_full_name(
                props@.subrange(i as int, props@.len() as int),
            ),
        decreases props@.len() - i,
    {
        let ghost rest = props@.subrange(i as int, props@.len() as int);
        assert(rest.subrange(1, rest.len() as int) =~= props@.subrange(i + 1, props@.len() as int));
        if let Some(entry) = props[i].as_array() {
            let n: usize = entry.len();
            if n > 0 {
                let named = match entry[0].as_str() {
                    Some(s) => text::same(s.as_str(), "fn"),
                    None => false,
                };
                if named {
                    if let Some(s) = entry[n - 1].as_str() {
                        return Some(text::own(s.as_str()));
                    }
                }
            }
        }
        i += 1;
    }
    None
}

fn registrar_of(entity: &Json) -> (r: Option<String>)
    ensures
        text::view_opt(r) == entity_registrar(*entity),
{
    match entity.get_array("roles") {
        Some(roles) => {
            if !registrar_role(roles) {
                return None;
            }
        },
        None => {
            return None;
        },
    }
    match entity.get_array("vcardArray") {
        Some(card) => {
            if card.len() > 1 {
                match card[1].as_array() {
                    Some(props) => find_full_name(props),
                    None => None,
                }
            } else {
                None
            }
        },
        None => None,
    }
}

fn find_registrar(entities: &Vec<Json>) -> (r: Option<String>)
    ensures
        text::view_opt(r) == first_registrar(entities@),
{
    let mut i: usize = 0;
    assert(entities@.subrange(0, entities@.len() as int) =~= entities@);
    while i < entities.len()
        invariant
            i <= entities@.len(),
            first_registrar(entities@) == first_registrar(
                entities@.subrange(i as int, entities@.len() as int),
            ),
        decreases entities@.len() - i,
    {
        let ghost rest = entities@.subrange(i as int, entities@.len() as int);
        assert(rest.subrange(1, rest.len() as int) =~= entities@.subrange(
            i + 1,
            entities@.len() as int,
        ));
        let found = registrar_of(&entities[i]);
        if found.is_some() {
            return found;
        }
        i += 1;
    }
    None
}

fn add_text(out: &mut Vec<String>, t: Option<&String>, Ghost(values): Ghost<Seq<Option<Seq<char>>>>)
    requires
        text::views(old(out)@) == texts(values),
    ensures
        text::views(final(out)@) == texts(
            values.push(
                match t {
                    Some(s) => Some(s@),
                    None => None,
                },
            ),
        ),
{
    let ghost v = match t {
        Some(s) => Some(s@),
        None => None::<Seq<char>>,
    };
    assert(values.push(v).drop_last() =~= values);
    if let Some(s) = t {
        let ghost before = text::views(out@);
        let piece = text::own(s.as_str());
        let ghost view = piece@;
        out.push(piece);
        assert(text::views(out@) =~= before.push(view));
    }
}

fn name_servers_of(json: &Json) -> (r: Vec<String>)
    ensures
        text::views(r@) == rdap_name_servers(*json),
{
    let mut out: Vec<String> = Vec::new();
    assert(text::views(out@) =~= Seq::<Seq<char>>::empty());
    if let Some(a) = json.get_array("nameservers") {
        let ghost values = a@.map_values(|ns: Json| ns.member_text("ldhName"@));
        let mut i: usize = 0;
        assert(values.take(0) =~= Seq::<Option<Seq<char>>>::empty());
        while i < a.len()
            invariant
                i <= a@.len(),
                values == a@.map_values(|ns: Json| ns.member_text("ldhName"@)),
                text::views(out@) == texts(values.take(i as int)),
            decreases a@.len() - i,
        {
            let t = a[i].get_str("ldhName");
            assert(values.take(i + 1) =~= values.take(i as int).push(values[i as int]));
            add_text(&mut out, t, Ghost(values.take(i as int)));
            i += 1;
        }
        assert(values.take(a@.len() as int) =~= values);
    }
    out
}

fn status_of(json: &Json) -> (r: Vec<String>)
    ensures
        text::views(r@) == rdap_status(*json),
{
    let mut out: Vec<String> = Vec::new();
    assert(text::views(out@) =~= Seq::<Seq<char>>::empty());
    if let Some(a) = json.get_array("status") {
        let ghost values = a@.map_values(|s: Json| s.text_view());
        let mut i: usize = 0;
        assert(values.take(0) =~= Seq::<Option<Seq<char>>>::empty());
        while i < a.len()
            invariant
                i <= a@.len(),
                values == a@.map_values(|s: Json| s.text_view()),
                text::views(out@) == texts(values.take(i as int)),
            decreases a@.len() - i,
        {
            let t = a[i].as_str();
            assert(values.take(i + 1) =~= values.take(i as int).push(values[i as int]));
            add_text(&mut out, t, Ghost(values.take(i as int)));
            i += 1;
        }
        assert(values.take(a@.len() as int) =~= values);
    }
    out
}

/// Reads an RDAP domain object. A document without an array of events has nothing to say.
pub fn parse_rdap(json: &Json) -> (r: Option<DomainResult>)
    ensures
        r is Some <==> json.member_items("events"@) is Some,
        r matches Some(d) ==> reads_rdap(*json, d) && d.wf(),
{
    let events = match json.get_array("events") {
        Some(e) => e,
        None => {
            return None;
        },
    };
    let expiry_date = find_expiry(events);
    let registrar = match json.get_array("entities") {
        Some(e) => find_registrar(e),
        None => None,
    };
    let name_servers = name_servers_of(json);
    let status_codes = status_of(json);
    let queryable = expiry_date.is_some();
    Some(
        DomainResult {
            registrar,
            expiry_date,
            name_servers,
            status_codes,
            queryable,
            source: Some(text::own("rdap")),
            transient: false,
        },
    )
}

// ---- WHOIS ----

/// `a`, or `b` where there is no `a`.
pub open spec fn or_else<T>(a: Option<T>, b: Option<T>) -> Option<T> {
    if a is Some {
        a
    } else {
        b
    }
}

/// The server that a line of the root registry refers to, if it refers to one.
pub open spec fn line_referral(line: Seq<char>) -> Option<Seq<char>> {
    let lower = text::lower(line);
    match or_else(text::after(lower, "refer:"@), text::after(lower, "whois:"@)) {
        Some(rest) => if text::trimmed(rest).len() > 0 {
            Some(text::trimmed(rest))
        } else {
            None
        },
        None => None,
    }
}

/// The first server that the lines refer to.
pub open spec fn first_referral(lines: Seq<Seq<char>>) -> Option<Seq<char>>
    decreases lines.len(),
{
    if lines.len() == 0 {
        None
    } else {
        or_else(line_referral(lines[0]), first_referral(lines.subrange(1, lines.len() as int)))
    }
}

/// Finds the WHOIS server that the root registry refers to, in lower case.
pub fn find_referral(answer: &str) -> (r: Option<String>)
    ensures
        text::view_opt(r) == first_referral(text::lines(answer@)),
{
    let lines = text::split_lines(answer);
    let ghost all = text::lines(answer@);
    let mut i: usize = 0;
    assert(all.subrange(0, all.len() as int) =~= all);
    while i < lines.len()
        invariant
            i <= lines@.len(),
            text::views(lines@) == all,
            all == text::lines(answer@),
            first_referral(all) == first_referral(all.subrange(i as int, all.len() as int)),
        decreases lines@.len() - i,
    {
        let ghost rest = all.subrange(i as int, all.len() as int);
        assert(rest[0] == lines@[i as int]@);
        assert(rest.subrange(1, rest.len() as int) =~= all.subrange(i + 1, all.len() as int));
        let lower = text::to_lower(lines[i].as_str());
        let found = match text::strip_prefix(lower.as_str(), "refer:") {
            Some(rest) => Some(rest),
            None => text::strip_prefix(lower.as_str(), "whois:"),
        };
        if let Some(rest) = found {
            let server = text::trim(rest.as_str());
            if !server.as_str().is_empty() {
                return Some(server);
            }
        }
        i += 1;
    }
    None
}

/// A token read in one format: as a date with a time, else as a date.
pub open spec fn in_format(token: Seq<char>, fmt: Seq<char>) -> Option<int> {
    or_else(clock::parsed_datetime(token, fmt), clock::parsed_date(token, fmt))
}

/// The date that a text opens with, in any of the formats that registries use.
pub open spec fn whois_date(raw: Seq<char>) -> Option<int> {
    let w = text::words(raw);
    if w.len() == 0 {
        None
    } else {
        let t = w[0];
        or_else(
            clock::parsed_rfc3339(t),
            or_else(
                in_format(t, "%Y-%m-%dT%H:%M:%SZ"@),
                or_else(
                    in_format(t, "%Y-%m-%d"@),
                    or_else(
                        in_format(t, "%d-%b-%Y"@),
                        or_else(in_format(t, "%Y.%m.%d"@), in_format(t, "%Y/%m/%d"@)),
                    ),
                ),
            ),
        )
    }
}

fn read_format(token: &str, fmt: &str) -> (r: Option<i64>)
    ensures
        opt_int(r) == in_format(token@, fmt@),
{
    let t = clock::parse_datetime(token, fmt);
    if t.is_some() {
        return t;
    }
    clock::parse_date(token, fmt)
}

/// Reads the date that a text opens with.
pub fn parse_whois_date(raw: &str) -> (r: Option<i64>)
    ensures
        opt_int(r) == whois_date(raw@),
{
    let words = text::split_words(raw);
    assert(text::views(words@).len() == words@.len());
    if words.len() == 0 {
        return None;
    }
    assert(text::views(words@)[0] == words@[0]@);
    let token = words[0].as_str();
    let t = clock::parse_rfc3339(token);
    if t.is_some() {
        return t;
    }
    let t = read_format(token, "%Y-%m-%dT%H:%M:%SZ");
    if t.is_some() {
        return t;
    }
    let t = read_format(token, "%Y-%m-%d");
    if t.is_some() {
        return t;
    }
    let t = read_format(token, "%d-%b-%Y");
    if t.is_some() {
        return t;
    }
    let t = read_format(token, "%Y.%m.%d");
    if t.is_some() {
        return t;
    }
    read_format(token, "%Y/%m/%d")
}

/// The expiry that a line states under a label, if it does.
pub open spec fn line_expiry(line: Seq<char>, label: Seq<char>) -> Option<int> {
    match text::after(text::lower(line), label) {
        Some(rest) => whois_date(rest),
        None => None,
    }
}

/// The first expiry that the lines state under a label.
pub open spec fn expiry_under(lines: Seq<Seq<char>>, label: Seq<char>) -> Option<int>
    decreases lines.len(),
{
    if lines.len() == 0 {
        None
    } else {
        or_else(
            line_expiry(lines[0], label),
            expiry_under(lines.subrange(1, lines.len() as int), label),
        )
    }
}

/// The expiry that the lines state, under the first label that has one.
pub open spec fn whois_expiry(lines: Seq<Seq<char>>) -> Option<int> {
    or_else(
        expiry_under(lines, "registry expiry date:"@),
        or_else(
            expiry_under(lines, "registrar registration expiration date:"@),
            or_else(
                expiry_under(lines, "expiry date:"@),
                or_else(
                    expiry_under(lines, "expiration date:"@),
                    expiry_under(lines, "paid-till:"@),
                ),
            ),
        ),
    )
}

/// What a line says after its first colon, if it has one.
pub open spec fn value_of(line: Seq<char>) -> Option<Seq<char>> {
    match text::cut(line, ':') {
        Some((_, v)) => Some(v),
        None => None,
    }
}

/// The registrar that a line names, if it does.
pub open spec fn line_registrar(line: Seq<char>) -> Option<Seq<char>> {
    if text::starts(text::lower(line), "registrar:"@) {
        match value_of(line) {
            Some(v) => if text::trimmed(v).len() > 0 {
                Some(text::trimmed(v))
            } else {
                None
            },
            None => None,
        }
    } else {
        None
    }
}

/// The first registrar that the lines name.
pub open spec fn whois_registrar(lines: Seq<Seq<char>>) -> Option<Seq<char>>
    decreases lines.len(),
{
    if lines.len() == 0 {
        None
    } else {
        or_else(line_registrar(lines[0]), whois_registrar(lines.subrange(1, lines.len() as int)))
    }
}

/// The name server that a line names, if it does, in lower case.
pub open spec fn line_name_server(line: Seq<char>) -> Option<Seq<char>> {
    let lower = text::lower(line);
    if text::starts(lower, "name server:"@) || text::starts(lower, "nserver:"@) {
        match value_of(line) {
            Some(v) => if text::trimmed(v).len() > 0 {
                Some(text::lower(text::trimmed(v)))
            } else {
                None
            },
            None => None,
        }
    } else {
        None
    }
}

/// The status code that a line states, if it does.
pub open spec fn line_status(line: Seq<char>) -> Option<Seq<char>> {
    let lower = text::lower(line);
    if text::starts(lower, "domain status:"@) || text::starts(lower, "status:"@) {
        match value_of(line) {
            Some(v) => if text::words(v).len() > 0 {
                Some(text::words(v)[0])
            } else {
                None
            },
            None => None,
        }
    } else {
        None
    }
}

/// `r` is what a WHOIS answer says.
pub open spec fn reads_whois(answer: Seq<char>, r: DomainResult) -> bool {
    let lines = text::lines(answer);
    &&& text::view_opt(r.registrar) == whois_registrar(lines)
    &&& opt_int(r.expiry_date) == whois_expiry(lines)
    &&& text::views(r.name_servers@) == texts(lines.map_values(|l: Seq<char>| line_name_server(l)))
    &&& text::views(r.status_codes@) == texts(lines.map_values(|l: Seq<char>| line_status(l)))
    &&& r.queryable == (r.expiry_date is Some)
    &&& text::view_opt(r.source) == Some("whois"@)
    &&& !r.transient
}

fn find_expiry_under(lines: &Vec<String>, label: &str) -> (r: Option<i64>)
    ensures
        opt_int(r) == expiry_under(text::views(lines@), label@),
{
    let ghost all = text::views(lines@);
    let mut i: usize = 0;
    assert(all.subrange(0, all.len() as int) =~= all);
    while i < lines.len()
        invariant
            i <= lines@.len(),
            text::views(lines@) == all,
            expiry_under(all, label@) == expiry_under(
                all.subrange(i as int, all.len() as int),
                label@,
            ),
        decreases lines@.len() - i,
    {
        let ghost rest = all.subrange(i as int, all.len() as int);
        assert(rest[0] == lines@[i as int]@);
        assert(rest.subrange(1, rest.len() as int) =~= all.subrange(i + 1, all.len() as int));
        let lower = text::to_lower(lines[i].as_str());
        if let Some(value) = text::strip_prefix(lower.as_str(), label) {
            let t = parse_whois_date(value.as_str());
            if t.is_some() {
                return t;
            }
        }
        i += 1;
    }
    None
}

fn find_whois_expiry(lines: &Vec<String>) -> (r: Option<i64>)
    ensures
        opt_int(r) == whois_expiry(text::views(lines@)),
{
    let t = find_expiry_under(lines, "registry expiry date:");
    if t.is_some() {
        return t;
    }
    let t = find_expiry_under(lines, "registrar registration expiration date:");
    if t.is_some() {
        return t;
    }
    let t = find_expiry_under(lines, "expiry date:");
    if t.is_some() {
        return t;
    }
    let t = find_expiry_under(lines, "expiration date:");
    if t.is_some() {
        return t;
    }
    find_expiry_under(lines, "paid-till:")
}

fn value_after_colon(line: &str) -> (r: Option<String>)
    ensures
        text::view_opt(r) == value_of(line@),
{
    match text::split_once(line, ':') {
        Some((_, v)) => Some(v),
        None => None,
    }
}

fn find_whois_registrar(lines: &Vec<String>) -> (r: Option<String>)
    ensures
        text::view_opt(r) == whois_registrar(text::views(lines@)),
{
    let ghost all = text::views(lines@);
    let mut i: usize = 0;
    assert(all.subrange(0, all.len() as int) =~= all);
    while i < lines.len()
        invariant
            i <= lines@.len(),
            text::views(lines@) == all,
            whois_registrar(all) == whois_registrar(all.subrange(i as int, all.len() as int)),
        decreases lines@.len() - i,
    {
        let ghost rest = all.subrange(i as int, all.len() as int);
        assert(rest[0] == lines@[i as int]@);
        assert(rest.subrange(1, rest.len() as int) =~= all.subrange(i + 1, all.len() as int));
        let line = lines[i].as_str();
        let lower = text::to_lower(line);
        if text::starts_with(lower.as_str(), "registrar:") {
            if let Some(v) = value_after_colon(line) {
                let name = text::trim(v.as_str());
                if !name.as_str().is_empty() {
                    return Some(name);
                }
            }
        }
        i += 1;
    }
    None
}

fn name_server_of(line: &str) -> (r: Option<String>)
    ensures
        text::view_opt(r) == line_name_server(line@),
{
    let lower = text::to_lower(line);
    if text::starts_with(lower.as_str(), "name server:") || text::starts_with(
        lower.as_str(),
        "nserver:",
    ) {
        match value_after_colon(line) {
            Some(v) => {
                let name = text::trim(v.as_str());
                if name.as_str().is_empty() {
                    None
                } else {
                    Some(text::to_lower(name.as_str()))
                }
            },
            None => None,
        }
    } else {
        None
    }
}

fn status_code_of(line: &str) -> (r: Option<String>)
    ensures
        text::view_opt(r) == line_status(line@),
{
    let lower = text::to_lower(line);
    if text::starts_with(lower.as_str(), "domain status:") || text::starts_with(
        lower.as_str(),
        "status:",
    ) {
        match value_after_colon(line) {
            Some(v) => {
                let words = text::split_words(v.as_str());
                assert(text::views(words@).len() == words@.len());
                if words.len() > 0 {
                    assert(text::views(words@)[0] == words@[0]@);
                    Some(text::own(words[0].as_str()))
                } else {
                    None
                }
            },
            None => None,
        }
    } else {
        None
    }
}

fn as_ref_text(o: &Option<String>) -> (r: Option<&String>)
    ensures
        r is Some <==> o is Some,
        r matches Some(s) ==> text::view_opt(*o) == Some(s@),
{
    match o {
        Some(s) => Some(s),
        None => None,
    }
}

/// Reads a WHOIS answer. The server answered, so whatever it says is definitive.
pub fn parse_whois(answer: &str) -> (r: DomainResult)
    ensures
        reads_whois(answer@, r),
        r.wf(),
{
    let lines = text::split_lines(answer);
    let ghost all = text::lines(answer@);
    let expiry_date = find_whois_expiry(&lines);
    let registrar = find_whois_registrar(&lines);
    let mut name_servers: Vec<String> = Vec::new();
    let mut status_codes: Vec<String> = Vec::new();
    let ghost ns = all.map_values(|l: Seq<char>| line_name_server(l));
    let ghost st = all.map_values(|l: Seq<char>| line_status(l));
    let mut i: usize = 0;
    proof {
        assert(ns.take(0) =~= Seq::<Option<Seq<char>>>::empty());
        assert(st.take(0) =~= Seq::<Option<Seq<char>>>::empty());
        assert(text::views(name_servers@) =~= Seq::<Seq<char>>::empty());
        assert(text::views(status_codes@) =~= Seq::<Seq<char>>::empty());
    }
    while i < lines.len()
        invariant
            i <= lines@.len(),
            text::views(lines@) == all,
            ns == all.map_values(|l: Seq<char>| line_name_server(l)),
            st == all.map_values(|l: Seq<char>| line_status(l)),
            text::views(name_servers@) == texts(ns.take(i as int)),
            text::views(status_codes@) == texts(st.take(i as int)),
        decreases lines@.len() - i,
    {
        let line = lines[i].as_str();
        let server = name_server_of(line);
        let status = status_code_of(line);
        proof {
            assert(all[i as int] == line@);
            assert(ns.take(i + 1) =~= ns.take(i as int).push(ns[i as int]));
            assert(st.take(i + 1) =~= st.take(i as int).push(st[i as int]));
        }
        add_text(&mut name_servers, as_ref_text(&server), Ghost(ns.take(i as int)));
        add_text(&mut status_codes, as_ref_text(&status), Ghost(st.take(i as int)));
        i += 1;
    }
    proof {
        assert(ns.take(lines@.len() as int) =~= ns);
        assert(st.take(lines@.len() as int) =~= st);
    }
    let queryable = expiry_date.is_some();
    DomainResult {
        registrar,
        expiry_date,
        name_servers,
        status_codes,
        queryable,
        source: Some(text::own("whois")),
        transient: false,
    }
}

// ---- the check ----

/// Where the registration data of a domain is asked for.
pub fn rdap_url(domain: &str) -> (r: String)
    ensures
        r@ == "https://rdap.org/domain/"@ + domain@,
{
    let mut s = text::own("https://rdap.org/domain/");
    s.append(domain);
    s
}

/// What the registration service replied.
#[derive(Debug)]
pub enum RdapReply {
    /// No reply: a refused connection, a name that does not resolve, a timeout.
    Failed,
    /// A reply without success.
    Status(u16),
    /// A success, with the body where it is JSON.
    Body(Option<Json>),
}

/// What to do next.
#[derive(Debug)]
pub enum Step {
    Done(DomainResult),
    /// Ask the registry behind the root WHOIS server.
    AskWhois,
    /// Ask this WHOIS server.
    AskServer(String),
}

/// `s` follows from a registration service's reply.
pub open spec fn follows_rdap(reply: RdapReply, s: Step) -> bool {
    match reply {
        RdapReply::Failed => s matches Step::Done(r) && r.is_transient_failure(),
        RdapReply::Status(code) => if code == 404 {
            s is AskWhois
        } else if code == 429 || 500 <= code < 600 {
            s matches Step::Done(r) && r.is_transient_failure()
        } else {
            s matches Step::Done(r) && r.is_no_answer("rdap"@)
        },
        RdapReply::Body(body) => match body {
            Some(json) => if json.member_items("events"@) is Some && first_expiry(
                json.member_items("events"@)->0,
            ) is Some {
                s matches Step::Done(r) && reads_rdap(json, r)
            } else {
                s matches Step::Done(r) && r.is_no_answer("rdap"@)
            },
            None => s matches Step::Done(r) && r.is_no_answer("rdap"@),
        },
    }
}

/// Classifies a registration service's reply: an expiry is the answer; a domain it does not know
/// is asked of WHOIS; a rate limit or a server error is transient; anything else is a final answer
/// without an expiry.
pub fn after_rdap(reply: &RdapReply) -> (s: Step)
    ensures
        follows_rdap(*reply, s),
        s matches Step::Done(r) ==> r.wf(),
{
    match reply {
        RdapReply::Failed => Step::Done(DomainResult::transient()),
        RdapReply::Status(code) => {
            if *code == 404 {
                Step::AskWhois
            } else if *code == 429 || (500 <= *code && *code < 600) {
                Step::Done(DomainResult::transient())
            } else {
                Step::Done(DomainResult::not_queryable("rdap"))
            }
        },
        RdapReply::Body(body) => match body {
            Some(json) => match parse_rdap(json) {
                Some(result) => {
                    if result.expiry_date.is_some() {
                        Step::Done(result)
                    } else {
                        Step::Done(DomainResult::not_queryable("rdap"))
                    }
                },
                None => Step::Done(DomainResult::not_queryable("rdap")),
            },
            None => Step::Done(DomainResult::not_queryable("rdap")),
        },
    }
}

/// What a WHOIS server is sent about a domain: its name, on a line of its own.
pub fn whois_request(domain: &str) -> (r: String)
    ensures
        r@ == domain@ + "\r\n"@,
{
    let mut s = text::own(domain);
    s.append("\r\n");
    s
}

/// The answer of a WHOIS server as text. Servers write UTF-8 for the most part; what is none does not
/// stop the rest from being read.
pub fn whois_answer(bytes: &[u8]) -> (r: String)
    ensures
        r@ == text::lossy(bytes@),
        vstd::utf8::valid_utf8(bytes@) ==> r@ == vstd::utf8::decode_utf8(bytes@),
{
    text::decode_lossy(bytes)
}

/// `s` follows from what the root WHOIS server replied.
pub open spec fn follows_root(reply: Option<String>, s: Step) -> bool {
    match reply {
        None => s matches Step::Done(r) && r.is_transient_failure(),
        Some(answer) => match first_referral(text::lines(answer@)) {
            Some(server) => s matches Step::AskServer(to) && to@ == server,
            None => s matches Step::Done(r) && r.is_no_answer("whois"@),
        },
    }
}

/// `r` follows from what a registry's WHOIS server replied.
pub open spec fn follows_whois(reply: Option<String>, r: DomainResult) -> bool {
    match reply {
        None => r.is_transient_failure(),
        Some(answer) => reads_whois(answer@, r),
    }
}

/// Classifies what the root WHOIS server replied: no reply is transient, a referral is followed,
/// and an answer without one is final.
pub fn after_root_whois(reply: &Option<String>) -> (s: Step)
    ensures
        follows_root(*reply, s),
        s matches Step::Done(r) ==> r.wf(),
{
    match reply {
        None => Step::Done(DomainResult::transient()),
        Some(answer) => match find_referral(answer.as_str()) {
            Some(server) => Step::AskServer(server),
            None => Step::Done(DomainResult::not_queryable("whois")),
        },
    }
}

/// Classifies what a registry's WHOIS server replied: no reply is transient, an answer is final.
pub fn after_whois(reply: &Option<String>) -> (r: DomainResult)
    ensures
        follows_whois(*reply, r),
        r.wf(),
{
    match reply {
        None => DomainResult::transient(),
        Some(answer) => parse_whois(answer.as_str()),
    }
}

/// A transient failure and a definitive answer exclude each other: what is transient carries no
/// data that could overwrite what is known, and what carries an expiry is not transient.
pub proof fn law_transient_excludes_an_answer(r: DomainResult)
    requires
        r.wf(),
    ensures
        r.transient ==> r.expiry_date is None && r.registrar is None && !r.queryable,
        r.expiry_date is Some ==> r.queryable && !r.transient,
{
}

/// The registration service is believed where it answers: a domain that it does not know is asked of
/// WHOIS and of nobody else, a missing reply, a rate limit and a server error are tried again with
/// nothing kept, and every other status is a final answer of this service without an expiry.
pub proof fn law_registration_service_statuses(reply: RdapReply, s: Step)
    requires
        follows_rdap(reply, s),
    ensures
        s is AskWhois <==> reply == RdapReply::Status(404),
        !(s is AskServer),
        s matches Step::Done(r) ==> (r.transient <==> (reply is Failed || (reply matches
            RdapReply::Status(code) && (code == 429 || 500 <= code <= 599)))),
        s matches Step::Done(r) ==> (r.transient ==> r.registrar is None && r.expiry_date is None
            && r.name_servers@.len() == 0 && r.status_codes@.len() == 0 && r.source is None
            && !r.queryable),
        s matches Step::Done(r) ==> (!r.transient ==> r.source is Some && (r.source->0)@ == "rdap"@),
        s matches Step::Done(r) ==> (r.queryable <==> r.expiry_date is Some),
        s matches Step::Done(r) ==> (r.expiry_date is Some ==> reply is Body),
{
    if s is Done {
        let r = s->Done_0;
        if !r.transient {
            assert(text::view_opt(r.source) == Some("rdap"@));
        }
        if reply is Body && reply->Body_0 is Some {
            let json = reply->Body_0->0;
            if json.member_items("events"@) is Some && first_expiry(
                json.member_items("events"@)->0,
            ) is Some {
                assert(reads_rdap(json, r));
            }
        }
    }
}

/// The expiry is the date of the first expiration among the events: events of another action do
/// not count, and without an expiration there is no expiry.
pub proof fn law_expiration_is_the_expiry(events: Seq<Json>, k: int, date: Seq<char>)
    requires
        0 <= k <= events.len(),
        forall|j: int|
            0 <= j < k ==> (#[trigger] events[j]).member_text("eventAction"@) != Some(
                "expiration"@,
            ),
        k < events.len() ==> events[k].member_text("eventAction"@) == Some("expiration"@)
            && events[k].member_text("eventDate"@) == Some(date) && clock::parsed_rfc3339(
            date,
        ) is Some,
    ensures
        k == events.len() ==> first_expiry(events) is None,
        k < events.len() ==> first_expiry(events) == clock::parsed_rfc3339(date),
    decreases k,
{
    if k > 0 {
        let rest = events.subrange(1, events.len() as int);
        assert(events[0].member_text("eventAction"@) != Some("expiration"@));
        assert forall|j: int| 0 <= j < k - 1 implies (#[trigger] rest[j]).member_text(
            "eventAction"@,
        ) != Some("expiration"@) by {
            assert(rest[j] == events[j + 1]);
        }
        law_expiration_is_the_expiry(rest, k - 1, date);
    }
}

/// One of the properties of a card is a full name, and it is `name`.
pub open spec fn card_states(props: Seq<Json>, name: Seq<char>) -> bool {
    exists|i: int|
        0 <= i < props.len() && (#[trigger] props[i]).items() is Some
            && props[i].items()->0.len() > 0 && props[i].items()->0[0].text_view() == Some("fn"@)
            && props[i].items()->0.last().text_view() == Some(name)
}

/// The registrar is the full name on the card of the first entity in the role of one: entities
/// in other roles do not count, and without such an entity there is no registrar.
pub proof fn law_registrar_has_the_role(entities: Seq<Json>, k: int)
    requires
        0 <= k <= entities.len(),
        forall|j: int|
            0 <= j < k ==> ((#[trigger] entities[j]).member_items("roles"@) is None
                || forall|i: int|
                0 <= i < entities[j].member_items("roles"@)->0.len() ==> (
                #[trigger] entities[j].member_items("roles"@)->0[i]).text_view() != Some(
                    "registrar"@,
                )),
        k < entities.len() ==> entity_registrar(entities[k]) is Some,
    ensures
        k == entities.len() ==> first_registrar(entities) is None,
        k < entities.len() ==> first_registrar(entities) == entity_registrar(entities[k]),
        k < entities.len() ==> entities[k].member_items("roles"@) is Some && exists|i: int|
            0 <= i < entities[k].member_items("roles"@)->0.len() && (
            #[trigger] entities[k].member_items("roles"@)->0[i]).text_view() == Some("registrar"@),
        k < entities.len() ==> entities[k].member_items("vcardArray"@) is Some,
        k < entities.len() ==> card_states(
            entities[k].member_items("vcardArray"@)->0[1].items()->0,
            first_registrar(entities)->0,
        ),
    decreases k,
{
    if k > 0 {
        let rest = entities.subrange(1, entities.len() as int);
        assert(entity_registrar(entities[0]) is None);
        assert forall|j: int| 0 <= j < k - 1 implies ((#[trigger] rest[j]).member_items("roles"@)
            is None || forall|i: int|
            0 <= i < rest[j].member_items("roles"@)->0.len() ==> (#[trigger] rest[j].member_items(
                "roles"@,
            )->0[i]).text_view() != Some("registrar"@)) by {
            assert(rest[j] == entities[j + 1]);
        }
        if k < entities.len() {
            assert(rest[k - 1] == entities[k]);
        }
        law_registrar_has_the_role(rest, k - 1);
    } else if k < entities.len() {
        let card = entities[k].member_items("vcardArray"@)->0;
        lemma_first_full_name(card[1].items()->0);
    }
}

proof fn lemma_first_full_name(props: Seq<Json>)
    requires
        first_full_name(props) is Some,
    ensures
        card_states(props, first_full_name(props)->0),
    decreases props.len(),
{
    if full_name(props[0]) is None {
        let rest = props.subrange(1, props.len() as int);
        lemma_first_full_name(rest);
        let i = choose|i: int|
            0 <= i < rest.len() && (#[trigger] rest[i]).items() is Some
                && rest[i].items()->0.len() > 0 && rest[i].items()->0[0].text_view() == Some(
                "fn"@,
            ) && rest[i].items()->0.last().text_view() == first_full_name(rest);
        assert(props[i + 1] == rest[i]);
    } else {
        assert(props[0].items() is Some);
    }
}

/// A list is read item by item: what has no text is left out, and everything else keeps its order.
pub proof fn law_texts_are_kept_in_order(values: Seq<Option<Seq<char>>>, more: Option<Seq<char>>)
    ensures
        texts(Seq::empty()).len() == 0,
        more is Some ==> texts(values.push(more)) == texts(values).push(more->0),
        more is None ==> texts(values.push(more)) == texts(values),
{
    assert(values.push(more).drop_last() =~= values);
}

/// What a registration record says reaches the result: the expiry from its events, the
/// registrar from its entities, and as many name servers and status codes as it names.
pub proof fn law_record_is_read(json: Json, r: DomainResult)
    requires
        reads_rdap(json, r),
    ensures
        r.queryable <==> r.expiry_date is Some,
        !r.transient,
        r.source is Some && (r.source->0)@ == "rdap"@,
        first_expiry(json.member_items("events"@)->0) == (match r.expiry_date {
            Some(t) => Some(t as int),
            None => None,
        }),
        json.member_items("entities"@) is None ==> r.registrar is None,
        json.member_items("entities"@) is Some ==> (r.registrar is Some <==> first_registrar(
            json.member_items("entities"@)->0,
        ) is Some),
        json.member_items("entities"@) is Some && r.registrar is Some ==> Some((r.registrar->0)@)
            == first_registrar(json.member_items("entities"@)->0),
        json.member_items("nameservers"@) is None ==> r.name_servers@.len() == 0,
        json.member_items("nameservers"@) matches Some(a) ==> (forall|k: int|
            0 <= k < a.len() ==> (#[trigger] a[k]).member_text("ldhName"@) is Some)
            ==> r.name_servers@.len() == a.len() && forall|k: int|
            0 <= k < a.len() ==> Some((#[trigger] r.name_servers@[k])@) == a[k].member_text(
                "ldhName"@,
            ),
        json.member_items("status"@) is None ==> r.status_codes@.len() == 0,
        json.member_items("status"@) matches Some(a) ==> (forall|k: int|
            0 <= k < a.len() ==> (#[trigger] a[k]).text_view() is Some) ==> r.status_codes@.len()
            == a.len() && forall|k: int|
            0 <= k < a.len() ==> Some((#[trigger] r.status_codes@[k])@) == a[k].text_view(),
{
    assert(text::view_opt(r.source) == Some("rdap"@));
    assert(text::views(r.name_servers@).len() == r.name_servers@.len());
    assert(text::views(r.status_codes@).len() == r.status_codes@.len());
    if json.member_items("nameservers"@) is Some {
        let a = json.member_items("nameservers"@)->0;
        let v = a.map_values(|ns: Json| ns.member_text("ldhName"@));
        if forall|k: int| 0 <= k < a.len() ==> (#[trigger] a[k]).member_text("ldhName"@) is Some {
            assert forall|k: int| 0 <= k < v.len() implies (#[trigger] v[k]) is Some by {
                assert(a[k].member_text("ldhName"@) is Some);
            }
            lemma_all_texts(v);
            assert forall|k: int| 0 <= k < a.len() implies Some((#[trigger] r.name_servers@[k])@)
                == a[k].member_text("ldhName"@) by {
                assert(text::views(r.name_servers@)[k] == r.name_servers@[k]@);
                assert(v[k] is Some);
            }
        }
    }
    if json.member_items("status"@) is Some {
        let a = json.member_items("status"@)->0;
        let v = a.map_values(|s: Json| s.text_view());
        if forall|k: int| 0 <= k < a.len() ==> (#[trigger] a[k]).text_view() is Some {
            assert forall|k: int| 0 <= k < v.len() implies (#[trigger] v[k]) is Some by {
                assert(a[k].text_view() is Some);
            }
            lemma_all_texts(v);
            assert forall|k: int| 0 <= k < a.len() implies Some((#[trigger] r.status_codes@[k])@)
                == a[k].text_view() by {
                assert(text::views(r.status_codes@)[k] == r.status_codes@[k]@);
                assert(v[k] is Some);
            }
        }
    }
}

proof fn lemma_all_texts(values: Seq<Option<Seq<char>>>)
    requires
        forall|k: int| 0 <= k < values.len() ==> (#[trigger] values[k]) is Some,
    ensures
        texts(values).len() == values.len(),
        forall|k: int| 0 <= k < values.len() ==> Some(#[trigger] texts(values)[k]) == values[k],
    decreases values.len(),
{
    if values.len() > 0 {
        let rest = values.drop_last();
        assert forall|k: int| 0 <= k < rest.len() implies (#[trigger] rest[k]) is Some by {
            assert(rest[k] == values[k]);
        }
        lemma_all_texts(rest);
        assert(values[values.len() - 1] is Some);
        assert forall|k: int| 0 <= k < values.len() implies Some(#[trigger] texts(values)[k])
            == values[k] by {
            if k < rest.len() {
                assert(texts(values)[k] == texts(rest)[k]);
                assert(rest[k] == values[k]);
            }
        }
    }
}

/// The registrable domain is the host's last two labels, or its last three where the last two
/// are a public suffix, and a host of two labels or one is its own: the name is in lower case and
/// empty labels do not count.
pub proof fn law_registrable_domain(host: Seq<char>)
    ensures
        ({
            let l = labels(host);
            let n = l.len() as int;
            &&& n == 0 ==> registrable(host) == Seq::<char>::empty()
            &&& n == 1 ==> registrable(host) == l[0]
            &&& n == 2 ==> registrable(host) == l[0] + seq!['.'] + l[1]
            &&& n >= 3 && is_multi_suffix(l[n - 2] + seq!['.'] + l[n - 1]) ==> registrable(host)
                == l[n - 3] + seq!['.'] + l[n - 2] + seq!['.'] + l[n - 1]
            &&& n >= 3 && !is_multi_suffix(l[n - 2] + seq!['.'] + l[n - 1]) ==> registrable(host)
                == l[n - 2] + seq!['.'] + l[n - 1]
        }),
        (forall|k: int|
            0 <= k < text::split(text::lower(text::trimmed(host)), '.').len() ==> (
            #[trigger] text::split(text::lower(text::trimmed(host)), '.')[k]).len() > 0)
            ==> labels(host) == text::split(text::lower(text::trimmed(host)), '.'),
        forall|k: int| 0 <= k < labels(host).len() ==> (#[trigger] labels(host)[k]).len() > 0,
{
    let l = labels(host);
    let n = l.len() as int;
    reveal_with_fuel(text::joined, 3);
    if n >= 2 {
        assert(l.subrange(n - 2, n).drop_last() =~= seq![l[n - 2]]);
        assert(last_labels(l, 2) =~= l[n - 2] + seq!['.'] + l[n - 1]);
        if n == 2 {
            assert(l.subrange(0, 2) =~= l);
        }
    }
    if n >= 3 {
        let t = l.subrange(n - 3, n);
        assert(t.drop_last().drop_last() =~= seq![l[n - 3]]);
        assert(t.drop_last().last() == l[n - 2]);
        assert(last_labels(l, 3) =~= l[n - 3] + seq!['.'] + l[n - 2] + seq!['.'] + l[n - 1]);
    }
    lemma_nonempty(text::split(text::lower(text::trimmed(host)), '.'));
}

proof fn lemma_nonempty(parts: Seq<Seq<char>>)
    ensures
        forall|k: int| 0 <= k < nonempty(parts).len() ==> (#[trigger] nonempty(parts)[k]).len() > 0,
        (forall|k: int| 0 <= k < parts.len() ==> (#[trigger] parts[k]).len() > 0) ==> nonempty(
            parts,
        ) == parts,
    decreases parts.len(),
{
    if parts.len() > 0 {
        let rest = parts.drop_last();
        lemma_nonempty(rest);
        assert forall|k: int| 0 <= k < nonempty(parts).len() implies (
        #[trigger] nonempty(parts)[k]).len() > 0 by {
            if k < nonempty(rest).len() {
                assert(nonempty(parts)[k] == nonempty(rest)[k]);
            }
        }
        if forall|k: int| 0 <= k < parts.len() ==> (#[trigger] parts[k]).len() > 0 {
            assert forall|k: int| 0 <= k < rest.len() implies (#[trigger] rest[k]).len() > 0 by {
                assert(rest[k] == parts[k]);
            }
            assert(parts[parts.len() - 1].len() > 0);
            assert(rest.push(parts.last()) =~= parts);
        }
    }
}

/// The root registry's answer leads to the server after its first `refer:` or `whois:`, without
/// the white space around it; without one it is final, and no answer at all is tried again.
pub proof fn law_referral_is_followed(reply: Option<String>, s: Step, k: int)
    requires
        follows_root(reply, s),
        reply is Some ==> 0 <= k <= text::lines((reply->0)@).len(),
        reply matches Some(answer) ==> forall|j: int|
            0 <= j < k ==> !text::starts(text::lower(#[trigger] text::lines(answer@)[j]), "refer:"@)
                && !text::starts(text::lower(text::lines(answer@)[j]), "whois:"@),
        reply matches Some(answer) ==> (k < text::lines(answer@).len() ==> {
            let line = text::lower(text::lines(answer@)[k]);
            ||| text::starts(line, "refer:"@) && text::trimmed(line.skip(6)).len() > 0
            ||| text::starts(line, "whois:"@) && text::trimmed(line.skip(6)).len() > 0
        }),
    ensures
        reply is None ==> (s matches Step::Done(r) && r.transient && !r.queryable && r.source is None),
        reply matches Some(answer) ==> (k == text::lines(answer@).len() ==> (s matches Step::Done(
            r,
        ) && !r.transient && !r.queryable && r.source is Some && (r.source->0)@ == "whois"@)),
        reply matches Some(answer) ==> (k < text::lines(answer@).len() ==> (s matches
            Step::AskServer(to) && to@ == text::trimmed(
            text::lower(text::lines(answer@)[k]).skip(6),
        ))),
{
    reveal_strlit("refer:");
    reveal_strlit("whois:");
    if reply is Some {
        let lines = text::lines((reply->0)@);
        lemma_first_referral(lines, k);
        if k == lines.len() {
            assert(text::view_opt((s->Done_0).source) == Some("whois"@));
        }
    }
}

proof fn lemma_first_referral(lines: Seq<Seq<char>>, k: int)
    requires
        0 <= k <= lines.len(),
        forall|j: int|
            0 <= j < k ==> !text::starts(text::lower(#[trigger] lines[j]), "refer:"@)
                && !text::starts(text::lower(lines[j]), "whois:"@),
        k < lines.len() ==> {
            let line = text::lower(lines[k]);
            ||| text::starts(line, "refer:"@) && text::trimmed(line.skip(6)).len() > 0
            ||| text::starts(line, "whois:"@) && text::trimmed(line.skip(6)).len() > 0
        },
    ensures
        k == lines.len() ==> first_referral(lines) is None,
        k < lines.len() ==> first_referral(lines) == Some(
            text::trimmed(text::lower(lines[k]).skip(6)),
        ),
    decreases k,
{
    reveal_strlit("refer:");
    reveal_strlit("whois:");
    if k > 0 {
        let rest = lines.subrange(1, lines.len() as int);
        assert(!text::starts(text::lower(lines[0]), "refer:"@));
        assert forall|j: int| 0 <= j < k - 1 implies !text::starts(
            text::lower(#[trigger] rest[j]),
            "refer:"@,
        ) && !text::starts(text::lower(rest[j]), "whois:"@) by {
            assert(rest[j] == lines[j + 1]);
        }
        if k < lines.len() {
            assert(rest[k - 1] == lines[k]);
        }
        lemma_first_referral(rest, k - 1);
    } else if k < lines.len() {
        let line = text::lower(lines[0]);
        assert(line.skip(6) == line.subrange(6, line.len() as int));
    }
}

/// A WHOIS answer is final whatever it says: it is WHOIS that says it, it is never tried again, and it
/// tells an expiry exactly where one of its lines does. The line of the registry goes before that of
/// the registrar, and both before the lines that name nobody.
pub proof fn law_whois_expiry(answer: Seq<char>, r: DomainResult)
    requires
        reads_whois(answer, r),
    ensures
        !r.transient,
        r.source is Some && (r.source->0)@ == "whois"@,
        r.queryable <==> r.expiry_date is Some,
        ({
            let lines = text::lines(answer);
            let registry = expiry_under(lines, "registry expiry date:"@);
            let registrar = expiry_under(lines, "registrar registration expiration date:"@);
            let expiry = expiry_under(lines, "expiry date:"@);
            let expiration = expiry_under(lines, "expiration date:"@);
            let paid = expiry_under(lines, "paid-till:"@);
            &&& r.expiry_date is None <==> registry is None && registrar is None && expiry is None
                && expiration is None && paid is None
            &&& registry matches Some(t) ==> r.expiry_date is Some && r.expiry_date->0 == t
            &&& registry is None ==> (registrar matches Some(t) ==> r.expiry_date is Some
                && r.expiry_date->0 == t)
            &&& registry is None && registrar is None ==> (expiry matches Some(t)
                ==> r.expiry_date is Some && r.expiry_date->0 == t)
            &&& registry is None && registrar is None && expiry is None ==> (expiration matches Some(t)
                ==> r.expiry_date is Some && r.expiry_date->0 == t)
            &&& registry is None && registrar is None && expiry is None && expiration is None ==> (
            paid matches Some(t) ==> r.expiry_date is Some && r.expiry_date->0 == t)
        }),
{
    assert(text::view_opt(r.source) == Some("whois"@));
}

/// Under a label the first line counts that opens with it, in either case, and goes on with a date;
/// lines that open otherwise do not count.
pub proof fn law_labelled_line_is_read(lines: Seq<Seq<char>>, label: Seq<char>, k: int)
    requires
        0 <= k <= lines.len(),
        forall|j: int| 0 <= j < k ==> !text::starts(text::lower(#[trigger] lines[j]), label),
        k < lines.len() ==> text::starts(text::lower(lines[k]), label) && whois_date(
            text::lower(lines[k]).skip(label.len() as int),
        ) is Some,
    ensures
        k == lines.len() ==> expiry_under(lines, label) is None,
        k < lines.len() ==> expiry_under(lines, label) == whois_date(
            text::lower(lines[k]).skip(label.len() as int),
        ),
    decreases k,
{
    if k > 0 {
        let rest = lines.subrange(1, lines.len() as int);
        assert(!text::starts(text::lower(lines[0]), label));
        assert forall|j: int| 0 <= j < k - 1 implies !text::starts(
            text::lower(#[trigger] rest[j]),
            label,
        ) by {
            assert(rest[j] == lines[j + 1]);
        }
        if k < lines.len() {
            assert(rest[k - 1] == lines[k]);
        }
        law_labelled_line_is_read(rest, label, k - 1);
    } else if k < lines.len() {
        let line = text::lower(lines[0]);
        assert(line.skip(label.len() as int) =~= line.subrange(
            label.len() as int,
            line.len() as int,
        ));
    }
}

/// The registrar is what follows the first colon of the first line that opens with `registrar:`, in
/// either case, without the white space around it; without such a line nobody is named.
pub proof fn law_registrar_line_is_read(answer: Seq<char>, r: DomainResult, k: int)
    requires
        reads_whois(answer, r),
        0 <= k <= text::lines(answer).len(),
        forall|j: int|
            0 <= j < k ==> !text::starts(
                text::lower(#[trigger] text::lines(answer)[j]),
                "registrar:"@,
            ),
        k < text::lines(answer).len() ==> text::starts(
            text::lower(text::lines(answer)[k]),
            "registrar:"@,
        ) && value_of(text::lines(answer)[k]) is Some && text::trimmed(
            value_of(text::lines(answer)[k])->0,
        ).len() > 0,
    ensures
        k == text::lines(answer).len() ==> r.registrar is None,
        k < text::lines(answer).len() ==> r.registrar is Some && (r.registrar->0)@
            == text::trimmed(value_of(text::lines(answer)[k])->0),
{
    lemma_first_registrar_line(text::lines(answer), k);
}

proof fn lemma_first_registrar_line(lines: Seq<Seq<char>>, k: int)
    requires
        0 <= k <= lines.len(),
        forall|j: int| 0 <= j < k ==> !text::starts(text::lower(#[trigger] lines[j]), "registrar:"@),
        k < lines.len() ==> text::starts(text::lower(lines[k]), "registrar:"@) && value_of(
            lines[k],
        ) is Some && text::trimmed(value_of(lines[k])->0).len() > 0,
    ensures
        k == lines.len() ==> whois_registrar(lines) is None,
        k < lines.len() ==> whois_registrar(lines) == Some(text::trimmed(value_of(lines[k])->0)),
    decreases k,
{
    if k > 0 {
        let rest = lines.subrange(1, lines.len() as int);
        assert(!text::starts(text::lower(lines[0]), "registrar:"@));
        assert forall|j: int| 0 <= j < k - 1 implies !text::starts(
            text::lower(#[trigger] rest[j]),
            "registrar:"@,
        ) by {
            assert(rest[j] == lines[j + 1]);
        }
        if k < lines.len() {
            assert(rest[k - 1] == lines[k]);
        }
        lemma_first_registrar_line(rest, k - 1);
    }
}

/// A name server is named by a line that opens with `name server:` or `nserver:` and is told in
/// lower case; a status code is the first word of a line that opens with `domain status:` or
/// `status:`. The value of a line is what follows its first colon.
pub proof fn law_lines_name_servers_and_statuses(front: Seq<char>, value: Seq<char>)
    requires
        !front.contains(':'),
    ensures
        ({
            let line = front + seq![':'] + value;
            let lower = text::lower(line);
            let named = text::starts(lower, "name server:"@) || text::starts(lower, "nserver:"@);
            let stated = text::starts(lower, "domain status:"@) || text::starts(lower, "status:"@);
            &&& value_of(line) == Some(value)
            &&& line_name_server(line) is Some <==> named && text::trimmed(value).len() > 0
            &&& line_name_server(line) matches Some(s) ==> s == text::lower(text::trimmed(value))
            &&& line_status(line) is Some <==> stated && text::words(value).len() > 0
            &&& line_status(line) matches Some(s) ==> s == text::words(value)[0]
        }),
{
    let line = front + seq![':'] + value;
    assert(line[front.len() as int] == ':');
    assert forall|k: int| 0 <= k < front.len() implies line[k] != ':' by {
        assert(line[k] == front[k]);
    }
    text::lemma_first_of(line, ':', front.len() as int);
    assert(line.skip(front.len() as int + 1) =~= value);
}

/// A registry's WHOIS server that does not reply is tried again, with nothing kept; whatever it does
/// reply is final.
pub proof fn law_whois_replies_are_final(reply: Option<String>, r: DomainResult)
    requires
        follows_whois(reply, r),
    ensures
        r.transient <==> reply is None,
        reply is None ==> r.registrar is None && r.expiry_date is None && r.name_servers@.len() == 0
            && r.status_codes@.len() == 0 && !r.queryable && r.source is None,
        reply is Some ==> r.source is Some && (r.source->0)@ == "whois"@,
{
    if reply is Some {
        assert(text::view_opt(r.source) == Some("whois"@));
    }
}

} // verus!
