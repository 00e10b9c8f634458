//! JSON values and the stored JSON texts.

use vstd::prelude::*;

use crate::text;

verus! {

/// A JSON value. Numbers are told apart as far as the library reads them: integers that fit
/// an `i64`, larger ones that fit a `u64`, and all others by their text.
#[derive(Debug)]
pub enum Json {
    Null,
    Bool(bool),
    Int(i64),
    UInt(u64),
    Real(String),
    Str(String),
    Array(Vec<Json>),
    Object(Vec<(String, Json)>),
}

impl Json {
    /// The text of a string value.
    pub open spec fn text_view(self) -> Option<Seq<char>> {
        match self {
            Json::Str(s) => Some(s@),
            _ => None,
        }
    }

    /// The items of an array value.
    pub open spec fn items(self) -> Option<Seq<Json>> {
        match self {
            Json::Array(a) => Some(a@),
            _ => None,
        }
    }

    /// The value under a key of an object value.
    pub open spec fn member(self, key: Seq<char>) -> Option<Json> {
        match self {
            Json::Object(o) => lookup(o@, key),
            _ => None,
        }
    }

    /// The text under a key.
    pub open spec fn member_text(self, key: Seq<char>) -> Option<Seq<char>> {
        match self.member(key) {
            Some(v) => v.text_view(),
            None => None,
        }
    }

    /// The items under a key.
    pub open spec fn member_items(self, key: Seq<char>) -> Option<Seq<Json>> {
        match self.member(key) {
            Some(v) => v.items(),
            None => None,
        }
    }

    pub fn as_str(&self) -> (r: Option<&String>)
        ensures
            r is Some <==> self.text_view() is Some,
            r matches Some(s) ==> self.text_view() == Some(s@),
    {
        match self {
            Json::Str(s) => Some(s),
            _ => None,
        }
    }

    pub fn as_array(&self) -> (r: Option<&Vec<Json>>)
        ensures
            r is Some <==> self.items() is Some,
            r matches Some(a) ==> self.items() == Some(a@),
    {
        match self {
            Json::Array(a) => Some(a),
            _ => None,
        }
    }

    pub fn get(&self, key: &str) -> (r: Option<&Json>)
        ensures
            r is Some <==> self.member(key@) is Some,
            r matches Some(v) ==> self.member(key@) == Some(*v),
    {
        match self {
            Json::Object(o) => {
                let mut i: usize = 0;
                assert(o@.subrange(0, o@.len() as int) =~= o@);
                while i < o.len()
                    invariant
                        i <= o@.len(),
                        self.member(key@) == lookup(o@, key@),
                        lookup(o@, key@) == lookup(o@.subrange(i as int, o@.len() as int), key@),
                    decreases o@.len() - i,
                {
                    let ghost rest = o@.subrange(i as int, o@.len() as int);
                    assert(rest.subrange(1, rest.len() as int) =~= o@.subrange(
                        i + 1,
                        o@.len() as int,
                    ));
                    if text::same(o[i].0.as_str(), key) {
                        return Some(&o[i].1);
                    }
                    i += 1;
                }
                None
            },
            _ => None,
        }
    }

    /// The string under a key.
    pub fn get_str(&self, key: &str) -> (r: Option<&String>)
        ensures
            r is Some <==> self.member_text(key@) is Some,
            r matches Some(s) ==> self.member_text(key@) == Some(s@),
    {
        match self.get(key) {
            Some(v) => v.as_str(),
            None => None,
        }
    }

    /// The array under a key.
    pub fn get_array(&self, key: &str) -> (r: Option<&Vec<Json>>)
        ensures
            r is Some <==> self.member_items(key@) is Some,
            r matches Some(a) ==> self.member_items(key@) == Some(a@),
    {
        match self.get(key) {
            Some(v) => v.as_array(),
            None => None,
        }
    }
}

/// The first value under a key.
pub open spec fn lookup(o: Seq<(String, Json)>, key: Seq<char>) -> Option<Json>
    decreases o.len(),
{
    if o.len() == 0 {
        None
    } else if o[0].0@ == key {
        Some(o[0].1)
    } else {
        lookup(o.subrange(1, o.len() as int), key)
    }
}

/// What `serde_json::from_str::<Vec<String>>` reads from a text, if it reads anything.
pub uninterp spec fn json_strings(raw: Seq<char>) -> Option<Seq<Seq<char>>>;

/// What `serde_json::from_str::<String>` reads from a text, if it reads anything.
pub uninterp spec fn json_string(raw: Seq<char>) -> Option<Seq<char>>;

/// What `serde_json::from_str::<Vec<i64>>` reads from a text, if it reads anything.
pub uninterp spec fn json_ints(raw: Seq<char>) -> Option<Seq<i64>>;

/// `serde_json::from_str` for an array of strings: the array that the text writes, or `None`
/// where the text is not JSON or not an array of strings.
#[verifier::external_body]
pub(crate) fn parse_strings(raw: &str) -> (r: Option<Vec<String>>)
    ensures
        r is Some <==> json_strings(raw@) is Some,
        r matches Some(v) ==> json_strings(raw@) == Some(text::views(v@)),
{
    serde_json::from_str::<Vec<String>>(raw).ok()
}

/// `serde_json::from_str` for a string: the string that the text writes, or `None` where the
/// text is not JSON or not a string.
#[verifier::external_body]
pub(crate) fn parse_string(raw: &str) -> (r: Option<String>)
    ensures
        text::view_opt(r) == json_string(raw@),
{
    serde_json::from_str::<String>(raw).ok()
}

/// `serde_json::from_str` for an array of 64-bit integers: the array that the text writes, or
/// `None` where the text is not JSON or not such an array.
#[verifier::external_body]
pub(crate) fn parse_ints(raw: &str) -> (r: Option<Vec<i64>>)
    ensures
        r is Some <==> json_ints(raw@) is Some,
        r matches Some(v) ==> json_ints(raw@) == Some(v@),
{
    serde_json::from_str::<Vec<i64>>(raw).ok()
}

/// The object that `serde_json::from_str` reads from a text as a map from strings to strings, if it
/// reads one.
pub uninterp spec fn json_map(raw: Seq<char>) -> Option<Map<Seq<char>, Seq<char>>>;

/// `v` lists the entries of a map, each once, in some order.
pub open spec fn lists(v: Seq<(String, String)>, map: Map<Seq<char>, Seq<char>>) -> bool {
    &&& forall|i: int|
        0 <= i < v.len() ==> map.dom().contains((#[trigger] v[i]).0@) && map[v[i].0@] == v[i].1@
    &&& forall|k: Seq<char>| #[trigger]
        map.dom().contains(k) ==> exists|i: int| 0 <= i < v.len() && (#[trigger] v[i]).0@ == k
    &&& forall|i: int, j: int|
        0 <= i < j < v.len() ==> (#[trigger] v[i]).0@ != (#[trigger] v[j]).0@
}

/// No entries list the empty map.
pub proof fn lemma_lists_nothing(v: Seq<(String, String)>)
    requires
        v.len() == 0,
    ensures
        lists(v, Map::empty()),
{
}

/// `serde_json::from_str` for an object of strings: the entries of the object that the text writes,
/// in the order in which a hash map hands them out, or `None` where the text is not JSON or not an
/// object of strings.
#[verifier::external_body]
pub(crate) fn parse_map(raw: &str) -> (r: Option<Vec<(String, String)>>)
    ensures
        r is Some <==> json_map(raw@) is Some,
        r matches Some(v) ==> lists(v@, json_map(raw@)->0),
{
    let map = serde_json::from_str::<std::collections::HashMap<String, String>>(raw).ok()?;
    Some(map.into_iter().collect())
}

// ---- writing ----

/// A hexadecimal digit.
pub open spec fn hex(d: int) -> char {
    if d < 10 {
        (48 + d) as char
    } else {
        (87 + d) as char
    }
}

/// A character as it stands inside a JSON string.
pub open spec fn escaped_char(c: char) -> Seq<char> {
    let u = c as int;
    if c == '"' {
        seq!['\\', '"']
    } else if c == '\\' {
        seq!['\\', '\\']
    } else if u == 8 {
        seq!['\\', 'b']
    } else if u == 9 {
        seq!['\\', 't']
    } else if u == 10 {
        seq!['\\', 'n']
    } else if u == 12 {
        seq!['\\', 'f']
    } else if u == 13 {
        seq!['\\', 'r']
    } else if u < 32 {
        seq!['\\', 'u', '0', '0', hex(u / 16), hex(u % 16)]
    } else {
        seq![c]
    }
}

/// A text as it stands inside a JSON string.
pub open spec fn escaped(s: Seq<char>) -> Seq<char>
    decreases s.len(),
{
    if s.len() == 0 {
        Seq::empty()
    } else {
        escaped(s.drop_last()) + escaped_char(s.last())
    }
}

/// A text as a JSON string.
pub open spec fn quoted(s: Seq<char>) -> Seq<char> {
    seq!['"'] + escaped(s) + seq!['"']
}

/// Texts as a JSON array.
pub open spec fn quoted_array(v: Seq<Seq<char>>) -> Seq<char> {
    seq!['['] + text::joined(v.map_values(|s: Seq<char>| quoted(s)), seq![',']) + seq![']']
}

/// Integers as a JSON array.
pub open spec fn int_array(v: Seq<i64>) -> Seq<char> {
    seq!['['] + text::joined(v.map_values(|n: i64| text::dec(n as int)), seq![',']) + seq![']']
}

/// `serde_json::to_string` for a string: the JSON string that writes it, which reads back as it.
#[verifier::external_body]
pub(crate) fn quote(s: &str) -> (r: String)
    ensures
        r@ == quoted(s@),
        json_string(r@) == Some(s@),
{
    serde_json::to_string(s).unwrap_or_default()
}

/// `serde_json::to_string` for an array of strings: the JSON array that writes it, which reads back
/// as it.
#[verifier::external_body]
pub(crate) fn quote_all(v: &Vec<String>) -> (r: String)
    ensures
        r@ == quoted_array(text::views(v@)),
        json_strings(r@) == Some(text::views(v@)),
{
    serde_json::to_string(v).unwrap_or_default()
}

/// `serde_json::to_string` for an array of integers: the JSON array that writes it, which reads back
/// as it.
#[verifier::external_body]
pub(crate) fn write_ints(v: &Vec<i64>) -> (r: String)
    ensures
        r@ == int_array(v@),
        json_ints(r@) == Some(v@),
{
    serde_json::to_string(v).unwrap_or_default()
}

/// A value as JSON text, without spaces.
pub open spec fn written(j: Json) -> Seq<char>
    decreases j,
{
    match j {
        Json::Null => "null"@,
        Json::Bool(b) => if b {
            "true"@
        } else {
            "false"@
        },
        Json::Int(n) => text::dec(n as int),
        Json::UInt(n) => text::dec_nat(n as nat),
        Json::Real(n) => n@,
        Json::Str(s) => quoted(s@),
        Json::Array(v) => seq!['['] + written_items(v, v@.len()) + seq![']'],
        Json::Object(o) => seq!['{'] + written_members(o, o@.len()) + seq!['}'],
    }
}

/// The first `n` items of an array as JSON text.
pub open spec fn written_items(v: Vec<Json>, n: nat) -> Seq<char>
    decreases v, n,
{
    if n == 0 || n > v@.len() {
        Seq::empty()
    } else if n == 1 {
        written(v@[0])
    } else {
        written_items(v, (n - 1) as nat) + seq![','] + written(v@[n - 1])
    }
}

/// The first `n` members of an object as JSON text.
pub open spec fn written_members(o: Vec<(String, Json)>, n: nat) -> Seq<char>
    decreases o, n,
{
    if n == 0 || n > o@.len() {
        Seq::empty()
    } else if n == 1 {
        quoted(o@[0].0@) + seq![':'] + written(o@[0].1)
    } else {
        written_members(o, (n - 1) as nat) + seq![','] + quoted(o@[n - 1].0@) + seq![':'] + written(
            o@[n - 1].1,
        )
    }
}

/// Writes a value as JSON text.
pub fn write(j: &Json) -> (r: String)
    ensures
        r@ == written(*j),
    decreases j,
{
    match j {
        Json::Null => text::own("null"),
        Json::Bool(b) => if *b {
            text::own("true")
        } else {
            text::own("false")
        },
        Json::Int(n) => text::int_text(*n),
        Json::UInt(n) => text::nat_text(*n),
        Json::Real(n) => text::own(n.as_str()),
        Json::Str(s) => quote(s.as_str()),
        Json::Array(v) => write_items(v),
        Json::Object(o) => write_members(o),
    }
}

fn write_items(v: &Vec<Json>) -> (r: String)
    ensures
        r@ == seq!['['] + written_items(*v, v@.len()) + seq![']'],
    decreases v,
{
    let mut r = String::new();
    r.push('[');
    let mut i: usize = 0;
    while i < v.len()
        invariant
            i <= v@.len(),
            r@ =~= seq!['['] + written_items(*v, i as nat),
        decreases v@.len() - i,
    {
        if i > 0 {
            r.push(',');
        }
        let item = write(&v[i]);
        r.append(item.as_str());
        i += 1;
    }
    r.push(']');
    r
}

fn write_members(o: &Vec<(String, Json)>) -> (r: String)
    ensures
        r@ == seq!['{'] + written_members(*o, o@.len()) + seq!['}'],
    decreases o,
{
    let mut r = String::new();
    r.push('{');
    let mut i: usize = 0;
    while i < o.len()
        invariant
            i <= o@.len(),
            r@ =~= seq!['{'] + written_members(*o, i as nat),
        decreases o@.len() - i,
    {
        if i > 0 {
            r.push(',');
        }
        let key = quote(o[i].0.as_str());
        let value = write(&o[i].1);
        r.append(key.as_str());
        r.push(':');
        r.append(value.as_str());
        i += 1;
    }
    r.push('}');
    r
}

/// A text as it stands inside a JSON string.
pub fn escape(s: &str) -> (r: String)
    ensures
        r@ == escaped(s@),
{
    let q = quote(s);
    let v = text::chars(q.as_str());
    let n: usize = v.len();
    let r = text::collect(&v, 1, n - 1);
    assert(v@.subrange(1, n - 1) =~= escaped(s@));
    r
}

proof fn lemma_escaped_char(c: char)
    ensures
        forall|j: int|
            0 <= j < escaped_char(c).len() ==> (#[trigger] escaped_char(c)[j]) as int >= 32 && (
            escaped_char(c)[j] == '"' ==> j == 1 && escaped_char(c)[0] == '\\'),
{
    let u = c as int;
    if u < 32 {
        assert(0 <= u / 16 < 16);
        assert(0 <= u % 16 < 16);
        assert(hex(u / 16) as int >= 48);
        assert(hex(u % 16) as int >= 48);
    }
}

/// An escaped text can stand inside quotes: it holds no control character, and no quote but behind
/// a backslash.
pub proof fn law_escaped_text_is_safe(s: Seq<char>)
    ensures
        forall|i: int|
            0 <= i < escaped(s).len() ==> (#[trigger] escaped(s)[i]) as int >= 32 && (escaped(s)[i]
                == '"' ==> i > 0 && escaped(s)[i - 1] == '\\'),
    decreases s.len(),
{
    if s.len() > 0 {
        let a = escaped(s.drop_last());
        let b = escaped_char(s.last());
        law_escaped_text_is_safe(s.drop_last());
        lemma_escaped_char(s.last());
        let t = escaped(s);
        assert forall|i: int| 0 <= i < t.len() implies (#[trigger] t[i]) as int >= 32 && (t[i] == '"'
            ==> i > 0 && t[i - 1] == '\\') by {
            if i < a.len() {
                assert(t[i] == a[i]);
                if i > 0 {
                    assert(t[i - 1] == a[i - 1]);
                }
            } else {
                assert(t[i] == b[i - a.len()]);
                if i > a.len() {
                    assert(t[i - 1] == b[i - 1 - a.len()]);
                }
            }
        }
    }
}

/// A member is the value of the first entry that has its key.
pub proof fn law_first_entry_is_the_member(o: Seq<(String, Json)>, key: Seq<char>, k: int)
    requires
        0 <= k <= o.len(),
        forall|j: int| 0 <= j < k ==> (#[trigger] o[j]).0@ != key,
        k < o.len() ==> o[k].0@ == key,
    ensures
        k < o.len() ==> lookup(o, key) == Some(o[k].1),
        k == o.len() ==> lookup(o, key) is None,
    decreases k,
{
    if k > 0 {
        let rest = o.subrange(1, o.len() as int);
        assert(o[0].0@ != key);
        assert forall|j: int| 0 <= j < k - 1 implies (#[trigger] rest[j]).0@ != key by {
            assert(rest[j] == o[j + 1]);
        }
        if k < o.len() {
            assert(rest[k - 1] == o[k]);
        }
        law_first_entry_is_the_member(rest, key, k - 1);
    }
}

/// A text is escaped letter by letter: quotes and backslashes get a backslash, the common control
/// characters their letter, and all that is neither stays.
pub proof fn law_escaping_is_letter_by_letter(s: Seq<char>, c: char)
    ensures
        escaped(Seq::empty()).len() == 0,
        c == '"' || c == '\\' ==> escaped(s.push(c)) == escaped(s).push('\\').push(c),
        c == '\n' ==> escaped(s.push(c)) == escaped(s).push('\\').push('n'),
        c == '\r' ==> escaped(s.push(c)) == escaped(s).push('\\').push('r'),
        c == '\t' ==> escaped(s.push(c)) == escaped(s).push('\\').push('t'),
        c as int >= 32 && c != '"' && c != '\\' ==> escaped(s.push(c)) == escaped(s).push(c),
{
    assert(s.push(c).drop_last() =~= s);
    assert(escaped(s) + seq!['\\', c] =~= escaped(s).push('\\').push(c));
    assert(escaped(s) + seq!['\\', 'n'] =~= escaped(s).push('\\').push('n'));
    assert(escaped(s) + seq!['\\', 'r'] =~= escaped(s).push('\\').push('r'));
    assert(escaped(s) + seq!['\\', 't'] =~= escaped(s).push('\\').push('t'));
    assert(escaped(s) + seq![c] =~= escaped(s).push(c));
}

/// Values are written as JSON has them: words for nothing and for truth values, decimals for
/// integers, and texts between quotes.
pub proof fn law_values_are_written(j: Json)
    ensures
        j is Null ==> written(j) == "null"@,
        j matches Json::Bool(b) ==> written(j) == if b {
            "true"@
        } else {
            "false"@
        },
        j matches Json::Int(n) ==> written(j) == text::dec(n as int),
        j matches Json::UInt(n) ==> written(j) == text::dec(n as int),
        j matches Json::Real(n) ==> written(j) == n@,
        j matches Json::Str(s) ==> written(j) == seq!['"'] + escaped(s@) + seq!['"'],
{
}

/// Arrays and objects are written item by item between brackets, with commas between neighbours, and
/// the members of an object behind their keys.
pub proof fn law_items_are_written_in_order(j: Json)
    ensures
        j matches Json::Array(v) ==> (v@.len() == 0 ==> written(j) == seq!['[', ']']),
        j matches Json::Array(v) ==> (v@.len() == 1 ==> written(j) == seq!['['] + written(v@[0]) + seq![']']),
        j matches Json::Object(o) ==> (o@.len() == 0 ==> written(j) == seq!['{', '}']),
        j matches Json::Object(o) ==> (o@.len() == 1 ==> written(j) == seq!['{'] + (quoted(o@[0].0@)
            + seq![':'] + written(o@[0].1)) + seq!['}']),
        j matches Json::Array(v) ==> forall|n: nat|
            1 <= n < v@.len() ==> #[trigger] written_items(v, n + 1) == written_items(v, n) + seq![',']
                + written(v@[n as int]),
        j matches Json::Object(o) ==> forall|n: nat|
            1 <= n < o@.len() ==> #[trigger] written_members(o, n + 1) == written_members(o, n) + seq![
                ',',
            ] + quoted(o@[n as int].0@) + seq![':'] + written(o@[n as int].1),
{
    match j {
        Json::Array(v) => {
            assert(seq!['['] + written_items(v, 0) + seq![']'] =~= seq!['[', ']']);
        },
        Json::Object(o) => {
            assert(seq!['{'] + written_members(o, 0) + seq!['}'] =~= seq!['{', '}']);
        },
        _ => {},
    }
}

} // verus!
