//! Text primitives over Unicode scalar values.
//!
//! Every operation is specified on the `Seq<char>` view of a string.

use vstd::prelude::*;

verus! {

/// `String::push` appends one character to the end of the string.
pub assume_specification[ String::push ](s: &mut String, c: char)
    ensures
        final(s)@ == old(s)@.push(c),
;

/// What `String::from_utf8_lossy` makes of bytes.
pub uninterp spec fn lossy(bytes: Seq<u8>) -> Seq<char>;

/// `String::from_utf8_lossy`: the text that bytes write in UTF-8. Bytes that write none are replaced;
/// it is left open by what.
#[verifier::external_body]
pub(crate) fn decode_lossy(bytes: &[u8]) -> (r: String)
    ensures
        r@ == lossy(bytes@),
        vstd::utf8::valid_utf8(bytes@) ==> r@ == vstd::utf8::decode_utf8(bytes@),
{
    String::from_utf8_lossy(bytes).into_owned()
}

/// `a` comes no later than `b` in the order of their characters.
pub open spec fn at_most(a: Seq<char>, b: Seq<char>) -> bool
    decreases a.len(),
{
    if a.len() == 0 {
        true
    } else if b.len() == 0 {
        false
    } else if a[0] != b[0] {
        a[0] < b[0]
    } else {
        at_most(a.subrange(1, a.len() as int), b.subrange(1, b.len() as int))
    }
}

/// The views of a sequence of strings.
pub open spec fn views(v: Seq<String>) -> Seq<Seq<char>> {
    v.map_values(|s: String| s@)
}

/// The view of an optional string.
pub open spec fn view_opt(o: Option<String>) -> Option<Seq<char>> {
    match o {
        Some(s) => Some(s@),
        None => None,
    }
}

/// Unicode `White_Space`, the property that trimming and word splitting use.
pub open spec fn is_space(c: char) -> bool {
    let u = c as u32;
    (9 <= u && u <= 13) || u == 32 || u == 0x85 || u == 0xa0 || u == 0x1680 || (0x2000 <= u && u
        <= 0x200a) || u == 0x2028 || u == 0x2029 || u == 0x202f || u == 0x205f || u == 0x3000
}

/// Decides [`is_space`].
pub fn space(c: char) -> (r: bool)
    ensures
        r == is_space(c),
{
    let u: u32 = c as u32;
    (9 <= u && u <= 13) || u == 32 || u == 0x85 || u == 0xa0 || u == 0x1680 || (0x2000 <= u && u
        <= 0x200a) || u == 0x2028 || u == 0x2029 || u == 0x202f || u == 0x205f || u == 0x3000
}

/// The characters of a string.
pub fn chars(s: &str) -> (v: Vec<char>)
    ensures
        v@ == s@,
{
    let mut v: Vec<char> = Vec::new();
    for c in it: s.chars()
        invariant
            it.seq() == s@,
            v@ == s@.take(it.index() as int),
    {
        v.push(c);
    }
    assert(s@.take(s@.len() as int) == s@);
    v
}

/// The string made of `v[from..to]`.
pub fn collect(v: &Vec<char>, from: usize, to: usize) -> (s: String)
    requires
        from <= to <= v@.len(),
    ensures
        s@ == v@.subrange(from as int, to as int),
{
    let mut s = String::new();
    let mut i: usize = from;
    while i < to
        invariant
            from <= i <= to <= v@.len(),
            s@ == v@.subrange(from as int, i as int),
        decreases to - i,
    {
        s.push(v[i]);
        i += 1;
    }
    s
}

/// Whether two strings hold the same characters.
pub fn same(a: &str, b: &str) -> (r: bool)
    ensures
        r == (a@ == b@),
{
    let x = chars(a);
    let y = chars(b);
    if x.len() != y.len() {
        return false;
    }
    let mut i: usize = 0;
    while i < x.len()
        invariant
            x@.len() == y@.len(),
            x@ == a@,
            y@ == b@,
            i <= x@.len(),
            forall|k: int| 0 <= k < i ==> x@[k] == y@[k],
        decreases x@.len() - i,
    {
        if x[i] != y[i] {
            return false;
        }
        i += 1;
    }
    assert(x@ =~= y@);
    true
}

/// Decides [`at_most`].
pub fn precedes(a: &str, b: &str) -> (r: bool)
    ensures
        r == at_most(a@, b@),
{
    let x = chars(a);
    let y = chars(b);
    let n: usize = x.len();
    let m: usize = y.len();
    let mut i: usize = 0;
    assert(x@.subrange(0, n as int) =~= x@);
    assert(y@.subrange(0, m as int) =~= y@);
    while i < n && i < m && x[i] == y[i]
        invariant
            x@ == a@,
            y@ == b@,
            n == x@.len(),
            m == y@.len(),
            i <= n,
            i <= m,
            at_most(a@, b@) == at_most(
                x@.subrange(i as int, n as int),
                y@.subrange(i as int, m as int),
            ),
        decreases n - i,
    {
        proof {
            let p = x@.subrange(i as int, n as int);
            let q = y@.subrange(i as int, m as int);
            assert(p.subrange(1, p.len() as int) =~= x@.subrange(i + 1, n as int));
            assert(q.subrange(1, q.len() as int) =~= y@.subrange(i + 1, m as int));
            assert(p[0] == x@[i as int]);
            assert(q[0] == y@[i as int]);
        }
        i += 1;
    }
    if i == n {
        true
    } else if i == m {
        false
    } else {
        x[i] < y[i]
    }
}

/// An owned copy of a string.
pub fn own(s: &str) -> (r: String)
    ensures
        r@ == s@,
{
    s.to_owned()
}

// ---- trimming ----

/// `s` without its leading white space.
pub open spec fn trim_start(s: Seq<char>) -> Seq<char>
    decreases s.len(),
{
    if s.len() > 0 && is_space(s[0]) {
        trim_start(s.subrange(1, s.len() as int))
    } else {
        s
    }
}

/// `s` without its trailing white space.
pub open spec fn trim_end(s: Seq<char>) -> Seq<char>
    decreases s.len(),
{
    if s.len() > 0 && is_space(s.last()) {
        trim_end(s.drop_last())
    } else {
        s
    }
}

/// `s` without its leading and trailing white space.
pub open spec fn trimmed(s: Seq<char>) -> Seq<char> {
    trim_end(trim_start(s))
}

/// Trims white space on both ends.
pub fn trim(s: &str) -> (r: String)
    ensures
        r@ == trimmed(s@),
{
    let v = chars(s);
    let n: usize = v.len();
    let mut i: usize = 0;
    assert(v@.subrange(0, n as int) =~= v@);
    while i < n && space(v[i])
        invariant
            n == v@.len(),
            i <= n,
            v@ == s@,
            trim_start(v@) == trim_start(v@.subrange(i as int, n as int)),
        decreases n - i,
    {
        proof {
            let t = v@.subrange(i as int, n as int);
            assert(t.subrange(1, t.len() as int) =~= v@.subrange(i + 1, n as int));
        }
        i += 1;
    }
    let mut j: usize = n;
    let ghost core = v@.subrange(i as int, n as int);
    assert(trim_start(v@) == core);
    while j > i && space(v[j - 1])
        invariant
            n == v@.len(),
            i <= j <= n,
            core == v@.subrange(i as int, n as int),
            trim_end(core) == trim_end(v@.subrange(i as int, j as int)),
        decreases j,
    {
        proof {
            let t = v@.subrange(i as int, j as int);
            assert(t.drop_last() =~= v@.subrange(i as int, j - 1));
        }
        j -= 1;
    }
    collect(&v, i, j)
}

// ---- splitting ----

/// The pieces of `s` between the occurrences of `sep`, empty ones included.
pub open spec fn split(s: Seq<char>, sep: char) -> Seq<Seq<char>>
    decreases s.len(),
{
    if s.len() == 0 {
        seq![Seq::<char>::empty()]
    } else {
        let p = split(s.drop_last(), sep);
        if s.last() == sep {
            p.push(Seq::<char>::empty())
        } else {
            p.drop_last().push(p.last().push(s.last()))
        }
    }
}

/// `parts` joined with `sep` between neighbours.
pub open spec fn joined(parts: Seq<Seq<char>>, sep: Seq<char>) -> Seq<char>
    decreases parts.len(),
{
    if parts.len() == 0 {
        Seq::<char>::empty()
    } else if parts.len() == 1 {
        parts[0]
    } else {
        joined(parts.drop_last(), sep) + sep + parts.last()
    }
}

/// Splitting loses nothing: the pieces joined by the separator are the text, and no
/// piece holds the separator.
pub proof fn law_split_join(s: Seq<char>, sep: char)
    ensures
        split(s, sep).len() >= 1,
        joined(split(s, sep), seq![sep]) == s,
        forall|i: int| 0 <= i < split(s, sep).len() ==> !(#[trigger] split(s, sep)[i]).contains(sep),
    decreases s.len(),
{
    let q = split(s, sep);
    if s.len() == 0 {
    } else {
        law_split_join(s.drop_last(), sep);
        let p = split(s.drop_last(), sep);
        let c = s.last();
        assert(s.drop_last().push(c) =~= s);
        if c == sep {
            assert(q.drop_last() =~= p);
            assert(joined(q, seq![sep]) =~= s);
        } else {
            assert(q.drop_last() =~= p.drop_last());
            assert(joined(q, seq![sep]) =~= joined(p, seq![sep]).push(c));
            assert forall|i: int| 0 <= i < q.len() implies !(#[trigger] q[i]).contains(sep) by {
                if i < p.len() - 1 {
                    assert(q[i] == p[i]);
                } else {
                    assert(q[i] == p.last().push(c));
                    if q[i].contains(sep) {
                        let k = choose|k: int| 0 <= k < q[i].len() && q[i][k] == sep;
                        assert(p.last()[k] == sep);
                        assert(p[p.len() - 1].contains(sep));
                    }
                }
            }
        }
    }
}

/// Splits on a separator character, as [`split`] says.
pub fn split_on(s: &str, sep: char) -> (r: Vec<String>)
    ensures
        views(r@) == split(s@, sep),
{
    let v = chars(s);
    let mut out: Vec<String> = Vec::new();
    let mut cur = String::new();
    let mut i: usize = 0;
    assert(v@.subrange(0, 0) =~= Seq::<char>::empty());
    assert(views(out@).push(cur@) =~= split(v@.subrange(0, 0), sep));
    while i < v.len()
        invariant
            v@ == s@,
            i <= v@.len(),
            views(out@).push(cur@) == split(v@.subrange(0, i as int), sep),
        decreases v@.len() - i,
    {
        let c = v[i];
        proof {
            let t = v@.subrange(0, i + 1);
            assert(t.drop_last() =~= v@.subrange(0, i as int));
            assert(t.last() == c);
            let p = split(v@.subrange(0, i as int), sep);
            assert(p.drop_last() =~= views(out@));
        }
        if c == sep {
            let ghost before = views(out@);
            let ghost piece = cur@;
            out.push(cur);
            cur = String::new();
            assert(views(out@) =~= before.push(piece));
        } else {
            cur.push(c);
        }
        i += 1;
    }
    assert(v@.subrange(0, v@.len() as int) =~= v@);
    let ghost before = views(out@);
    let ghost piece = cur@;
    out.push(cur);
    assert(views(out@) =~= before.push(piece));
    out
}

/// The maximal runs of non-white characters of `s`.
pub open spec fn words(s: Seq<char>) -> Seq<Seq<char>>
    decreases s.len(),
{
    if s.len() == 0 {
        Seq::empty()
    } else {
        let p = words(s.drop_last());
        if is_space(s.last()) {
            p
        } else if s.len() == 1 || is_space(s[s.len() - 2]) {
            p.push(seq![s.last()])
        } else {
            p.drop_last().push(p.last().push(s.last()))
        }
    }
}

/// Splits into words, as [`words`] says.
pub fn split_words(s: &str) -> (r: Vec<String>)
    ensures
        views(r@) == words(s@),
{
    let v = chars(s);
    let mut out: Vec<String> = Vec::new();
    let mut cur = String::new();
    let mut i: usize = 0;
    let mut open: bool = false;
    assert(v@.subrange(0, 0) =~= Seq::<char>::empty());
    assert(views(out@) =~= words(v@.subrange(0, 0)));
    while i < v.len()
        invariant
            v@ == s@,
            i <= v@.len(),
            open == (i > 0 && !is_space(v@[i - 1])),
            open ==> views(out@).push(cur@) == words(v@.subrange(0, i as int)),
            !open ==> views(out@) == words(v@.subrange(0, i as int)),
        decreases v@.len() - i,
    {
        let c = v[i];
        proof {
            let t = v@.subrange(0, i + 1);
            assert(t.drop_last() =~= v@.subrange(0, i as int));
            assert(t.last() == c);
            if i > 0 {
                assert(t[t.len() - 2] == v@[i - 1]);
            }
            if open {
                assert(words(v@.subrange(0, i as int)).drop_last() =~= views(out@));
            }
        }
        if space(c) {
            if open {
                let ghost before = views(out@);
                let ghost piece = cur@;
                out.push(cur);
                cur = String::new();
                assert(views(out@) =~= before.push(piece));
            }
            open = false;
        } else {
            if !open {
                cur = String::new();
            }
            cur.push(c);
            open = true;
            proof {
                if cur@.len() == 1 {
                    assert(cur@ =~= seq![c]);
                }
            }
        }
        i += 1;
    }
    assert(v@.subrange(0, v@.len() as int) =~= v@);
    if open {
        let ghost before = views(out@);
        let ghost piece = cur@;
        out.push(cur);
        assert(views(out@) =~= before.push(piece));
    }
    out
}

/// Joins strings with a separator, as [`joined`] says.
pub fn join(parts: &Vec<String>, sep: &str) -> (r: String)
    ensures
        r@ == joined(views(parts@), sep@),
{
    let mut r = String::new();
    let mut i: usize = 0;
    assert(views(parts@).take(0) =~= Seq::<Seq<char>>::empty());
    while i < parts.len()
        invariant
            i <= parts@.len(),
            r@ == joined(views(parts@).take(i as int), sep@),
        decreases parts@.len() - i,
    {
        proof {
            let t = views(parts@).take(i + 1);
            assert(t.drop_last() =~= views(parts@).take(i as int));
            assert(t.last() == parts@[i as int]@);
        }
        if i > 0 {
            r.append(sep);
        }
        r.append(parts[i].as_str());
        i += 1;
    }
    assert(views(parts@).take(parts@.len() as int) =~= views(parts@));
    r
}

// ---- lines ----

/// The lines of `s`: the pieces between line feeds, each without the carriage return
/// that stands before its line feed, and without an empty piece after a final line feed.
pub open spec fn lines(s: Seq<char>) -> Seq<Seq<char>> {
    let parts = split(s, '\n');
    let full = parts.drop_last().map_values(|l: Seq<char>| strip_cr(l));
    if parts.last().len() == 0 {
        full
    } else {
        full.push(parts.last())
    }
}

/// `l` without one trailing carriage return.
pub open spec fn strip_cr(l: Seq<char>) -> Seq<char> {
    if l.len() > 0 && l.last() == '\r' {
        l.drop_last()
    } else {
        l
    }
}

/// Splits into lines, as [`lines`] says.
pub fn split_lines(s: &str) -> (r: Vec<String>)
    ensures
        views(r@) == lines(s@),
{
    let parts = split_on(s, '\n');
    proof {
        law_split_join(s@, '\n');
        assert(views(parts@).len() == parts@.len());
    }
    let n: usize = parts.len();
    let mut out: Vec<String> = Vec::new();
    let mut i: usize = 0;
    let ghost full = split(s@, '\n').drop_last().map_values(|l: Seq<char>| strip_cr(l));
    while i + 1 < n
        invariant
            n == parts@.len(),
            n >= 1,
            i <= n - 1,
            views(parts@) == split(s@, '\n'),
            full == split(s@, '\n').drop_last().map_values(|l: Seq<char>| strip_cr(l)),
            views(out@) == full.take(i as int),
        decreases n - i,
    {
        let v = chars(parts[i].as_str());
        let m: usize = v.len();
        let line = if m > 0 && v[m - 1] == '\r' {
            collect(&v, 0, m - 1)
        } else {
            collect(&v, 0, m)
        };
        proof {
            assert(views(parts@)[i as int] == v@);
            assert(v@.subrange(0, m as int) =~= v@);
            if m > 0 {
                assert(v@.subrange(0, m - 1) =~= v@.drop_last());
            }
            assert(full[i as int] == strip_cr(v@));
            assert(full.take(i + 1) =~= full.take(i as int).push(line@));
        }
        let ghost before = views(out@);
        let ghost piece = line@;
        out.push(line);
        assert(views(out@) =~= before.push(piece));
        i += 1;
    }
    assert(full.take(n - 1) =~= full);
    assert(views(parts@)[n - 1] == parts@[n - 1]@);
    if parts[n - 1].as_str().is_empty() {
        assert(parts@[n - 1]@.len() == 0);
    } else {
        let last = own(parts[n - 1].as_str());
        let ghost before = views(out@);
        let ghost piece = last@;
        out.push(last);
        assert(views(out@) =~= before.push(piece));
    }
    out
}

// ---- case ----

/// The ASCII lower-case form of a character.
pub open spec fn lower_char(c: char) -> char {
    if 'A' <= c && c <= 'Z' {
        ((c as u32) + 32) as char
    } else {
        c
    }
}

/// The ASCII upper-case form of a character.
pub open spec fn upper_char(c: char) -> char {
    if 'a' <= c && c <= 'z' {
        ((c as u32) - 32) as char
    } else {
        c
    }
}

/// The ASCII lower-case form of a text.
pub open spec fn lower(s: Seq<char>) -> Seq<char> {
    s.map_values(|c: char| lower_char(c))
}

/// The ASCII upper-case form of a text.
pub open spec fn upper(s: Seq<char>) -> Seq<char> {
    s.map_values(|c: char| upper_char(c))
}

/// Lowers ASCII letters.
pub fn to_lower(s: &str) -> (r: String)
    ensures
        r@ == lower(s@),
{
    let v = chars(s);
    let mut r = String::new();
    let mut i: usize = 0;
    while i < v.len()
        invariant
            i <= v@.len(),
            r@ == lower(v@.take(i as int)),
        decreases v@.len() - i,
    {
        let c = v[i];
        if 'A' <= c && c <= 'Z' {
            r.push(((c as u32) + 32) as u8 as char);
        } else {
            r.push(c);
        }
        assert(lower(v@.take(i + 1)) =~= lower(v@.take(i as int)).push(lower_char(c)));
        i += 1;
    }
    assert(v@.take(v@.len() as int) =~= v@);
    r
}

/// Raises ASCII letters.
pub fn to_upper(s: &str) -> (r: String)
    ensures
        r@ == upper(s@),
{
    let v = chars(s);
    let mut r = String::new();
    let mut i: usize = 0;
    while i < v.len()
        invariant
            i <= v@.len(),
            r@ == upper(v@.take(i as int)),
        decreases v@.len() - i,
    {
        let c = v[i];
        if 'a' <= c && c <= 'z' {
            r.push(((c as u32) - 32) as u8 as char);
        } else {
            r.push(c);
        }
        assert(upper(v@.take(i + 1)) =~= upper(v@.take(i as int)).push(upper_char(c)));
        i += 1;
    }
    assert(v@.take(v@.len() as int) =~= v@);
    r
}

// ---- searching ----

/// Whether `pat` stands in `s` at position `i`.
pub open spec fn occurs_at(s: Seq<char>, pat: Seq<char>, i: int) -> bool {
    0 <= i && i + pat.len() <= s.len() && s.subrange(i, i + pat.len()) == pat
}

/// Whether `pat` stands somewhere in `s`.
pub open spec fn within(s: Seq<char>, pat: Seq<char>) -> bool {
    exists|i: int| occurs_at(s, pat, i)
}

/// Whether `pat` opens `s`.
pub open spec fn starts(s: Seq<char>, pat: Seq<char>) -> bool {
    occurs_at(s, pat, 0)
}

/// Decides [`occurs_at`].
pub fn matches_at(s: &Vec<char>, pat: &Vec<char>, at: usize) -> (r: bool)
    requires
        at <= s@.len(),
    ensures
        r == occurs_at(s@, pat@, at as int),
{
    let n: usize = s.len();
    if pat.len() > n - at {
        return false;
    }
    let mut k: usize = 0;
    while k < pat.len()
        invariant
            n == s@.len(),
            at + pat@.len() <= n,
            k <= pat@.len(),
            forall|j: int| 0 <= j < k ==> s@[at + j] == pat@[j],
        decreases pat@.len() - k,
    {
        if s[at + k] != pat[k] {
            assert(s@.subrange(at as int, at + pat@.len())[k as int] != pat@[k as int]);
            return false;
        }
        k += 1;
    }
    assert(s@.subrange(at as int, at + pat@.len()) =~= pat@);
    true
}

/// The first position at which `pat` stands in `s`.
pub fn find_in(s: &Vec<char>, pat: &Vec<char>) -> (r: Option<usize>)
    ensures
        r is None <==> !within(s@, pat@),
        r matches Some(i) ==> occurs_at(s@, pat@, i as int) && forall|k: int|
            0 <= k < i ==> !occurs_at(s@, pat@, k),
{
    let mut i: usize = 0;
    while i < s.len()
        invariant
            i <= s@.len(),
            forall|k: int| 0 <= k < i ==> !occurs_at(s@, pat@, k),
        decreases s@.len() - i,
    {
        if matches_at(s, pat, i) {
            return Some(i);
        }
        i += 1;
    }
    if matches_at(s, pat, i) {
        return Some(i);
    }
    assert forall|k: int| !occurs_at(s@, pat@, k) by {}
    None
}

/// Decides [`within`].
pub fn contains(s: &str, pat: &str) -> (r: bool)
    ensures
        r == within(s@, pat@),
{
    let v = chars(s);
    let p = chars(pat);
    find_in(&v, &p).is_some()
}

/// Decides [`starts`].
pub fn starts_with(s: &str, pat: &str) -> (r: bool)
    ensures
        r == starts(s@, pat@),
{
    let v = chars(s);
    let p = chars(pat);
    matches_at(&v, &p, 0)
}

/// What follows the opening `pat` of `s`, where `s` opens with it.
pub open spec fn after(s: Seq<char>, pat: Seq<char>) -> Option<Seq<char>> {
    if starts(s, pat) {
        Some(s.subrange(pat.len() as int, s.len() as int))
    } else {
        None
    }
}

/// Computes [`after`].
pub fn strip_prefix(s: &str, pat: &str) -> (r: Option<String>)
    ensures
        view_opt(r) == after(s@, pat@),
{
    let v = chars(s);
    let p = chars(pat);
    if matches_at(&v, &p, 0) {
        Some(collect(&v, p.len(), v.len()))
    } else {
        None
    }
}

/// The position of the first `c` in `s`, or the length of `s`.
pub open spec fn first_of(s: Seq<char>, c: char) -> int
    decreases s.len(),
{
    if s.len() == 0 || s[0] == c {
        0
    } else {
        1 + first_of(s.subrange(1, s.len() as int), c)
    }
}

/// `s` cut at its first `c`: what stands before it and what stands after it.
pub open spec fn cut(s: Seq<char>, c: char) -> Option<(Seq<char>, Seq<char>)> {
    if s.contains(c) {
        Some((s.take(first_of(s, c)), s.skip(first_of(s, c) + 1)))
    } else {
        None
    }
}

pub proof fn lemma_first_of(s: Seq<char>, c: char, i: int)
    requires
        0 <= i <= s.len(),
        forall|k: int| 0 <= k < i ==> s[k] != c,
        i < s.len() ==> s[i] == c,
    ensures
        first_of(s, c) == i,
    decreases s.len(),
{
    if i > 0 {
        lemma_first_of(s.subrange(1, s.len() as int), c, i - 1);
    }
}

pub proof fn lemma_first_of_bounds(s: Seq<char>, c: char)
    ensures
        0 <= first_of(s, c) <= s.len(),
        s.contains(c) ==> first_of(s, c) < s.len(),
    decreases s.len(),
{
    if s.len() > 0 && s[0] != c {
        let t = s.subrange(1, s.len() as int);
        lemma_first_of_bounds(t, c);
        if s.contains(c) {
            let k = choose|k: int| 0 <= k < s.len() && s[k] == c;
            assert(t[k - 1] == c);
        }
    }
}

/// Computes [`cut`].
pub fn split_once(s: &str, c: char) -> (r: Option<(String, String)>)
    ensures
        r is Some <==> s@.contains(c),
        r matches Some(p) ==> cut(s@, c) == Some((p.0@, p.1@)),
{
    let v = chars(s);
    let mut i: usize = 0;
    while i < v.len()
        invariant
            v@ == s@,
            i <= v@.len(),
            forall|k: int| 0 <= k < i ==> v@[k] != c,
        decreases v@.len() - i,
    {
        if v[i] == c {
            proof {
                lemma_first_of(v@, c, i as int);
                assert(v@.subrange(0, i as int) =~= v@.take(i as int));
                assert(v@.subrange(i + 1, v@.len() as int) =~= v@.skip(i + 1));
                assert(v@[i as int] == c);
            }
            return Some((collect(&v, 0, i), collect(&v, i + 1, v.len())));
        }
        i += 1;
    }
    None
}

/// `s` with every occurrence of `from`, taken from the left, replaced by `to`.
pub open spec fn replaced(s: Seq<char>, from: Seq<char>, to: Seq<char>) -> Seq<char>
    decreases s.len(),
{
    if from.len() == 0 || s.len() < from.len() {
        s
    } else if starts(s, from) {
        to + replaced(s.subrange(from.len() as int, s.len() as int), from, to)
    } else {
        seq![s[0]] + replaced(s.subrange(1, s.len() as int), from, to)
    }
}

/// Replaces every occurrence of a non-empty text, as [`replaced`] says.
pub fn replace(s: &str, from: &str, to: &str) -> (r: String)
    requires
        from@.len() > 0,
    ensures
        r@ == replaced(s@, from@, to@),
{
    let v = chars(s);
    let f = chars(from);
    let n: usize = v.len();
    let mut r = String::new();
    let mut i: usize = 0;
    assert(v@.subrange(0, n as int) =~= v@);
    assert(r@ + replaced(v@, from@, to@) =~= replaced(s@, from@, to@));
    while i < n && f.len() <= n - i
        invariant
            v@ == s@,
            f@ == from@,
            n == v@.len(),
            f@.len() > 0,
            i <= n,
            r@ + replaced(v@.subrange(i as int, n as int), from@, to@) == replaced(
                s@,
                from@,
                to@,
            ),
        decreases n - i,
    {
        let ghost rest = v@.subrange(i as int, n as int);
        let hit = matches_at(&v, &f, i);
        proof {
            assert(rest.subrange(0, f@.len() as int) =~= v@.subrange(i as int, i + f@.len()));
            assert(rest.subrange(f@.len() as int, rest.len() as int) =~= v@.subrange(
                i + f@.len(),
                n as int,
            ));
            assert(rest.subrange(1, rest.len() as int) =~= v@.subrange(i + 1, n as int));
        }
        let ghost before = r@;
        if hit {
            r.append(to);
            i += f.len();
            assert(r@ + replaced(v@.subrange(i as int, n as int), from@, to@) =~= before + replaced(
                rest,
                from@,
                to@,
            ));
        } else {
            r.push(v[i]);
            i += 1;
            assert(r@ + replaced(v@.subrange(i as int, n as int), from@, to@) =~= before + replaced(
                rest,
                from@,
                to@,
            ));
        }
    }
    let tail = collect(&v, i, n);
    r.append(tail.as_str());
    r
}

// ---- numbers ----

/// The decimal digit `d`, for `d` below ten.
pub open spec fn digit(d: nat) -> char {
    (48 + d) as char
}

/// The decimal digits of a natural number.
pub open spec fn dec_nat(n: nat) -> Seq<char>
    decreases n,
{
    if n < 10 {
        seq![digit(n)]
    } else {
        dec_nat(n / 10).push(digit(n % 10))
    }
}

/// The decimal text of an integer.
pub open spec fn dec(i: int) -> Seq<char> {
    if i < 0 {
        seq!['-'] + dec_nat((-i) as nat)
    } else {
        dec_nat(i as nat)
    }
}

/// The decimal text of a natural number, in at least `width` digits.
pub open spec fn padded(n: nat, width: nat) -> Seq<char>
    decreases width,
{
    if width <= 1 || dec_nat(n).len() >= width {
        dec_nat(n)
    } else {
        seq!['0'] + padded(n, (width - 1) as nat)
    }
}

fn push_nat(out: &mut String, n: u64)
    ensures
        final(out)@ == old(out)@ + dec_nat(n as nat),
    decreases n,
{
    if n >= 10 {
        push_nat(out, n / 10);
    }
    let d: u8 = (n % 10) as u8;
    out.push((48 + d) as char);
}

/// The decimal text of a number.
pub fn nat_text(n: u64) -> (r: String)
    ensures
        r@ == dec_nat(n as nat),
{
    let mut r = String::new();
    push_nat(&mut r, n);
    r
}

/// The decimal text of a signed number.
pub fn int_text(i: i64) -> (r: String)
    ensures
        r@ == dec(i as int),
{
    let mut r = String::new();
    if i < 0 {
        r.push('-');
        let n: u64 = if i == i64::MIN {
            9223372036854775808
        } else {
            (-i) as u64
        };
        push_nat(&mut r, n);
    } else {
        push_nat(&mut r, i as u64);
    }
    r
}

/// Whether `c` is an ASCII digit.
pub open spec fn is_digit(c: char) -> bool {
    '0' <= c && c <= '9'
}

/// Whether `s` is a non-empty run of ASCII digits.
pub open spec fn all_digits(s: Seq<char>) -> bool {
    s.len() > 0 && forall|i: int| 0 <= i < s.len() ==> is_digit(#[trigger] s[i])
}

/// The number that a run of digits writes.
pub open spec fn nat_value(s: Seq<char>) -> nat
    decreases s.len(),
{
    if s.len() == 0 {
        0
    } else {
        nat_value(s.drop_last()) * 10 + ((s.last() as u32) - 48) as nat
    }
}

/// `s` without one leading plus sign.
pub open spec fn unplus(s: Seq<char>) -> Seq<char> {
    if s.len() > 0 && s[0] == '+' {
        s.subrange(1, s.len() as int)
    } else {
        s
    }
}

/// The number that an unsigned decimal text writes, if it is one and is at most `max`.
pub open spec fn unsigned(s: Seq<char>, max: int) -> Option<int> {
    let d = unplus(s);
    if all_digits(d) && nat_value(d) <= max {
        Some(nat_value(d) as int)
    } else {
        None
    }
}

/// The number that a signed decimal text writes, if it is one and lies in `min..=max`.
pub open spec fn signed(s: Seq<char>, min: int, max: int) -> Option<int> {
    if s.len() > 0 && s[0] == '-' {
        let d = s.subrange(1, s.len() as int);
        if all_digits(d) && -nat_value(d) >= min {
            Some(-nat_value(d))
        } else {
            None
        }
    } else {
        unsigned(s, max)
    }
}

/// The value of `v[from..]` read as digits, if it is one and at most `max`.
fn digits_value(v: &Vec<char>, from: usize, max: u64) -> (r: Option<u64>)
    requires
        from <= v@.len(),
        9 <= max,
    ensures
        ({
            let d = v@.subrange(from as int, v@.len() as int);
            r == (if all_digits(d) && nat_value(d) <= max {
                Some(nat_value(d) as u64)
            } else {
                None::<u64>
            })
        }),
{
    let n: usize = v.len();
    let ghost d = v@.subrange(from as int, n as int);
    if from == n {
        return None;
    }
    let mut acc: u64 = 0;
    let mut over: bool = false;
    let mut i: usize = from;
    assert(d.take(0) =~= Seq::<char>::empty());
    while i < n
        invariant
            from <= i <= n,
            n == v@.len(),
            d == v@.subrange(from as int, n as int),
            9 <= max,
            forall|k: int| 0 <= k < i - from ==> is_digit(#[trigger] d[k]),
            over ==> nat_value(d.take(i - from)) > max,
            !over ==> acc == nat_value(d.take(i - from)) && acc <= max,
        decreases n - i,
    {
        let c = v[i];
        assert(d[i - from] == c);
        if !('0' <= c && c <= '9') {
            return None;
        }
        let u: u64 = (c as u32 - 48) as u64;
        proof {
            let t = d.take(i - from + 1);
            assert(t.drop_last() =~= d.take(i - from));
            assert(t.last() == c);
        }
        if !over {
            if acc > (max - u) / 10 {
                over = true;
            } else {
                acc = acc * 10 + u;
            }
        }
        i += 1;
    }
    assert(d.take(n - from) =~= d);
    if over {
        None
    } else {
        Some(acc)
    }
}

/// Reads an unsigned decimal of at most 16 bits.
pub fn parse_u16(s: &str) -> (r: Option<u16>)
    ensures
        r is Some <==> unsigned(s@, 65535) is Some,
        r matches Some(n) ==> unsigned(s@, 65535) == Some(n as int),
{
    let v = chars(s);
    let from: usize = if v.len() > 0 && v[0] == '+' {
        1
    } else {
        0
    };
    assert(v@.subrange(from as int, v@.len() as int) =~= unplus(s@));
    match digits_value(&v, from, 65535) {
        Some(n) => Some(n as u16),
        None => None,
    }
}

/// Reads an unsigned decimal of at most 32 bits.
pub fn parse_u32(s: &str) -> (r: Option<u32>)
    ensures
        r is Some <==> unsigned(s@, u32::MAX as int) is Some,
        r matches Some(n) ==> unsigned(s@, u32::MAX as int) == Some(n as int),
{
    let v = chars(s);
    let from: usize = if v.len() > 0 && v[0] == '+' {
        1
    } else {
        0
    };
    assert(v@.subrange(from as int, v@.len() as int) =~= unplus(s@));
    match digits_value(&v, from, 4294967295) {
        Some(n) => Some(n as u32),
        None => None,
    }
}

/// Reads a signed decimal of 32 bits.
pub fn parse_i32(s: &str) -> (r: Option<i32>)
    ensures
        r is Some <==> signed(s@, i32::MIN as int, i32::MAX as int) is Some,
        r matches Some(n) ==> signed(s@, i32::MIN as int, i32::MAX as int) == Some(n as int),
{
    match parse_i64(s) {
        Some(n) => if -2147483648 <= n && n <= 2147483647 {
            Some(n as i32)
        } else {
            None
        },
        None => None,
    }
}

/// Reads a signed decimal of 64 bits.
pub fn parse_i64(s: &str) -> (r: Option<i64>)
    ensures
        r is Some <==> signed(s@, i64::MIN as int, i64::MAX as int) is Some,
        r matches Some(n) ==> signed(s@, i64::MIN as int, i64::MAX as int) == Some(n as int),
{
    let v = chars(s);
    if v.len() > 0 && v[0] == '-' {
        match digits_value(&v, 1, 9223372036854775808) {
            Some(n) => if n == 9223372036854775808 {
                Some(i64::MIN)
            } else {
                Some(-(n as i64))
            },
            None => None,
        }
    } else {
        let from: usize = if v.len() > 0 && v[0] == '+' {
            1
        } else {
            0
        };
        assert(v@.subrange(from as int, v@.len() as int) =~= unplus(s@));
        match digits_value(&v, from, 9223372036854775807) {
            Some(n) => Some(n as i64),
            None => None,
        }
    }
}

/// Reads an unsigned decimal of a machine word.
pub fn parse_usize(s: &str) -> (r: Option<usize>)
    ensures
        r is Some <==> unsigned(s@, usize::MAX as int) is Some,
        r matches Some(n) ==> unsigned(s@, usize::MAX as int) == Some(n as int),
{
    let v = chars(s);
    let from: usize = if v.len() > 0 && v[0] == '+' {
        1
    } else {
        0
    };
    assert(v@.subrange(from as int, v@.len() as int) =~= unplus(s@));
    match digits_value(&v, from, usize::MAX as u64) {
        Some(n) => Some(n as usize),
        None => None,
    }
}

/// Reading back the decimal text of a number gives the number.
pub proof fn law_decimal_round_trip(n: nat)
    ensures
        all_digits(dec_nat(n)),
        nat_value(dec_nat(n)) == n,
        unplus(dec_nat(n)) == dec_nat(n),
    decreases n,
{
    if n >= 10 {
        law_decimal_round_trip(n / 10);
        let t = dec_nat(n);
        assert(t.drop_last() =~= dec_nat(n / 10));
        assert forall|i: int| 0 <= i < t.len() implies is_digit(#[trigger] t[i]) by {
            if i < t.len() - 1 {
                assert(t[i] == dec_nat(n / 10)[i]);
            }
        }
    } else {
        let t = dec_nat(n);
        assert(t.drop_last() =~= Seq::<char>::empty());
        assert(nat_value(t.drop_last()) == 0);
    }
    assert(is_digit(dec_nat(n)[0]));
}

/// Reading back the decimal text of a signed number gives the number.
pub proof fn law_signed_round_trip(i: int, min: int, max: int)
    requires
        min <= i <= max,
    ensures
        signed(dec(i), min, max) == Some(i),
{
    if i < 0 {
        law_decimal_round_trip((-i) as nat);
        let s = dec(i);
        assert(s.subrange(1, s.len() as int) =~= dec_nat((-i) as nat));
    } else {
        law_decimal_round_trip(i as nat);
        assert(is_digit(dec_nat(i as nat)[0]));
    }
}

/// A text that does not hold the separator is one piece.
pub proof fn law_split_alone(a: Seq<char>, sep: char)
    requires
        !a.contains(sep),
    ensures
        split(a, sep) == seq![a],
    decreases a.len(),
{
    if a.len() > 0 {
        let rest = a.drop_last();
        assert(a[a.len() - 1] == a.last());
        if rest.contains(sep) {
            let k = choose|k: int| 0 <= k < rest.len() && rest[k] == sep;
            assert(a[k] == sep);
        }
        law_split_alone(rest, sep);
        assert(rest.push(a.last()) =~= a);
        assert(split(a, sep) =~= seq![a]);
    } else {
        assert(a =~= Seq::empty());
    }
}

/// A piece in front of a separator is the first piece, and what follows is split alone.
pub proof fn law_split_at(a: Seq<char>, b: Seq<char>, sep: char)
    requires
        !a.contains(sep),
    ensures
        split(a + seq![sep] + b, sep) == seq![a] + split(b, sep),
    decreases b.len(),
{
    let s = a + seq![sep] + b;
    if b.len() == 0 {
        law_split_alone(a, sep);
        assert(s.drop_last() =~= a);
        assert(split(b, sep) =~= seq![Seq::<char>::empty()]);
        assert(split(s, sep) =~= seq![a] + split(b, sep));
    } else {
        law_split_at(a, b.drop_last(), sep);
        law_split_join(b.drop_last(), sep);
        assert(s.drop_last() =~= a + seq![sep] + b.drop_last());
        let q = split(b.drop_last(), sep);
        let p = split(s.drop_last(), sep);
        assert(p == seq![a] + q);
        assert(p.last() == q.last());
        assert(p.drop_last() =~= seq![a] + q.drop_last());
        assert(split(s, sep) =~= seq![a] + split(b, sep));
    }
}

/// Zeros in front do not change what a decimal text writes.
pub proof fn law_padded_round_trip(n: nat, width: nat)
    ensures
        all_digits(padded(n, width)),
        nat_value(padded(n, width)) == n,
        padded(n, width).len() >= 1,
        unplus(padded(n, width)) == padded(n, width),
    decreases width,
{
    if width <= 1 || dec_nat(n).len() >= width {
        law_decimal_round_trip(n);
    } else {
        let t = padded(n, (width - 1) as nat);
        law_padded_round_trip(n, (width - 1) as nat);
        lemma_leading_zero(t);
        let s = padded(n, width);
        assert forall|i: int| 0 <= i < s.len() implies is_digit(#[trigger] s[i]) by {
            if i > 0 {
                assert(s[i] == t[i - 1]);
            }
        }
    }
}

proof fn lemma_leading_zero(t: Seq<char>)
    ensures
        nat_value(seq!['0'] + t) == nat_value(t),
    decreases t.len(),
{
    let s = seq!['0'] + t;
    if t.len() == 0 {
        assert(s.drop_last() =~= Seq::<char>::empty());
        assert(nat_value(s.drop_last()) == 0);
    } else {
        lemma_leading_zero(t.drop_last());
        assert(s.drop_last() =~= seq!['0'] + t.drop_last());
    }
}

/// `a` comes before `b` in the order of their characters.
pub open spec fn before(a: Seq<char>, b: Seq<char>) -> bool {
    at_most(a, b) && !at_most(b, a)
}

/// Texts of one length compare whatever follows them.
pub proof fn law_fronts_decide(a: Seq<char>, b: Seq<char>, x: Seq<char>, y: Seq<char>)
    requires
        a.len() == b.len(),
        before(a, b),
    ensures
        before(a + x, b + y),
    decreases a.len(),
{
    let n = a.len() as int;
    let m = b.len() as int;
    assert(n > 0);
    let p = a + x;
    let q = b + y;
    assert(p[0] == a[0]);
    assert(q[0] == b[0]);
    if a[0] == b[0] {
        law_fronts_decide(a.subrange(1, n), b.subrange(1, m), x, y);
        assert(p.subrange(1, p.len() as int) =~= a.subrange(1, n) + x);
        assert(q.subrange(1, q.len() as int) =~= b.subrange(1, m) + y);
    }
}

/// A common front does not change how texts compare.
pub proof fn law_common_front(front: Seq<char>, x: Seq<char>, y: Seq<char>)
    requires
        before(x, y),
    ensures
        before(front + x, front + y),
    decreases front.len(),
{
    let p = front + x;
    let q = front + y;
    if front.len() == 0 {
        assert(p =~= x);
        assert(q =~= y);
    } else {
        let rest = front.subrange(1, front.len() as int);
        law_common_front(rest, x, y);
        assert(p.subrange(1, p.len() as int) =~= rest + x);
        assert(q.subrange(1, q.len() as int) =~= rest + y);
    }
}

/// A text comes no later than itself.
pub proof fn law_order_is_reflexive(a: Seq<char>)
    ensures
        at_most(a, a),
    decreases a.len(),
{
    if a.len() > 0 {
        law_order_is_reflexive(a.subrange(1, a.len() as int));
    }
}

/// A text holds itself and what either of its two halves holds.
pub proof fn law_halves_are_held(a: Seq<char>, b: Seq<char>, pat: Seq<char>)
    ensures
        within(a, a),
        within(a, pat) ==> within(a + b, pat),
        within(b, pat) ==> within(a + b, pat),
{
    assert(a.subrange(0, a.len() as int) =~= a);
    assert(occurs_at(a, a, 0));
    if within(a, pat) {
        let i = choose|i: int| occurs_at(a, pat, i);
        assert((a + b).subrange(i, i + pat.len()) =~= a.subrange(i, i + pat.len()));
        assert(occurs_at(a + b, pat, i));
    }
    if within(b, pat) {
        let i = choose|i: int| occurs_at(b, pat, i);
        assert((a + b).subrange(a.len() + i, a.len() + i + pat.len()) =~= b.subrange(
            i,
            i + pat.len(),
        ));
        assert(occurs_at(a + b, pat, a.len() + i));
    }
}

/// What is held by a part is held by the whole.
pub proof fn law_holding_is_transitive(s: Seq<char>, part: Seq<char>, pat: Seq<char>)
    requires
        within(s, part),
        within(part, pat),
    ensures
        within(s, pat),
{
    let i = choose|i: int| occurs_at(s, part, i);
    let j = choose|j: int| occurs_at(part, pat, j);
    assert(s.subrange(i + j, i + j + pat.len()) =~= s.subrange(i, i + part.len()).subrange(
        j,
        j + pat.len(),
    ));
    assert(occurs_at(s, pat, i + j));
}

/// Joined texts hold each of their parts, in full.
pub proof fn law_joined_parts_are_held(parts: Seq<Seq<char>>, sep: Seq<char>, i: int)
    requires
        0 <= i < parts.len(),
    ensures
        within(joined(parts, sep), parts[i]),
    decreases parts.len(),
{
    let last = parts.last();
    if parts.len() == 1 {
        law_halves_are_held(parts[0], Seq::empty(), parts[0]);
    } else {
        let front = joined(parts.drop_last(), sep);
        if i < parts.len() - 1 {
            law_joined_parts_are_held(parts.drop_last(), sep, i);
            law_halves_are_held(front, sep, parts[i]);
            law_halves_are_held(front + sep, last, parts[i]);
        } else {
            law_halves_are_held(last, Seq::empty(), last);
            law_halves_are_held(front + sep, last, last);
        }
    }
}

/// Joining adds nothing but the separator, between neighbours: the length of the whole is that of the
/// parts and of one separator less than there are parts.
pub proof fn law_joining_adds_separators_alone(parts: Seq<Seq<char>>, last: Seq<char>, sep: Seq<char>)
    ensures
        joined(seq![last], sep) == last,
        parts.len() > 0 ==> joined(parts.push(last), sep) == joined(parts, sep) + sep + last,
{
    assert(parts.push(last).drop_last() =~= parts);
}

/// A text holds its end, and all that its front holds.
pub proof fn law_ends_are_held(a: Seq<char>, b: Seq<char>)
    ensures
        within(a + b, b),
        forall|pat: Seq<char>| #[trigger] within(a, pat) ==> within(a + b, pat),
        forall|pat: Seq<char>| #[trigger] within(b, pat) ==> within(a + b, pat),
{
    law_halves_are_held(b, Seq::empty(), b);
    law_halves_are_held(a, b, b);
    assert forall|pat: Seq<char>| #[trigger] within(a, pat) implies within(a + b, pat) by {
        law_halves_are_held(a, b, pat);
    }
    assert forall|pat: Seq<char>| #[trigger] within(b, pat) implies within(a + b, pat) by {
        law_halves_are_held(a, b, pat);
    }
}

/// What was put between two texts stands between them in the whole.
pub proof fn law_framed_text_is_held(front: Seq<char>, open: Seq<char>, s: Seq<char>, close: Seq<char>)
    ensures
        within(front + open + s + close, open + s + close),
{
    assert(front + open + s + close =~= front + (open + s + close));
    law_ends_are_held(front, open + s + close);
}

/// Trimming takes the white space off both ends and nothing else.
pub proof fn law_trimming(s: Seq<char>, c: char)
    ensures
        trimmed(s).len() > 0 ==> !is_space(trimmed(s)[0]) && !is_space(trimmed(s).last()),
        s.len() > 0 && !is_space(s[0]) && !is_space(s.last()) ==> trimmed(s) == s,
        is_space(c) ==> trimmed(seq![c] + s) == trimmed(s),
        is_space(c) ==> trimmed(s.push(c)) == trimmed(s),
        trimmed(Seq::empty()).len() == 0,
{
    lemma_trim_start(s);
    lemma_trim_end(trim_start(s));
    let t = trimmed(s);
    if t.len() > 0 {
        assert(t[0] == trim_start(s)[0]);
    }
    if is_space(c) {
        assert((seq![c] + s).subrange(1, s.len() as int + 1) =~= s);
        lemma_trim_start_at_the_end(s, c);
    }
}

proof fn lemma_trim_start(s: Seq<char>)
    ensures
        trim_start(s).len() > 0 ==> !is_space(trim_start(s)[0]),
        s.len() > 0 && !is_space(s[0]) ==> trim_start(s) == s,
    decreases s.len(),
{
    if s.len() > 0 && is_space(s[0]) {
        let rest = s.subrange(1, s.len() as int);
        lemma_trim_start(rest);
    }
}

proof fn lemma_trim_end(s: Seq<char>)
    ensures
        trim_end(s).len() > 0 ==> !is_space(trim_end(s).last()),
        s.len() > 0 && !is_space(s.last()) ==> trim_end(s) == s,
        trim_end(s).len() > 0 ==> s.len() > 0 && trim_end(s)[0] == s[0],
    decreases s.len(),
{
    if s.len() > 0 && is_space(s.last()) {
        lemma_trim_end(s.drop_last());
    }
}

proof fn lemma_trim_start_at_the_end(s: Seq<char>, c: char)
    requires
        is_space(c),
    ensures
        trim_end(trim_start(s.push(c))) == trim_end(trim_start(s)),
    decreases s.len(),
{
    let w = s.push(c);
    if s.len() > 0 && is_space(s[0]) {
        assert(w[0] == s[0]);
        assert(w.subrange(1, w.len() as int) =~= s.subrange(1, s.len() as int).push(c));
        lemma_trim_start_at_the_end(s.subrange(1, s.len() as int), c);
    } else if s.len() > 0 {
        assert(w[0] == s[0]);
        assert(w.drop_last() =~= s);
    } else {
        assert(w.subrange(1, 1) =~= Seq::empty());
        assert(s =~= Seq::empty());
        assert(trim_start(w.subrange(1, w.len() as int)) =~= Seq::empty());
    }
}

/// Lines end with a line feed, which a carriage return may go before; a last line needs none.
pub proof fn law_lines(line: Seq<char>, rest: Seq<char>)
    requires
        !line.contains('\n'),
        line.len() == 0 || line.last() != '\r',
    ensures
        lines(line + seq!['\n'] + rest) == seq![line] + lines(rest),
        line.len() > 0 ==> lines(line) == seq![line],
        lines(Seq::empty()).len() == 0,
{
    law_split_at(line, rest, '\n');
    law_split_alone(line, '\n');
    law_split_join(rest, '\n');
    let q = split(rest, '\n');
    let parts = split(line + seq!['\n'] + rest, '\n');
    assert(parts.drop_last() =~= seq![line] + q.drop_last());
    assert(parts.last() == q.last());
    assert(lines(line + seq!['\n'] + rest) =~= seq![line] + lines(rest));
    assert(split(line, '\n').drop_last() =~= Seq::empty());
    assert(lines(line) =~= if line.len() > 0 {
        seq![line]
    } else {
        Seq::empty()
    });
    assert(lines(Seq::empty()) =~= Seq::empty());
}

/// Letters change their case one by one, and everything else stays.
pub proof fn law_case_of_letters(c: char, k: int)
    requires
        0 <= k < 26,
    ensures
        lower_char((65 + k) as char) == (97 + k) as char,
        upper_char((97 + k) as char) == (65 + k) as char,
        !('A' <= c && c <= 'Z') ==> lower_char(c) == c,
        !('a' <= c && c <= 'z') ==> upper_char(c) == c,
{
}

/// Replacing leaves a text without the pattern as it is, and puts the new text in the place of the
/// pattern.
pub proof fn law_replacing(s: Seq<char>, from: Seq<char>, to: Seq<char>)
    requires
        from.len() > 0,
    ensures
        !within(s, from) ==> replaced(s, from, to) == s,
        replaced(from + s, from, to) == to + replaced(s, from, to),
        replaced(from, from, to) == to,
    decreases s.len(),
{
    let w = from + s;
    assert(w.subrange(0, from.len() as int) =~= from);
    assert(occurs_at(w, from, 0));
    assert(w.subrange(from.len() as int, w.len() as int) =~= s);
    assert(from.subrange(0, from.len() as int) =~= from);
    assert(occurs_at(from, from, 0));
    assert(from.subrange(from.len() as int, from.len() as int) =~= Seq::empty());
    assert(replaced(Seq::empty(), from, to) =~= Seq::empty());
    assert(to + Seq::<char>::empty() =~= to);
    if !within(s, from) && s.len() >= from.len() {
        let rest = s.subrange(1, s.len() as int);
        assert(!occurs_at(s, from, 0));
        if within(rest, from) {
            let i = choose|i: int| occurs_at(rest, from, i);
            assert(s.subrange(i + 1, i + 1 + from.len()) =~= rest.subrange(i, i + from.len()));
            assert(occurs_at(s, from, i + 1));
        }
        law_replacing(rest, from, to);
        assert(seq![s[0]] + rest =~= s);
    }
}

} // verus!
