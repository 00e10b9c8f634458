//! Migrations: the statements of a script, and which scripts are due.

use vstd::prelude::*;

use crate::text;

verus! {

/// Where a comment starts in a line; its length where it has none.
pub open spec fn comment_start(line: Seq<char>) -> int
    decreases line.len(),
{
    if line.len() == 0 {
        0
    } else if line.len() >= 2 && line[0] == '-' && line[1] == '-' {
        0
    } else {
        1 + comment_start(line.subrange(1, line.len() as int))
    }
}

/// A line without its comment.
pub open spec fn uncommented(line: Seq<char>) -> Seq<char> {
    line.subrange(0, comment_start(line))
}

/// A script without its comments.
pub open spec fn stripped(sql: Seq<char>) -> Seq<char> {
    text::joined(
        text::lines(sql).map_values(|l: Seq<char>| uncommented(l)),
        "\n"@,
    )
}

/// The pieces of a list that are more than white space, without the white space round them.
pub open spec fn solid(parts: Seq<Seq<char>>) -> Seq<Seq<char>>
    decreases parts.len(),
{
    if parts.len() == 0 {
        Seq::empty()
    } else if text::trimmed(parts.last()).len() == 0 {
        solid(parts.drop_last())
    } else {
        solid(parts.drop_last()).push(text::trimmed(parts.last()))
    }
}

/// The statements of a script.
pub open spec fn statements(sql: Seq<char>) -> Seq<Seq<char>> {
    solid(text::split(stripped(sql), ';'))
}

proof fn lemma_comment_start(line: Seq<char>)
    ensures
        0 <= comment_start(line) <= line.len(),
    decreases line.len(),
{
    if line.len() > 0 && !(line.len() >= 2 && line[0] == '-' && line[1] == '-') {
        lemma_comment_start(line.subrange(1, line.len() as int));
    }
}

fn strip_comment(line: &str) -> (r: String)
    ensures
        r@ == uncommented(line@),
{
    let v = text::chars(line);
    let n: usize = v.len();
    let mut i: usize = 0;
    assert(v@.subrange(0, n as int) =~= v@);
    proof {
        lemma_comment_start(line@);
    }
    while i < n && !(n - i >= 2 && v[i] == '-' && v[i + 1] == '-')
        invariant
            i <= n,
            n == v@.len(),
            comment_start(v@) == i + comment_start(v@.subrange(i as int, n as int)),
        decreases n - i,
    {
        assert(v@.subrange(i as int, n as int).subrange(1, n - i) =~= v@.subrange(i + 1, n as int));
        i += 1;
    }
    assert(comment_start(v@.subrange(i as int, n as int)) == 0);
    let r = text::collect(&v, 0, i);
    r
}

/// Splits a script into its statements: comments from `--` to the end of a line are left out, and
/// statements end with a semicolon.
pub fn split_statements(sql: &str) -> (r: Vec<String>)
    ensures
        text::views(r@) == statements(sql@),
{
    let lines = text::split_lines(sql);
    let ghost all = text::lines(sql@);
    let ghost bare = all.map_values(|l: Seq<char>| uncommented(l));
    let mut kept: Vec<String> = Vec::new();
    let mut i: usize = 0;
    assert(text::views(kept@) =~= bare.take(0));
    while i < lines.len()
        invariant
            i <= lines@.len(),
            text::views(lines@) == all,
            bare == all.map_values(|l: Seq<char>| uncommented(l)),
            text::views(kept@) == bare.take(i as int),
        decreases lines@.len() - i,
    {
        let ghost before = text::views(kept@);
        let l = strip_comment(lines[i].as_str());
        let ghost view = l@;
        kept.push(l);
        assert(text::views(kept@) =~= before.push(view));
        assert(all[i as int] == lines@[i as int]@);
        assert(bare.take(i + 1) =~= before.push(view));
        i += 1;
    }
    assert(bare.take(bare.len() as int) =~= bare);
    let whole = text::join(&kept, "\n");
    let parts = text::split_on(whole.as_str(), ';');
    let ghost pieces = text::split(whole@, ';');
    let mut out: Vec<String> = Vec::new();
    let mut k: usize = 0;
    assert(text::views(out@) =~= solid(pieces.take(0)));
    while k < parts.len()
        invariant
            k <= parts@.len(),
            text::views(parts@) == pieces,
            text::views(out@) == solid(pieces.take(k as int)),
        decreases parts@.len() - k,
    {
        assert(pieces.take(k + 1).drop_last() =~= pieces.take(k as int));
        assert(pieces.take(k + 1).last() == parts@[k as int]@);
        let t = text::trim(parts[k].as_str());
        if !t.as_str().is_empty() {
            let ghost before = text::views(out@);
            let ghost view = t@;
            out.push(t);
            assert(text::views(out@) =~= before.push(view));
        }
        k += 1;
    }
    assert(pieces.take(pieces.len() as int) =~= pieces);
    out
}

/// The versions that are not applied yet, in order.
pub open spec fn due(versions: Seq<i64>, applied: Seq<i64>) -> Seq<i64>
    decreases versions.len(),
{
    if versions.len() == 0 {
        Seq::empty()
    } else if applied.contains(versions.last()) {
        due(versions.drop_last(), applied)
    } else {
        due(versions.drop_last(), applied).push(versions.last())
    }
}

fn is_applied(applied: &Vec<i64>, version: i64) -> (r: bool)
    ensures
        r == applied@.contains(version),
{
    let mut i: usize = 0;
    while i < applied.len()
        invariant
            i <= applied@.len(),
            forall|k: int| 0 <= k < i ==> applied@[k] != version,
        decreases applied@.len() - i,
    {
        if applied[i] == version {
            return true;
        }
        i += 1;
    }
    false
}

/// The migrations to apply: every version that is not recorded, in the order of the list.
pub fn run_migrations(versions: &Vec<i64>, applied: &Vec<i64>) -> (r: Vec<i64>)
    ensures
        r@ == due(versions@, applied@),
{
    let mut r: Vec<i64> = Vec::new();
    let mut i: usize = 0;
    while i < versions.len()
        invariant
            i <= versions@.len(),
            r@ == due(versions@.take(i as int), applied@),
        decreases versions@.len() - i,
    {
        assert(versions@.take(i + 1).drop_last() =~= versions@.take(i as int));
        if !is_applied(applied, versions[i]) {
            r.push(versions[i]);
        }
        i += 1;
    }
    assert(versions@.take(versions@.len() as int) =~= versions@);
    r
}

/// Once every version is recorded, nothing is left to apply.
pub proof fn law_migrations_apply_once(versions: Seq<i64>, applied: Seq<i64>)
    requires
        forall|i: int| 0 <= i < versions.len() ==> applied.contains(#[trigger] versions[i]),
    ensures
        due(versions, applied) =~= Seq::empty(),
    decreases versions.len(),
{
    if versions.len() > 0 {
        assert(applied.contains(versions[versions.len() - 1]));
        assert forall|i: int| 0 <= i < versions.drop_last().len() implies applied.contains(
            #[trigger] versions.drop_last()[i],
        ) by {
            assert(applied.contains(versions[i]));
        }
        law_migrations_apply_once(versions.drop_last(), applied);
    }
}

/// The version of the schema that this program works with.
pub const SCHEMA_VERSION: i64 = 2;

/// The version of the schema that this program works with.
pub fn current_schema_version() -> (r: i64)
    ensures
        r == SCHEMA_VERSION,
{
    SCHEMA_VERSION
}

/// A comment runs from the first two dashes of a line to its end; a line without them has none.
pub proof fn law_comments_are_left_out(line: Seq<char>, k: int)
    requires
        0 <= k <= line.len(),
        forall|j: int| 0 <= j < k && j + 1 < line.len() ==> !((#[trigger] line[j]) == '-' && line[j + 1] == '-'),
        k < line.len() ==> k + 1 < line.len() && line[k] == '-' && line[k + 1] == '-',
    ensures
        uncommented(line) == line.take(k),
{
    lemma_first_dashes(line, k);
}

proof fn lemma_first_dashes(line: Seq<char>, k: int)
    requires
        0 <= k <= line.len(),
        forall|j: int| 0 <= j < k && j + 1 < line.len() ==> !((#[trigger] line[j]) == '-' && line[j + 1] == '-'),
        k < line.len() ==> k + 1 < line.len() && line[k] == '-' && line[k + 1] == '-',
    ensures
        comment_start(line) == k,
    decreases line.len(),
{
    if k > 0 {
        let rest = line.subrange(1, line.len() as int);
        if line.len() >= 2 {
            assert(!(line[0] == '-' && line[0int + 1] == '-'));
        }
        assert forall|j: int| 0 <= j < k - 1 && j + 1 < rest.len() implies !((#[trigger] rest[j])
            == '-' && rest[j + 1] == '-') by {
            assert(rest[j] == line[j + 1]);
            assert(rest[j + 1] == line[j + 2]);
        }
        lemma_first_dashes(rest, k - 1);
    }
}

/// Each piece between semicolons is a statement, in order and without the white space around it,
/// unless there is nothing else in it.
pub proof fn law_pieces_are_statements(parts: Seq<Seq<char>>, piece: Seq<char>)
    ensures
        solid(Seq::empty()).len() == 0,
        text::trimmed(piece).len() > 0 ==> solid(parts.push(piece)) == solid(parts).push(
            text::trimmed(piece),
        ),
        text::trimmed(piece).len() == 0 ==> solid(parts.push(piece)) == solid(parts),
{
    assert(parts.push(piece).drop_last() =~= parts);
}

/// A version is applied exactly where it is not recorded, in its turn.
pub proof fn law_missing_versions_are_applied(versions: Seq<i64>, more: i64, applied: Seq<i64>)
    ensures
        due(Seq::empty(), applied).len() == 0,
        applied.contains(more) ==> due(versions.push(more), applied) == due(versions, applied),
        !applied.contains(more) ==> due(versions.push(more), applied) == due(versions, applied).push(
            more,
        ),
{
    assert(versions.push(more).drop_last() =~= versions);
}

/// A line of one statement, without a comment, is that statement; statements on one line are parted
/// by their semicolons.
pub proof fn law_statements_end_with_semicolons(line: Seq<char>, first: Seq<char>, second: Seq<char>)
    requires
        line == first + seq![';'] + second,
        !line.contains('\n'),
        line.last() != '\r',
        !first.contains(';'),
        !second.contains(';'),
        text::trimmed(first).len() > 0,
        forall|j: int|
            0 <= j && j + 1 < line.len() ==> !((#[trigger] line[j]) == '-' && line[j + 1] == '-'),
    ensures
        text::trimmed(second).len() > 0 ==> statements(line) == seq![
            text::trimmed(first),
            text::trimmed(second),
        ],
        text::trimmed(second).len() == 0 ==> statements(line) == seq![text::trimmed(first)],
{
    text::law_lines(line, Seq::empty());
    law_comments_are_left_out(line, line.len() as int);
    assert(line.take(line.len() as int) =~= line);
    let kept = text::lines(line).map_values(|l: Seq<char>| uncommented(l));
    assert(kept =~= seq![line]);
    assert(stripped(line) =~= line);
    text::law_split_at(first, second, ';');
    text::law_split_alone(second, ';');
    assert(seq![first] + seq![second] =~= seq![first].push(second));
    assert(seq![first] =~= Seq::<Seq<char>>::empty().push(first));
    law_pieces_are_statements(Seq::empty(), first);
    law_pieces_are_statements(seq![first], second);
    assert(statements(line) =~= if text::trimmed(second).len() > 0 {
        seq![text::trimmed(first), text::trimmed(second)]
    } else {
        seq![text::trimmed(first)]
    });
}

} // verus!
