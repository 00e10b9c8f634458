//! Requests about backups: the names of the files, the statements, and which uploads are taken.

use vstd::prelude::*;

use crate::api;
use crate::api::{bad, ise, ApiError};
use crate::models::Ts;
use crate::text;

verus! {

// ---- statements ----

/// A text with every single quote doubled, as it stands inside an SQL literal.
pub open spec fn doubled(s: Seq<char>) -> Seq<char>
    decreases s.len(),
{
    if s.len() == 0 {
        Seq::empty()
    } else if s.last() == '\'' {
        doubled(s.drop_last()) + seq!['\'', '\'']
    } else {
        doubled(s.drop_last()).push(s.last())
    }
}

/// Doubles the single quotes of a path, so that it can stand inside an SQL literal.
pub fn sql_quote(path: &str) -> (r: String)
    ensures
        r@ == doubled(path@),
{
    let v = text::chars(path);
    let mut r = String::new();
    let mut i: usize = 0;
    while i < v.len()
        invariant
            i <= v@.len(),
            r@ == doubled(v@.take(i as int)),
        decreases v@.len() - i,
    {
        let ghost before = r@;
        assert(v@.take(i + 1).drop_last() =~= v@.take(i as int));
        if v[i] == '\'' {
            r.push('\'');
        }
        r.push(v[i]);
        if v[i] == '\'' {
            assert(r@ =~= before + seq!['\'', '\'']);
        }
        i += 1;
    }
    assert(v@.take(v@.len() as int) =~= v@);
    r
}

/// What an SQL literal with doubled quotes stands for.
pub open spec fn undoubled(s: Seq<char>) -> Seq<char>
    decreases s.len(),
{
    if s.len() == 0 {
        Seq::empty()
    } else if s.len() >= 2 && s.last() == '\'' && s[s.len() - 2] == '\'' {
        undoubled(s.subrange(0, s.len() - 2)).push('\'')
    } else {
        undoubled(s.drop_last()).push(s.last())
    }
}

/// A quoted path stands for the path.
pub proof fn law_quoted_path_reads_back(s: Seq<char>)
    ensures
        undoubled(doubled(s)) == s,
    decreases s.len(),
{
    if s.len() > 0 {
        let rest = s.drop_last();
        law_quoted_path_reads_back(rest);
        let d = doubled(s);
        assert(s =~= rest.push(s.last()));
        if s.last() == '\'' {
            assert(d.subrange(0, d.len() - 2) =~= doubled(rest));
        } else {
            assert(d.drop_last() =~= doubled(rest));
        }
    } else {
        assert(s =~= Seq::empty());
    }
}

/// The statement that copies the database into a file.
pub fn vacuum_statement(path: &str) -> (r: String)
    ensures
        r@ == "VACUUM INTO '"@ + doubled(path@) + "'"@,
{
    let quoted = sql_quote(path);
    let mut s = text::own("VACUUM INTO '");
    s.append(quoted.as_str());
    s.append("'");
    s
}

/// The statement that attaches an uploaded database.
pub fn attach_statement(path: &str) -> (r: String)
    ensures
        r@ == "ATTACH DATABASE '"@ + doubled(path@) + "' AS backup"@,
{
    let quoted = sql_quote(path);
    let mut s = text::own("ATTACH DATABASE '");
    s.append(quoted.as_str());
    s.append("' AS backup");
    s
}

/// The statement that empties a table.
pub open spec fn delete_text(table: Seq<char>) -> Seq<char> {
    "DELETE FROM main.\""@ + table + "\""@
}

/// The statement that fills a table from the attached database.
pub open spec fn insert_text(table: Seq<char>) -> Seq<char> {
    "INSERT INTO main.\""@ + table + "\" SELECT * FROM backup.\""@ + table + "\""@
}

/// The statements that replace tables.
pub open spec fn table_statements(tables: Seq<Seq<char>>) -> Seq<Seq<char>>
    decreases tables.len(),
{
    if tables.len() == 0 {
        Seq::empty()
    } else {
        table_statements(tables.drop_last()).push(delete_text(tables.last())).push(
            insert_text(tables.last()),
        )
    }
}

/// The statements of an import: one transaction that checks references at its end and replaces
/// every table.
pub open spec fn import_statements(tables: Seq<Seq<char>>) -> Seq<Seq<char>> {
    seq!["BEGIN"@, "PRAGMA defer_foreign_keys=ON"@] + table_statements(tables) + seq!["COMMIT"@]
}

fn push_text(out: &mut Vec<String>, s: String)
    ensures
        text::views(final(out)@) == text::views(old(out)@).push(s@),
{
    let ghost before = text::views(out@);
    let ghost view = s@;
    out.push(s);
    assert(text::views(out@) =~= before.push(view));
}

/// The statements that replace every table by that of the attached database, in one transaction.
pub fn replace_all(tables: &Vec<String>) -> (r: Vec<String>)
    ensures
        text::views(r@) == import_statements(text::views(tables@)),
{
    let ghost all = text::views(tables@);
    let mut out: Vec<String> = Vec::new();
    assert(text::views(out@) =~= Seq::<Seq<char>>::empty());
    push_text(&mut out, text::own("BEGIN"));
    push_text(&mut out, text::own("PRAGMA defer_foreign_keys=ON"));
    let ghost head = seq!["BEGIN"@, "PRAGMA defer_foreign_keys=ON"@];
    assert(text::views(out@) =~= head);
    let mut i: usize = 0;
    assert(text::views(out@) =~= head + table_statements(all.take(0)));
    while i < tables.len()
        invariant
            i <= tables@.len(),
            all == text::views(tables@),
            text::views(out@) == head + table_statements(all.take(i as int)),
        decreases tables@.len() - i,
    {
        assert(all.take(i + 1).drop_last() =~= all.take(i as int));
        assert(all.take(i + 1).last() == tables@[i as int]@);
        let mut delete = text::own("DELETE FROM main.\"");
        delete.append(tables[i].as_str());
        delete.append("\"");
        push_text(&mut out, delete);
        let mut insert = text::own("INSERT INTO main.\"");
        insert.append(tables[i].as_str());
        insert.append("\" SELECT * FROM backup.\"");
        insert.append(tables[i].as_str());
        insert.append("\"");
        push_text(&mut out, insert);
        assert(text::views(out@) =~= head + table_statements(all.take(i + 1)));
        i += 1;
    }
    assert(all.take(all.len() as int) =~= all);
    push_text(&mut out, text::own("COMMIT"));
    assert(text::views(out@) =~= import_statements(all));
    out
}

// ---- names ----

/// A file name with a time and a number that sets it apart.
pub open spec fn stamped(prefix: Seq<char>, ts: int, suffix: nat) -> Seq<char> {
    prefix + text::dec(ts) + "-"@ + text::dec_nat(suffix) + ".db"@
}

/// Writes a file name with a time and a number that sets it apart.
pub fn stamped_name(prefix: &str, ts: Ts, suffix: u32) -> (r: String)
    ensures
        r@ == stamped(prefix@, ts as int, suffix as nat),
{
    let time = text::int_text(ts);
    let number = text::nat_text(suffix as u64);
    let mut s = text::own(prefix);
    s.append(time.as_str());
    s.append("-");
    s.append(number.as_str());
    s.append(".db");
    s
}

/// `rand::random`: any number of 32 bits.
#[verifier::external_body]
fn random_suffix() -> u32 {
    rand::random::<u32>()
}

/// The name of a new file: its prefix, the time, and a random number.
pub fn unique_name(prefix: &str, ts: Ts) -> (r: String)
    ensures
        exists|suffix: u32| r@ == #[trigger] stamped(prefix@, ts as int, suffix as nat),
{
    let suffix: u32 = random_suffix();
    let r = stamped_name(prefix, ts, suffix);
    assert(r@ == stamped(prefix@, ts as int, suffix as nat));
    r
}

/// The prefix of a file that an export goes through.
pub const EXPORT_PREFIX: &'static str = ".vigil-export-";

/// The prefix of a file that an upload goes through.
pub const IMPORT_PREFIX: &'static str = ".vigil-import-";

/// The name of the copy that is kept before an import.
pub open spec fn snapshot_text(ts: int) -> Seq<char> {
    "pre-import-"@ + text::dec(ts) + ".db"@
}

/// Names the copy that is kept before an import by the time of the import. Imports of one second
/// share the name, and a copy never overwrites a file: the later one is refused before it changes
/// anything.
pub fn snapshot_name(ts: Ts) -> (r: String)
    ensures
        r@ == snapshot_text(ts as int),
{
    let time = text::int_text(ts);
    let mut s = text::own("pre-import-");
    s.append(time.as_str());
    s.append(".db");
    s
}

/// The header that names a download.
pub fn content_disposition(ts: Ts) -> (r: String)
    ensures
        r@ == "attachment; filename=\"vigil-backup-"@ + text::dec(ts as int) + ".db\""@,
{
    let time = text::int_text(ts);
    let mut s = text::own("attachment; filename=\"vigil-backup-");
    s.append(time.as_str());
    s.append(".db\"");
    s
}

// ---- uploads ----

/// The bytes that a database file starts with.
pub open spec fn magic() -> Seq<u8> {
    seq![83u8, 81, 76, 105, 116, 101, 32, 102, 111, 114, 109, 97, 116, 32, 51, 0]
}

/// `r` is what becomes of an upload.
pub open spec fn judges_upload(body: Seq<u8>, r: Result<(), ApiError>) -> bool {
    &&& r is Ok <==> body.len() >= 16 && body.take(16) == magic()
    &&& r matches Err(e) ==> api::refuses(e, api::BAD_REQUEST, "not a SQLite database"@)
}

/// Refuses an upload that does not start like a database file.
pub fn check_magic(body: &[u8]) -> (r: Result<(), ApiError>)
    ensures
        judges_upload(body@, r),
{
    let expected: [u8; 16] = [83, 81, 76, 105, 116, 101, 32, 102, 111, 114, 109, 97, 116, 32, 51, 0];
    assert(expected@ =~= magic());
    if body.len() < 16 {
        return Err(bad(text::own("not a SQLite database")));
    }
    let mut i: usize = 0;
    while i < 16
        invariant
            i <= 16,
            body@.len() >= 16,
            expected@ == magic(),
            forall|k: int| 0 <= k < i ==> #[trigger] body@[k] == expected@[k],
        decreases 16 - i,
    {
        if body[i] != expected[i] {
            assert(body@.take(16)[i as int] != magic()[i as int]);
            return Err(bad(text::own("not a SQLite database")));
        }
        i += 1;
    }
    assert(body@.take(16) =~= magic());
    Ok(())
}

/// What is wrong with the schema of a backup, if anything.
pub open spec fn version_error(backup: int, current: int) -> Option<Seq<char>> {
    if backup == 0 {
        Some("empty or invalid backup"@)
    } else if backup > current {
        Some(
            "backup is from a newer Vigil version (schema v"@ + text::dec(backup)
                + "); upgrade Vigil first"@,
        )
    } else {
        None
    }
}

/// `r` is what becomes of a backup of a schema: whether it must be migrated, or why it is refused.
pub open spec fn judges_version(backup: int, current: int, r: Result<bool, ApiError>) -> bool {
    match r {
        Ok(migrate) => version_error(backup, current) is None && migrate == (backup < current),
        Err(e) => version_error(backup, current) is Some && api::refuses(
            e,
            api::BAD_REQUEST,
            version_error(backup, current)->0,
        ),
    }
}

/// Decides whether a backup of a schema is taken, and whether it must be migrated first. An empty
/// backup and one of a newer schema are refused.
pub fn check_version(backup_version: i64, current: i64) -> (r: Result<bool, ApiError>)
    ensures
        judges_version(backup_version as int, current as int, r),
{
    if backup_version == 0 {
        return Err(bad(text::own("empty or invalid backup")));
    }
    if backup_version > current {
        let number = text::int_text(backup_version);
        let mut message = text::own("backup is from a newer Vigil version (schema v");
        message.append(number.as_str());
        message.append("); upgrade Vigil first");
        return Err(bad(message));
    }
    Ok(backup_version < current)
}

/// What a backup holds.
#[derive(Clone, Copy, Debug, PartialEq, Eq, Structural)]
pub struct BackupInfo {
    pub schema_version: i64,
    pub db_size_bytes: i64,
    pub generated_at: i64,
    pub counts: BackupCounts,
}

/// How many rows a backup holds.
#[derive(Clone, Copy, Debug, PartialEq, Eq, Structural)]
pub struct BackupCounts {
    pub monitors: i64,
    pub incidents: i64,
    pub checks: i64,
    pub reports: i64,
    pub channels: i64,
}

/// What an import did: the rows of each table after it, and the copy that was kept.
#[derive(Clone, Debug)]
pub struct ImportResult {
    pub ok: bool,
    pub schema_version: i64,
    pub backup_version: i64,
    pub migrated: bool,
    pub pre_import_snapshot: String,
    pub tables: Vec<(String, i64)>,
}

// ---- the course of an import ----

/// What an import does next.
#[derive(Clone, Copy, Debug, PartialEq, Eq, Structural)]
pub enum Phase {
    /// Write the upload to a file.
    Write,
    /// Read the schema version of the file.
    Validate,
    /// Bring the file to the current schema.
    Migrate,
    /// Copy the live data to a file that is kept.
    Snapshot,
    /// List the tables of the live data.
    List,
    /// Attach the file.
    Attach,
    /// Replace the tables.
    Replace,
    /// Detach the file.
    Detach,
    /// Count the rows of the tables.
    Count,
    /// Remove the file.
    Cleanup,
    /// Have the scheduler read the monitors anew.
    Reseed,
    /// Answer.
    Finish,
}

/// What came of a phase.
#[derive(Clone, Debug)]
pub enum ImportEvent {
    /// It succeeded.
    Done,
    /// It failed with a message.
    Failed(String),
    /// The file could not be opened at all.
    NotOpened(String),
    /// The file is no database.
    NotADatabase,
    /// The file has no schema version.
    NoVersion,
    /// The schema version of the file.
    Version(i64),
    /// The path of the file is no text.
    NoPath,
    /// The tables.
    Tables(Vec<String>),
    /// The rows of each table.
    Counts(Vec<(String, i64)>),
}

/// An import under way.
#[derive(Clone, Debug)]
pub struct Import {
    pub phase: Phase,
    pub started_at: Ts,
    pub current: i64,
    pub backup_version: i64,
    pub migrated: bool,
    /// The name of the copy of the live data.
    pub snapshot: String,
    /// The copy of the live data has been made.
    pub snapshot_taken: bool,
    /// The live data has been replaced.
    pub replaced: bool,
    pub tables: Vec<String>,
    pub counts: Vec<(String, i64)>,
    pub error: Option<ApiError>,
}

/// An event can come of a phase.
pub open spec fn fits(phase: Phase, event: ImportEvent) -> bool {
    match phase {
        Phase::Write | Phase::Snapshot | Phase::Attach | Phase::Replace => event is Done
            || event is Failed,
        Phase::Validate => event is NotOpened || event is NotADatabase || event is NoVersion
            || event is Version,
        Phase::Migrate => event is Done || event is Failed || event is NoPath,
        Phase::List => event is Tables || event is Failed,
        Phase::Count => event is Counts,
        Phase::Detach | Phase::Cleanup | Phase::Reseed => event is Done,
        Phase::Finish => false,
    }
}

/// How an import is refused after an event, if it is.
pub open spec fn refusal(phase: Phase, current: i64, event: ImportEvent) -> Option<(u16, Seq<char>)> {
    match (phase, event) {
        (Phase::Write, ImportEvent::Failed(e)) => Some(
            (api::INTERNAL_ERROR, "write upload: "@ + e@),
        ),
        (Phase::Validate, ImportEvent::NotOpened(e)) => Some(
            (api::BAD_REQUEST, "open backup: "@ + e@),
        ),
        (Phase::Validate, ImportEvent::NotADatabase) => Some(
            (api::BAD_REQUEST, "not a valid database"@),
        ),
        (Phase::Validate, ImportEvent::NoVersion) => Some(
            (api::BAD_REQUEST, "not a Vigil backup (no schema_migrations)"@),
        ),
        (Phase::Validate, ImportEvent::Version(v)) => match version_error(
            v as int,
            current as int,
        ) {
            Some(e) => Some((api::BAD_REQUEST, e)),
            None => None,
        },
        (Phase::Migrate, ImportEvent::NoPath) => Some(
            (api::INTERNAL_ERROR, "non-UTF-8 import path"@),
        ),
        (Phase::Migrate, ImportEvent::Failed(e)) => Some(
            (api::INTERNAL_ERROR, "migrate backup: "@ + e@),
        ),
        (Phase::Snapshot, ImportEvent::Failed(e)) => Some(
            (api::INTERNAL_ERROR, "pre-import snapshot: "@ + e@),
        ),
        (Phase::List, ImportEvent::Failed(e)) => Some((api::INTERNAL_ERROR, e@)),
        (Phase::Attach, ImportEvent::Failed(e)) => Some(
            (api::INTERNAL_ERROR, "attach backup: "@ + e@),
        ),
        (Phase::Replace, ImportEvent::Failed(e)) => Some(
            (api::INTERNAL_ERROR, "import failed, rolled back (no data changed): "@ + e@),
        ),
        _ => None,
    }
}

/// What an import does after an event. One that is refused removes its file; one that had the file
/// attached detaches it first.
pub open spec fn next_phase(run: Import, event: ImportEvent) -> Phase {
    if refusal(run.phase, run.current, event) is Some {
        if run.phase == Phase::Replace {
            Phase::Detach
        } else {
            Phase::Cleanup
        }
    } else {
        match run.phase {
            Phase::Write => Phase::Validate,
            Phase::Validate => if event is Version && event->Version_0 < run.current {
                Phase::Migrate
            } else {
                Phase::Snapshot
            },
            Phase::Migrate => Phase::Snapshot,
            Phase::Snapshot => Phase::List,
            Phase::List => Phase::Attach,
            Phase::Attach => Phase::Replace,
            Phase::Replace => Phase::Detach,
            Phase::Detach => if run.error is Some {
                Phase::Cleanup
            } else {
                Phase::Count
            },
            Phase::Count => Phase::Cleanup,
            Phase::Cleanup => if run.error is Some {
                Phase::Finish
            } else {
                Phase::Reseed
            },
            Phase::Reseed => Phase::Finish,
            Phase::Finish => Phase::Finish,
        }
    }
}

/// `e` is the error of an import after a phase: a new one, or the one that it had.
pub open spec fn keeps_error(
    e: Option<ApiError>,
    had: Option<ApiError>,
    new: Option<(u16, Seq<char>)>,
) -> bool {
    match new {
        Some(r) => e is Some && api::refuses(e->0, r.0, r.1),
        None => e == had,
    }
}

/// `next` is an import after an event.
pub open spec fn follows(run: Import, event: ImportEvent, next: Import) -> bool {
    let refused = refusal(run.phase, run.current, event);
    &&& next.phase == next_phase(run, event)
    &&& keeps_error(next.error, run.error, refused)
    &&& next.started_at == run.started_at
    &&& next.current == run.current
    &&& next.snapshot == run.snapshot
    &&& next.backup_version == (if run.phase == Phase::Validate && event is Version {
        event->Version_0
    } else {
        run.backup_version
    })
    &&& next.migrated == (if run.phase == Phase::Validate && refused is None {
        event is Version && event->Version_0 < run.current
    } else {
        run.migrated
    })
    &&& next.snapshot_taken == (run.snapshot_taken || (run.phase == Phase::Snapshot && refused is None))
    &&& next.replaced == (run.replaced || (run.phase == Phase::Replace && refused is None))
    &&& next.tables == (match (run.phase, event) {
        (Phase::List, ImportEvent::Tables(t)) => t,
        _ => run.tables,
    })
    &&& next.counts == (match (run.phase, event) {
        (Phase::Count, ImportEvent::Counts(c)) => c,
        _ => run.counts,
    })
}

fn prefixed(prefix: &str, e: &String) -> (r: String)
    ensures
        r@ == prefix@ + e@,
{
    let mut s = text::own(prefix);
    s.append(e.as_str());
    s
}

fn refuse(phase: Phase, current: i64, event: &ImportEvent) -> (r: Option<ApiError>)
    ensures
        r is Some <==> refusal(phase, current, *event) is Some,
        r matches Some(e) ==> api::refuses(
            e,
            (refusal(phase, current, *event)->0).0,
            (refusal(phase, current, *event)->0).1,
        ),
{
    match (phase, event) {
        (Phase::Write, ImportEvent::Failed(e)) => Some(ise(prefixed("write upload: ", e))),
        (Phase::Validate, ImportEvent::NotOpened(e)) => Some(bad(prefixed("open backup: ", e))),
        (Phase::Validate, ImportEvent::NotADatabase) => Some(
            bad(text::own("not a valid database")),
        ),
        (Phase::Validate, ImportEvent::NoVersion) => Some(
            bad(text::own("not a Vigil backup (no schema_migrations)")),
        ),
        (Phase::Validate, ImportEvent::Version(v)) => match check_version(*v, current) {
            Ok(_) => None,
            Err(e) => Some(e),
        },
        (Phase::Migrate, ImportEvent::NoPath) => Some(ise(text::own("non-UTF-8 import path"))),
        (Phase::Migrate, ImportEvent::Failed(e)) => Some(ise(prefixed("migrate backup: ", e))),
        (Phase::Snapshot, ImportEvent::Failed(e)) => Some(
            ise(prefixed("pre-import snapshot: ", e)),
        ),
        (Phase::List, ImportEvent::Failed(e)) => Some(ise(text::own(e.as_str()))),
        (Phase::Attach, ImportEvent::Failed(e)) => Some(ise(prefixed("attach backup: ", e))),
        (Phase::Replace, ImportEvent::Failed(e)) => Some(
            ise(prefixed("import failed, rolled back (no data changed): ", e)),
        ),
        _ => None,
    }
}

/// `r` is the import of an upload, at its start, or why there is none.
pub open spec fn starts(body: Seq<u8>, current: i64, ts: Ts, r: Result<Import, ApiError>) -> bool {
    &&& r is Ok <==> body.len() >= 16 && body.take(16) == magic()
    &&& r matches Err(e) ==> api::refuses(e, api::BAD_REQUEST, "not a SQLite database"@)
    &&& r matches Ok(run) ==> run.wf() && run.phase == Phase::Write && run.current == current
        && run.started_at == ts && run.snapshot@ == snapshot_text(ts as int) && run.backup_version == 0
        && !run.migrated && !run.snapshot_taken && !run.replaced && run.tables@.len() == 0
        && run.counts@.len() == 0 && run.error is None
}

/// `r` is the answer of a finished import.
pub open spec fn is_answer(run: Import, r: Result<ImportResult, ApiError>) -> bool {
    &&& r is Ok <==> run.replaced
    &&& r matches Ok(done) ==> done.ok && done.schema_version == run.current && done.backup_version
        == run.backup_version && done.migrated == run.migrated && done.pre_import_snapshot@
        == snapshot_text(run.started_at as int) && done.tables == run.counts
    &&& r matches Err(e) ==> run.error == Some(e)
}

impl Import {
    /// What holds of every import under way: data is replaced only where a copy was kept, only
    /// where the import goes well, and never before the file was accepted.
    pub open spec fn wf(self) -> bool {
        &&& self.snapshot@ == snapshot_text(self.started_at as int)
        &&& self.replaced ==> self.snapshot_taken && self.error is None
        &&& (self.phase == Phase::List || self.phase == Phase::Attach || self.phase
            == Phase::Replace) ==> self.snapshot_taken && self.error is None && !self.replaced
        &&& (self.phase == Phase::Write || self.phase == Phase::Validate || self.phase
            == Phase::Migrate || self.phase == Phase::Snapshot) ==> !self.snapshot_taken
            && !self.replaced && self.error is None
        &&& (self.phase == Phase::Count || self.phase == Phase::Reseed) ==> self.replaced
        &&& (self.phase == Phase::Detach || self.phase == Phase::Cleanup || self.phase
            == Phase::Finish) ==> (self.replaced <==> self.error is None)
        &&& self.snapshot_taken ==> version_error(self.backup_version as int, self.current as int)
            is None && self.migrated == (self.backup_version < self.current)
        &&& (self.phase == Phase::Migrate || self.phase == Phase::Snapshot) ==> version_error(
            self.backup_version as int,
            self.current as int,
        ) is None && self.migrated == (self.backup_version < self.current)
    }

    /// An import, at `ts`, of an upload that starts like a database file. The copy of the live data
    /// goes by the time of the import.
    pub fn start(body: &[u8], current: i64, ts: Ts) -> (r: Result<Import, ApiError>)
        ensures
            starts(body@, current, ts, r),
    {
        match check_magic(body) {
            Err(e) => Err(e),
            Ok(_) => Ok(
                Import {
                    phase: Phase::Write,
                    started_at: ts,
                    current,
                    backup_version: 0,
                    migrated: false,
                    snapshot: snapshot_name(ts),
                    snapshot_taken: false,
                    replaced: false,
                    tables: Vec::new(),
                    counts: Vec::new(),
                    error: None,
                },
            ),
        }
    }

    /// Takes what came of the current phase, and decides what follows.
    pub fn on_event(&mut self, event: ImportEvent)
        requires
            old(self).wf(),
            fits(old(self).phase, event),
        ensures
            follows(*old(self), event, *final(self)),
            final(self).wf(),
    {
        let phase = self.phase;
        if let Some(e) = refuse(phase, self.current, &event) {
            if let ImportEvent::Version(v) = event {
                if phase == Phase::Validate {
                    self.backup_version = v;
                }
            }
            self.error = Some(e);
            self.phase = if phase == Phase::Replace {
                Phase::Detach
            } else {
                Phase::Cleanup
            };
            return;
        }
        match phase {
            Phase::Write => {
                self.phase = Phase::Validate;
            },
            Phase::Validate => {
                if let ImportEvent::Version(v) = event {
                    self.backup_version = v;
                    self.migrated = v < self.current;
                }
                self.phase = if self.migrated {
                    Phase::Migrate
                } else {
                    Phase::Snapshot
                };
            },
            Phase::Migrate => {
                self.phase = Phase::Snapshot;
            },
            Phase::Snapshot => {
                self.snapshot_taken = true;
                self.phase = Phase::List;
            },
            Phase::List => {
                if let ImportEvent::Tables(t) = event {
                    self.tables = t;
                }
                self.phase = Phase::Attach;
            },
            Phase::Attach => {
                self.phase = Phase::Replace;
            },
            Phase::Replace => {
                self.replaced = true;
                self.phase = Phase::Detach;
            },
            Phase::Detach => {
                self.phase = if self.error.is_some() {
                    Phase::Cleanup
                } else {
                    Phase::Count
                };
            },
            Phase::Count => {
                if let ImportEvent::Counts(c) = event {
                    self.counts = c;
                }
                self.phase = Phase::Cleanup;
            },
            Phase::Cleanup => {
                self.phase = if self.error.is_some() {
                    Phase::Finish
                } else {
                    Phase::Reseed
                };
            },
            Phase::Reseed => {
                self.phase = Phase::Finish;
            },
            Phase::Finish => {},
        }
    }

    /// The answer of a finished import: what it did, or why it was refused.
    pub fn answer(self) -> (r: Result<ImportResult, ApiError>)
        requires
            self.wf(),
            self.phase == Phase::Finish,
        ensures
            is_answer(self, r),
    {
        match self.error {
            Some(e) => Err(e),
            None => Ok(
                ImportResult {
                    ok: true,
                    schema_version: self.current,
                    backup_version: self.backup_version,
                    migrated: self.migrated,
                    pre_import_snapshot: self.snapshot,
                    tables: self.counts,
                },
            ),
        }
    }
}

/// The file of an upload is always removed: an import answers only after the removal, or after the
/// step that follows it where the import went well.
pub proof fn law_uploads_are_always_removed(run: Import, event: ImportEvent, next: Import)
    requires
        run.wf(),
        fits(run.phase, event),
        follows(run, event, next),
        next.phase == Phase::Finish || next.phase == Phase::Reseed,
    ensures
        run.phase == Phase::Cleanup || run.phase == Phase::Reseed,
{
}

/// Live data is replaced only by an import that kept a copy of it and whose backup was accepted,
/// and a refused import leaves it as it was.
pub proof fn law_refused_imports_change_nothing(run: Import, event: ImportEvent, next: Import)
    requires
        run.wf(),
        fits(run.phase, event),
        follows(run, event, next),
    ensures
        next.wf(),
        next.error is Some ==> !next.replaced,
        next.replaced && !run.replaced ==> run.phase == Phase::Replace && run.snapshot_taken
            && event is Done && version_error(run.backup_version as int, run.current as int) is None,
{
}

/// How many phases an import has left at most.
pub open spec fn left(phase: Phase) -> nat {
    match phase {
        Phase::Write => 11,
        Phase::Validate => 10,
        Phase::Migrate => 9,
        Phase::Snapshot => 8,
        Phase::List => 7,
        Phase::Attach => 6,
        Phase::Replace => 5,
        Phase::Detach => 4,
        Phase::Count => 3,
        Phase::Cleanup => 2,
        Phase::Reseed => 1,
        Phase::Finish => 0,
    }
}

/// Every import comes to an end.
pub proof fn law_imports_end(run: Import, event: ImportEvent)
    requires
        fits(run.phase, event),
    ensures
        left(next_phase(run, event)) < left(run.phase),
{
}

/// Every table is emptied and filled once, in between the start and the end of one transaction.
pub proof fn law_import_is_one_transaction(tables: Seq<Seq<char>>, i: int)
    requires
        0 <= i < tables.len(),
    ensures
        import_statements(tables).len() == 2 * tables.len() + 3,
        import_statements(tables)[0] == "BEGIN"@,
        import_statements(tables).last() == "COMMIT"@,
        import_statements(tables)[2 + 2 * i] == delete_text(tables[i]),
        import_statements(tables)[3 + 2 * i] == insert_text(tables[i]),
{
    lemma_table_statements(tables, i);
}

proof fn lemma_table_statements(tables: Seq<Seq<char>>, i: int)
    requires
        0 <= i < tables.len(),
    ensures
        table_statements(tables).len() == 2 * tables.len(),
        table_statements(tables)[2 * i] == delete_text(tables[i]),
        table_statements(tables)[2 * i + 1] == insert_text(tables[i]),
    decreases tables.len(),
{
    let rest = tables.drop_last();
    if rest.len() > 0 {
        lemma_table_statements(
            rest,
            if i < rest.len() {
                i
            } else {
                0
            },
        );
    } else {
        assert(table_statements(rest) =~= Seq::empty());
    }
}

/// A backup is taken exactly where it has a schema that is not newer than the program's, and is
/// migrated exactly where its schema is older.
pub proof fn law_which_backups_are_taken(backup: int, current: int, r: Result<bool, ApiError>)
    requires
        judges_version(backup, current, r),
    ensures
        r is Ok <==> backup != 0 && backup <= current,
        r matches Ok(migrate) ==> (migrate <==> backup < current),
        r matches Err(e) ==> e.status == 400,
        r matches Err(e) ==> (backup == 0 ==> e.message@ == "empty or invalid backup"@),
        r matches Err(e) ==> (backup != 0 ==> e.message@
            == "backup is from a newer Vigil version (schema v"@ + text::dec(backup)
            + "); upgrade Vigil first"@),
{
}

/// An import that goes well writes, validates, migrates what is older, keeps a copy, lists, attaches,
/// replaces, detaches, counts, cleans up and reseeds, in this order.
pub proof fn law_course_of_an_import(run: Import, event: ImportEvent, next: Import)
    requires
        run.wf(),
        run.error is None,
        fits(run.phase, event),
        follows(run, event, next),
        !(event is Failed || event is NotOpened || event is NotADatabase || event is NoVersion
            || event is NoPath),
        event matches ImportEvent::Version(v) ==> v != 0 && v <= run.current,
    ensures
        next.error is None,
        run.phase == Phase::Write ==> next.phase == Phase::Validate,
        run.phase == Phase::Validate ==> (event matches ImportEvent::Version(v) && next.backup_version
            == v && (v < run.current ==> next.phase == Phase::Migrate && next.migrated) && (v
            == run.current ==> next.phase == Phase::Snapshot && !next.migrated)),
        run.phase == Phase::Migrate ==> next.phase == Phase::Snapshot,
        run.phase == Phase::Snapshot ==> next.phase == Phase::List && next.snapshot_taken,
        run.phase == Phase::List ==> next.phase == Phase::Attach && (event matches ImportEvent::Tables(
            t,
        ) && next.tables == t),
        run.phase == Phase::Attach ==> next.phase == Phase::Replace && next.tables == run.tables,
        run.phase == Phase::Replace ==> next.phase == Phase::Detach && next.replaced,
        run.phase == Phase::Detach ==> next.phase == Phase::Count,
        run.phase == Phase::Count ==> next.phase == Phase::Cleanup && (event matches
            ImportEvent::Counts(c) && next.counts == c),
        run.phase == Phase::Cleanup ==> next.phase == Phase::Reseed && next.counts == run.counts,
        run.phase == Phase::Reseed ==> next.phase == Phase::Finish && next.counts == run.counts,
        run.phase != Phase::Validate ==> next.backup_version == run.backup_version && next.migrated
            == run.migrated,
        next.started_at == run.started_at && next.current == run.current,
{
}

/// A phase that fails refuses the import with what went wrong, and the import goes on to undo what it
/// set up. What the upload is at fault for is a bad request, and the rest a failure on this side.
pub proof fn law_failed_phases_refuse(run: Import, event: ImportEvent, next: Import)
    requires
        run.wf(),
        fits(run.phase, event),
        follows(run, event, next),
        event is Failed || event is NotOpened || event is NotADatabase || event is NoVersion
            || event is NoPath || (event matches ImportEvent::Version(v) && (v == 0 || v > run.current)),
    ensures
        next.error is Some,
        !next.replaced,
        run.phase == Phase::Replace ==> next.phase == Phase::Detach,
        run.phase != Phase::Replace ==> next.phase == Phase::Cleanup,
        (next.error->0).status == (if run.phase == Phase::Validate {
            400int
        } else {
            500
        }),
        event matches ImportEvent::Failed(e) ==> text::within((next.error->0).message@, e@),
        event matches ImportEvent::NotOpened(e) ==> (next.error->0).message@ == "open backup: "@ + e@,
        event is NotADatabase ==> (next.error->0).message@ == "not a valid database"@,
        event is NoVersion ==> (next.error->0).message@ == "not a Vigil backup (no schema_migrations)"@,
        event is NoPath ==> (next.error->0).message@ == "non-UTF-8 import path"@,
{
    if event is Failed {
        let e = event->Failed_0@;
        text::law_ends_are_held(Seq::empty(), e);
        assert(Seq::<char>::empty() + e =~= e);
        text::law_ends_are_held("write upload: "@, e);
        text::law_ends_are_held("migrate backup: "@, e);
        text::law_ends_are_held("pre-import snapshot: "@, e);
        text::law_ends_are_held("attach backup: "@, e);
        text::law_ends_are_held("import failed, rolled back (no data changed): "@, e);
    }
}

/// The answer tells what was done: the schema that is in use, that of the backup, whether it was
/// migrated, the copy that was kept and the rows that were counted; a refused import answers why.
pub proof fn law_import_answers_what_it_did(run: Import, r: Result<ImportResult, ApiError>)
    requires
        run.wf(),
        run.phase == Phase::Finish,
        is_answer(run, r),
    ensures
        r is Ok <==> run.error is None,
        r is Ok <==> run.replaced,
        r matches Ok(done) ==> done.ok && done.schema_version == run.current && done.backup_version
            == run.backup_version,
        r matches Ok(done) ==> (done.migrated <==> done.backup_version < done.schema_version),
        r matches Ok(done) ==> done.pre_import_snapshot@ == "pre-import-"@ + text::dec(
            run.started_at as int,
        ) + ".db"@,
        r matches Ok(done) ==> done.tables@ == run.counts@,
        r matches Err(e) ==> run.error == Some(e),
{
}

/// A table is replaced by emptying it and filling it from the table of the same name in the backup.
pub proof fn law_tables_are_replaced_by_name(table: Seq<char>)
    ensures
        delete_text(table) == "DELETE FROM main.\""@ + table + "\""@,
        insert_text(table) == "INSERT INTO main.\""@ + table + "\" SELECT * FROM backup.\""@ + table
            + "\""@,
{
}

/// Quoting doubles single quotes and changes nothing else.
pub proof fn law_quoting_is_letter_by_letter(s: Seq<char>, c: char)
    ensures
        doubled(Seq::empty()).len() == 0,
        c == '\'' ==> doubled(s.push(c)) == doubled(s).push('\'').push('\''),
        c != '\'' ==> doubled(s.push(c)) == doubled(s).push(c),
{
    assert(s.push(c).drop_last() =~= s);
    assert(doubled(s) + seq!['\'', '\''] =~= doubled(s).push('\'').push('\''));
}

/// An upload is looked at further exactly where it starts with the sixteen bytes of a database file,
/// and is a bad request otherwise. Nothing has been done when an import starts.
pub proof fn law_uploads_start_like_databases(
    body: Seq<u8>,
    judged: Result<(), ApiError>,
    current: i64,
    ts: Ts,
    r: Result<Import, ApiError>,
)
    requires
        judges_upload(body, judged),
        starts(body, current, ts, r),
    ensures
        r is Ok <==> judged is Ok,
        judged is Ok <==> body.len() >= 16 && forall|k: int|
            0 <= k < 16 ==> #[trigger] body[k] == "SQLite format 3\0"@[k] as u8,
        judged matches Err(e) ==> e.status == 400 && e.message@ == "not a SQLite database"@,
        r matches Err(e) ==> e.status == 400 && e.message@ == "not a SQLite database"@,
        r matches Ok(run) ==> run.phase == Phase::Write && !run.snapshot_taken && !run.replaced
            && run.error is None && run.current == current && run.started_at == ts,
{
    reveal_strlit("SQLite format 3\0");
    if body.len() >= 16 {
        let t = body.take(16);
        assert forall|k: int| 0 <= k < 16 implies magic()[k] == "SQLite format 3\0"@[k] as u8 by {}
        if t == magic() {
            assert forall|k: int| 0 <= k < 16 implies #[trigger] body[k] == magic()[k] by {
                assert(t[k] == body[k]);
            }
        }
        if forall|k: int| 0 <= k < 16 ==> #[trigger] body[k] == "SQLite format 3\0"@[k] as u8 {
            assert forall|k: int| 0 <= k < 16 implies t[k] == magic()[k] by {
                assert(t[k] == body[k]);
            }
            assert(t =~= magic());
        }
    }
}

/// A new file is named by what it is for, the time and a number, and two such names of one purpose
/// and time differ only in the number.
pub proof fn law_files_are_named_by_their_purpose(prefix: Seq<char>, ts: int, suffix: nat)
    ensures
        stamped(prefix, ts, suffix) == prefix + text::dec(ts) + "-"@ + text::dec(suffix as int) + ".db"@,
        snapshot_text(ts) == "pre-import-"@ + text::dec(ts) + ".db"@,
{
}

} // verus!
