//! Calls for opening the database, for its file, and for backups.
use vstd::prelude::*;
use crate::config::{ChatEvictionConfig, EvictionConfig};
use crate::database::Database;
use crate::decode::Answer;
use crate::error::{DatabaseError, NoteDeckError};
use crate::laws::calls::answers::integer_of;
use crate::laws::calls::evictions::{dated, evicts, lemma_evicts};
use crate::laws::calls::{any, lemma_sets, sets};
use crate::lifecycle::{Action, BackupStep, Opening, Stage};
use crate::schema::SCHEMA;
use crate::sql::Sql;
use crate::tables::{runs, Matching, Tables};
use crate::text::decimal;
use crate::value::{Cell, Column, Table, Value};

verus! {

/// Whether SQL is just a text, without values.
pub open spec fn says(sql: Sql, text: Seq<char>) -> bool {
    sql.text@ == text && sql.params@.len() == 0
}

/// To open a database by default keeps a million notes and a million messages of
/// each account, of any age, and starts with the connection for writing.
pub proof fn opening_by_default(opening: Opening)
    requires
        call_ensures(Database::open, (), opening),
    ensures
        opening.stage == Stage::OpenWriter,
        opening.notes_eviction.per_account_limit == Some(1_000_000i64),
        opening.notes_eviction.ttl_days is None,
        opening.chat_eviction.per_account_limit == Some(1_000_000i64),
        opening.chat_eviction.ttl_days is None,
{
}

/// To open a database with evictions takes them as they are given. Messages are
/// kept by default where nothing is said of them.
pub proof fn opening_with_evictions(
    notes_eviction: EvictionConfig,
    chat_eviction: ChatEvictionConfig,
    opening: Opening,
    other: Opening,
)
    requires
        call_ensures(Database::open_with_evictions, (notes_eviction, chat_eviction), opening),
        call_ensures(Database::open_with_eviction, (notes_eviction,), other),
    ensures
        opening.stage == Stage::OpenWriter,
        opening.notes_eviction == notes_eviction,
        opening.chat_eviction == chat_eviction,
        other.stage == Stage::OpenWriter,
        other.notes_eviction == notes_eviction,
        other.chat_eviction.per_account_limit == Some(1_000_000i64),
        other.chat_eviction.ttl_days is None,
{
}

/// The configurations keep a million rows of each account by default, of any age.
pub proof fn keeping_by_default(config: EvictionConfig, chat_config: ChatEvictionConfig)
    requires
        call_ensures(<EvictionConfig as Default>::default, (), config),
        call_ensures(<ChatEvictionConfig as Default>::default, (), chat_config),
    ensures
        config.per_account_limit == Some(1_000_000i64),
        config.ttl_days is None,
        chat_config.per_account_limit == Some(1_000_000i64),
        chat_config.ttl_days is None,
{
}

/// What opening commits while it evicts notes leaves of them what its policy for
/// notes allows.
pub proof fn evicting_notes_while_opening(
    opening: Opening,
    now: i64,
    action: Action,
    before: Tables,
    after: Tables,
    changed: Seq<nat>,
    m: Matching,
)
    requires
        opening.stage == Stage::EvictNotes,
        call_ensures(Opening::action, (&opening, now), action),
        action matches Action::Commit(t) ==> runs(
            t.statements.deep_view(),
            before,
            after,
            changed,
            m,
        ),
        dated(before[Table::Notes]),
    ensures
        action is Commit,
        evicts(
            Table::Notes,
            opening.notes_eviction.per_account_limit,
            opening.notes_eviction.ttl_days,
            now as int,
            before,
            after,
        ),
{
    let batch = action->Commit_0@;
    lemma_evicts(
        Table::Notes,
        opening.notes_eviction.per_account_limit,
        opening.notes_eviction.ttl_days,
        now as int,
        batch,
        before,
        after,
        changed,
        m,
    );
}

/// What opening commits while it evicts messages leaves of them what its policy
/// for messages allows.
pub proof fn evicting_messages_while_opening(
    opening: Opening,
    now: i64,
    action: Action,
    before: Tables,
    after: Tables,
    changed: Seq<nat>,
    m: Matching,
)
    requires
        opening.stage == Stage::EvictMessages,
        call_ensures(Opening::action, (&opening, now), action),
        action matches Action::Commit(t) ==> runs(
            t.statements.deep_view(),
            before,
            after,
            changed,
            m,
        ),
        dated(before[Table::Messages]),
    ensures
        action is Commit,
        evicts(
            Table::Messages,
            opening.chat_eviction.per_account_limit,
            opening.chat_eviction.ttl_days,
            now as int,
            before,
            after,
        ),
{
    let batch = action->Commit_0@;
    lemma_evicts(
        Table::Messages,
        opening.chat_eviction.per_account_limit,
        opening.chat_eviction.ttl_days,
        now as int,
        batch,
        before,
        after,
        changed,
        m,
    );
}

/// What opening does at each of its other stages, at any time and by any policy.
pub proof fn acting_while_opening(opening: Opening, now: i64, action: Action)
    requires
        call_ensures(Opening::action, (&opening, now), action),
    ensures
        match opening.stage {
            Stage::OpenWriter => action is OpenWriter,
            Stage::AskFirstMode | Stage::AskVacuumMode | Stage::CheckVacuumMode => action matches
                Action::AskWriter(sql) && says(sql, "PRAGMA auto_vacuum"@),
            Stage::PresetVacuumMode | Stage::SetVacuumMode | Stage::ChangeVacuumMode =>
                action matches Action::RunWriter(sql) && says(
                sql,
                "PRAGMA auto_vacuum=INCREMENTAL;"@,
            ),
            Stage::ConfigureWriter => action matches Action::RunWriter(sql) && says(
                sql,
                "PRAGMA journal_mode=WAL;PRAGMA foreign_keys=ON;PRAGMA synchronous=NORMAL;PRAGMA mmap_size=268435456;PRAGMA cache_size=-16000;PRAGMA temp_store=MEMORY;"@,
            ),
            Stage::RestrictPermissions => action is RestrictPermissions,
            Stage::Vacuum => action matches Action::RunWriter(sql) && says(sql, "VACUUM;"@),
            Stage::Migrate => action matches Action::Migrate(sql) && says(sql, SCHEMA@),
            Stage::AskIndex => action matches Action::AskWriter(sql) && says(
                sql,
                "SELECT (SELECT COUNT(*) FROM notes_fts) = 0 AND (SELECT COUNT(*) FROM notes_cache WHERE text IS NOT NULL) > 0"@,
            ),
            Stage::RebuildIndex => action matches Action::RunWriter(sql) && says(
                sql,
                "INSERT INTO notes_fts(notes_fts) VALUES('rebuild')"@,
            ),
            Stage::OpenReader => action is OpenReader,
            Stage::ConfigureReader => action matches Action::RunReader(sql) && says(
                sql,
                "PRAGMA mmap_size=268435456;PRAGMA cache_size=-8000;PRAGMA temp_store=MEMORY;"@,
            ),
            Stage::EvictNotes | Stage::EvictMessages => action is Commit,
            Stage::ReturnPages => action matches Action::RunWriter(sql) && says(
                sql,
                "PRAGMA incremental_vacuum(1000);"@,
            ),
            Stage::Open => action is Nothing,
        },
{
    if opening.stage == Stage::ReturnPages {
        lemma_pages_returned();
    }
    match action {
        Action::AskWriter(sql) => {
            assert(sql@.params.len() == sql.params@.len());
            assert(sql@.text =~= sql.text@);
        },
        Action::RunWriter(sql) => {
            assert(sql@.params.len() == sql.params@.len());
            assert(sql@.text =~= sql.text@);
        },
        Action::RunReader(sql) => {
            assert(sql@.params.len() == sql.params@.len());
            assert(sql@.text =~= sql.text@);
        },
        Action::Migrate(sql) => {
            assert(sql@.params.len() == sql.params@.len());
            assert(sql@.text =~= sql.text@);
        },
        _ => {},
    }
}

proof fn lemma_pages_returned()
    ensures
        "PRAGMA incremental_vacuum("@ + decimal(1000) + ");"@
            == "PRAGMA incremental_vacuum(1000);"@,
{
    reveal_strlit("PRAGMA incremental_vacuum(");
    reveal_strlit(");");
    reveal_strlit("PRAGMA incremental_vacuum(1000);");
    reveal_with_fuel(decimal, 5);
    assert(decimal(1000) =~= seq!['1', '0', '0', '0']);
    assert("PRAGMA incremental_vacuum("@ + decimal(1000) + ");"@
        =~= "PRAGMA incremental_vacuum(1000);"@);
}

/// Migrating makes the tables with their keys, the indexes, and the full-text index
/// of notes with the triggers by which it follows the notes.
pub proof fn migrating_while_opening(opening: Opening, now: i64, action: Action)
    requires
        opening.stage == Stage::Migrate,
        call_ensures(Opening::action, (&opening, now), action),
    ensures
        action matches Action::Migrate(sql) && says(
            sql,
            "
CREATE TABLE accounts (
    id TEXT NOT NULL PRIMARY KEY,
    host TEXT NOT NULL,
    token TEXT NOT NULL,
    user_id TEXT NOT NULL,
    username TEXT NOT NULL,
    display_name TEXT,
    avatar_url TEXT,
    software TEXT NOT NULL,
    UNIQUE (host, user_id)
);
CREATE TABLE server_detections (
    host TEXT NOT NULL PRIMARY KEY,
    software_name TEXT NOT NULL,
    software_version TEXT NOT NULL,
    software_repository TEXT,
    meta_json TEXT NOT NULL,
    updated_at INTEGER NOT NULL
);
CREATE TABLE notes_cache (
    note_id TEXT NOT NULL,
    account_id TEXT NOT NULL,
    server_host TEXT NOT NULL,
    created_at TEXT NOT NULL,
    text TEXT,
    note_json TEXT NOT NULL,
    cached_at INTEGER NOT NULL,
    timeline_type TEXT NOT NULL,
    uri TEXT,
    PRIMARY KEY (note_id, account_id)
);
CREATE INDEX notes_cache_timeline ON notes_cache (account_id, timeline_type, created_at);
CREATE INDEX notes_cache_uri ON notes_cache (uri) WHERE uri IS NOT NULL;
CREATE VIRTUAL TABLE notes_fts USING fts5(
    text, content='notes_cache', content_rowid='rowid', tokenize='trigram'
);
CREATE TRIGGER notes_fts_insert AFTER INSERT ON notes_cache WHEN new.text IS NOT NULL BEGIN
    INSERT INTO notes_fts (rowid, text) VALUES (new.rowid, new.text);
END;
CREATE TRIGGER notes_fts_delete AFTER DELETE ON notes_cache WHEN old.text IS NOT NULL BEGIN
    INSERT INTO notes_fts (notes_fts, rowid, text) VALUES ('delete', old.rowid, old.text);
END;
CREATE TRIGGER notes_fts_update AFTER UPDATE OF text ON notes_cache BEGIN
    INSERT INTO notes_fts (notes_fts, rowid, text)
        SELECT 'delete', old.rowid, old.text WHERE old.text IS NOT NULL;
    INSERT INTO notes_fts (rowid, text)
        SELECT new.rowid, new.text WHERE new.text IS NOT NULL;
END;
CREATE TABLE ogp_cache (
    url TEXT NOT NULL PRIMARY KEY,
    title TEXT,
    description TEXT,
    image TEXT,
    site_name TEXT,
    icon TEXT,
    player_url TEXT,
    player_width INTEGER,
    player_height INTEGER,
    player_allow TEXT,
    final_url TEXT,
    sensitive INTEGER NOT NULL DEFAULT 0,
    medias_json TEXT,
    expires_at INTEGER NOT NULL
);
CREATE TABLE chat_messages_cache (
    message_id TEXT NOT NULL,
    account_id TEXT NOT NULL,
    server_host TEXT NOT NULL,
    thread_id TEXT NOT NULL,
    thread_kind TEXT NOT NULL,
    from_user_id TEXT NOT NULL,
    created_at TEXT NOT NULL,
    message_json TEXT NOT NULL,
    cached_at INTEGER NOT NULL,
    PRIMARY KEY (message_id, account_id)
);
CREATE INDEX chat_messages_cache_thread
    ON chat_messages_cache (account_id, thread_id, created_at);
"@,
        ),
{
    acting_while_opening(opening, now, action);
}

/// To return pages runs a pragma for a thousand of them.
pub proof fn returning_pages(sql: Sql)
    requires
        call_ensures(Database::incremental_vacuum_step, (), sql),
    ensures
        says(sql, "PRAGMA incremental_vacuum(1000);"@),
{
    lemma_pages_returned();
    assert(sql@.params.len() == sql.params@.len());
    assert(sql@.text =~= sql.text@);
}

/// Whether an answer starts with a row that starts with an integer.
pub open spec fn starts_with(answer: Answer, n: i64) -> bool {
    &&& answer.rows@.len() > 0
    &&& answer.rows@[0]@.len() > 0
    &&& answer.rows@[0]@[0] == Value::Integer(n)
}

/// Whether opening has gone on to a stage.
pub open spec fn reaches(next: Result<Opening, NoteDeckError>, stage: Stage) -> bool {
    next matches Ok(o) && o.stage == stage
}

/// How opening goes on from each stage. It keeps its policies, and it ends with
/// the first failure, but for that of restricting permissions.
pub proof fn going_on_with_opening(
    opening: Opening,
    reply: Result<Answer, NoteDeckError>,
    next: Result<Opening, NoteDeckError>,
)
    requires
        call_ensures(Opening::advance, (opening, &reply), next),
    ensures
        next matches Ok(o) ==> o.notes_eviction == opening.notes_eviction && o.chat_eviction
            == opening.chat_eviction,
        opening.stage == Stage::RestrictPermissions ==> next is Ok,
        reply is Err && opening.stage != Stage::RestrictPermissions ==> (next matches Err(f) && f@
            == reply->Err_0@),
        reply matches Ok(answer) ==> match opening.stage {
            Stage::AskFirstMode => forall|n: i64|
                #![trigger starts_with(answer, n)]
                starts_with(answer, n) ==> reaches(
                    next,
                    if n == 0 {
                        Stage::PresetVacuumMode
                    } else {
                        Stage::ConfigureWriter
                    },
                ),
            Stage::AskVacuumMode => forall|n: i64|
                #![trigger starts_with(answer, n)]
                starts_with(answer, n) ==> reaches(
                    next,
                    if n == 2 {
                        Stage::Migrate
                    } else if n == 0 {
                        Stage::SetVacuumMode
                    } else {
                        Stage::ChangeVacuumMode
                    },
                ),
            Stage::CheckVacuumMode => forall|n: i64|
                #![trigger starts_with(answer, n)]
                starts_with(answer, n) ==> reaches(
                    next,
                    if n == 2 {
                        Stage::Migrate
                    } else {
                        Stage::Vacuum
                    },
                ),
            Stage::AskIndex => forall|n: i64|
                #![trigger starts_with(answer, n)]
                starts_with(answer, n) ==> reaches(
                    next,
                    if n != 0 {
                        Stage::RebuildIndex
                    } else {
                        Stage::OpenReader
                    },
                ),
            _ => next is Ok,
        },
        next matches Ok(o) ==> match opening.stage {
            Stage::OpenWriter => o.stage == Stage::AskFirstMode,
            Stage::AskFirstMode => o.stage == Stage::PresetVacuumMode || o.stage
                == Stage::ConfigureWriter,
            Stage::PresetVacuumMode => o.stage == Stage::ConfigureWriter,
            Stage::ConfigureWriter => o.stage == Stage::RestrictPermissions,
            Stage::RestrictPermissions => o.stage == Stage::AskVacuumMode,
            Stage::AskVacuumMode => o.stage == Stage::Migrate || o.stage == Stage::SetVacuumMode
                || o.stage == Stage::ChangeVacuumMode,
            Stage::SetVacuumMode => o.stage == Stage::CheckVacuumMode,
            Stage::CheckVacuumMode => o.stage == Stage::Migrate || o.stage == Stage::Vacuum,
            Stage::ChangeVacuumMode => o.stage == Stage::Vacuum,
            Stage::Vacuum => o.stage == Stage::Migrate,
            Stage::Migrate => o.stage == Stage::AskIndex,
            Stage::AskIndex => o.stage == Stage::RebuildIndex || o.stage == Stage::OpenReader,
            Stage::RebuildIndex => o.stage == Stage::OpenReader,
            Stage::OpenReader => o.stage == Stage::ConfigureReader,
            Stage::ConfigureReader => o.stage == Stage::EvictNotes,
            Stage::EvictNotes => o.stage == Stage::EvictMessages,
            Stage::EvictMessages => o.stage == Stage::ReturnPages,
            Stage::ReturnPages => o.stage == Stage::Open,
            Stage::Open => o.stage == Stage::Open,
        },
{
    if let Ok(answer) = reply {
        assert forall|n: i64| #[trigger] starts_with(answer, n) implies answer@.rows.len() > 0
            && answer@.rows[0].len() > 0 && answer@.rows[0][0] == Cell::Integer(n as int) by {
            assert(answer@.rows[0] == answer.rows@[0].deep_view());
            assert(answer.rows@[0].deep_view()[0] == answer.rows@[0]@[0]@);
        }
    }
}

/// A question of opening whose answer is no integer is an error.
pub proof fn going_on_without_an_answer(
    opening: Opening,
    answer: Answer,
    next: Result<Opening, NoteDeckError>,
)
    requires
        call_ensures(
            Opening::advance,
            (opening, &Ok::<Answer, NoteDeckError>(answer)),
            next,
        ),
        opening.stage == Stage::AskFirstMode || opening.stage == Stage::AskVacuumMode
            || opening.stage == Stage::CheckVacuumMode || opening.stage == Stage::AskIndex,
        forall|n: i64| !starts_with(answer, n),
    ensures
        integer_of(answer) is Err,
        next matches Err(e) && e@ == integer_of(answer)->Err_0,
{
    if answer.rows@.len() > 0 {
        assert(answer@.rows[0] == answer.rows@[0].deep_view());
        if answer.rows@[0]@.len() > 0 {
            assert(answer.rows@[0].deep_view()[0] == answer.rows@[0]@[0]@);
            if let Value::Integer(n) = answer.rows@[0]@[0] {
                assert(starts_with(answer, n));
            }
        }
    }
}

// ---- files ----

/// The files of a database are the one at its path, and those with two endings
/// behind it. Others lose all permissions for them, and the owner can then read and
/// write them.
pub proof fn restricting_files(files: Vec<&'static str>, mode: u32, set: Option<u32>)
    requires
        call_ensures(Database::restricted_files, (), files),
        call_ensures(Database::restrict_permissions, (mode,), set),
    ensures
        files@.len() == 3,
        files@[0]@ == ""@,
        files@[1]@ == "-wal"@,
        files@[2]@ == "-shm"@,
        mode & 0o077 != 0 ==> set == Some(0o600u32),
        mode & 0o077 == 0 ==> set is None,
{
    assert(files.deep_view().len() == files@.len());
    assert(files.deep_view()[0] == files@[0]@);
    assert(files.deep_view()[1] == files@[1]@);
    assert(files.deep_view()[2] == files@[2]@);
}

/// The steps of a backup: an earlier file goes first, the database is copied to
/// the destination, the copy is restricted, and, where they are to be stripped,
/// the tokens of all accounts of the copy are emptied.
pub proof fn backing_up(
    dest: &str,
    exists_already: bool,
    strip_tokens: bool,
    steps: Vec<BackupStep>,
)
    requires
        call_ensures(Database::backup_to, (dest, exists_already, strip_tokens), steps),
    ensures
        ({
            let first: int = if exists_already {
                1
            } else {
                0
            };
            &&& steps@.len() == first + 2 + (if strip_tokens {
                1int
            } else {
                0
            })
            &&& exists_already ==> steps@[0] is RemoveExisting
            &&& steps@[first] matches BackupStep::Copy(sql) && sql.text@ == "VACUUM INTO ?1"@
                && sql.params@.len() == 1 && sql.params@[0]@ == Cell::Text(dest@)
            &&& steps@[first + 1] is RestrictPermissions
            &&& strip_tokens ==> (steps@[first + 2] matches BackupStep::OnCopy(statement)
                && forall|before: Tables, after: Tables, changed: nat, m: Matching| #[trigger]
                statement@.step(before, after, changed, m) ==> sets(
                    Table::Accounts,
                    any(),
                    Column::Token,
                    Cell::Text(Seq::empty()),
                    before,
                    after,
                    changed,
                ))
        }),
{
    let first: int = if exists_already {
        1
    } else {
        0
    };
    let seen = steps.deep_view();
    assert(seen.len() == steps@.len());
    assert forall|i: int| 0 <= i < steps@.len() implies seen[i] == (#[trigger] steps@[i])@ by {}
    if exists_already {
        assert(seen[0] == steps@[0]@);
    }
    assert(seen[first] == steps@[first]@);
    assert(seen[first + 1] == steps@[first + 1]@);
    reveal_strlit("VACUUM INTO ");
    reveal_strlit("?");
    reveal_strlit("VACUUM INTO ?1");
    reveal_with_fuel(decimal, 2);
    if let BackupStep::Copy(sql) = steps@[first] {
        assert(sql@.text =~= "VACUUM INTO ?1"@);
        assert(sql@.params.len() == sql.params@.len());
        assert(sql@.params[0] == sql.params@[0]@);
    }
    if strip_tokens {
        assert(seen[first + 2] == steps@[first + 2]@);
        reveal_strlit("");
        assert(""@ =~= Seq::<char>::empty());
        if let BackupStep::OnCopy(statement) = steps@[first + 2] {
            assert forall|before: Tables, after: Tables, changed: nat, m: Matching| #[trigger]
                statement@.step(before, after, changed, m) implies sets(
                Table::Accounts,
                any(),
                Column::Token,
                Cell::Text(Seq::empty()),
                before,
                after,
                changed,
            ) by {
                lemma_sets(
                    Table::Accounts,
                    statement@->Update_change,
                    statement@->Update_filter,
                    any(),
                    before,
                    after,
                    changed,
                    m,
                );
            }
        }
    }
}

/// What went wrong with a migration, an earlier backup or a connection is said in
/// words, with the code that SQLite has for it.
pub proof fn saying_what_went_wrong(
    reason: &str,
    migration: NoteDeckError,
    backup: NoteDeckError,
    reading: Result<(), NoteDeckError>,
    writing: Result<(), NoteDeckError>,
    poisoned: bool,
    code: i32,
    message: String,
    failure: NoteDeckError,
)
    requires
        call_ensures(NoteDeckError::sqlite, (code, message), failure),
        call_ensures(NoteDeckError::migration_failed, (reason,), migration),
        call_ensures(NoteDeckError::backup_not_replaced, (reason,), backup),
        call_ensures(Database::lock_read, (poisoned,), reading),
        call_ensures(Database::lock_write, (poisoned,), writing),
    ensures
        failure matches NoteDeckError::Database(
            DatabaseError::SqliteFailure { code: c, message: Some(s) },
        ) && c == code && s@ == message@,
        migration matches NoteDeckError::Database(
            DatabaseError::SqliteFailure { code: 1, message: Some(s) },
        ) && s@ == "Migration failed: "@ + reason@,
        backup matches NoteDeckError::Database(
            DatabaseError::SqliteFailure { code: 14, message: Some(s) },
        ) && s@ == "failed to replace existing backup: "@ + reason@,
        poisoned ==> (reading matches Err(
            NoteDeckError::Database(DatabaseError::SqliteFailure { code: 6, message: Some(s) }),
        ) && s@ == "Reader lock poisoned"@),
        poisoned ==> (writing matches Err(
            NoteDeckError::Database(DatabaseError::SqliteFailure { code: 6, message: Some(s) }),
        ) && s@ == "Writer lock poisoned"@),
        !poisoned ==> reading is Ok && writing is Ok,
{
}

} // verus!
