//! Opening the database, keeping its file small, and backing it up.
//!
//! Opening alternates work on connections with decisions. `Opening` holds how
//! far it has come: `action` says what to do next, and `advance` takes what came
//! of it.
use vstd::prelude::*;
use vstd::string::*;
use crate::config::{ChatEvictionConfig, EvictionConfig};
use crate::database::{Database, Transaction};
use crate::decode::{Answer, AnswerView};
use crate::error::{DatabaseErrorView, NoteDeckError, SQLITE_CANTOPEN, SQLITE_ERROR};
use crate::eviction::{cutoff_fits, eviction};
use crate::messages::reply_seen;
use crate::schema::SCHEMA;
use crate::sql::{assign, Assignment, Condition, Sql, SqlView, Statement, StatementView};
use crate::text::{decimal, push_decimal};
use crate::value::{Cell, Column, Table, Value};

verus! {

/// How the connection for writing is set up.
pub const PRAGMAS_WRITER: &'static str = "\
    PRAGMA journal_mode=WAL;\
    PRAGMA foreign_keys=ON;\
    PRAGMA synchronous=NORMAL;\
    PRAGMA mmap_size=268435456;\
    PRAGMA cache_size=-16000;\
    PRAGMA temp_store=MEMORY;";

/// How the connection for reading is set up.
pub const PRAGMAS_READER: &'static str = "\
    PRAGMA mmap_size=268435456;\
    PRAGMA cache_size=-8000;\
    PRAGMA temp_store=MEMORY;";

/// The query for the vacuum mode.
pub const ASK_VACUUM_MODE: &'static str = "PRAGMA auto_vacuum";

/// The SQL that sets the wanted vacuum mode.
pub const SET_VACUUM_MODE: &'static str = "PRAGMA auto_vacuum=INCREMENTAL;";

/// The vacuum mode of a file that has none.
pub const NO_MODE: i64 = 0;

/// The vacuum mode in which free pages are returned step by step.
pub const INCREMENTAL: i64 = 2;

/// The query whether the full-text index is empty though there are notes with
/// text.
pub const ASK_INDEX: &'static str = "\
    SELECT (SELECT COUNT(*) FROM notes_fts) = 0 \
    AND (SELECT COUNT(*) FROM notes_cache WHERE text IS NOT NULL) > 0";

/// How many free pages are returned at once. With many more, opening would be
/// slow; with many fewer, free pages would pile up.
pub const INCREMENTAL_VACUUM_PAGES_PER_BOOT: usize = 1000;

/// What is to be done next while the database is opened.
#[derive(Debug, Clone, Copy, PartialEq, Eq, Structural)]
pub enum Stage {
    /// Connect for writing.
    OpenWriter,
    /// Ask whether the file has no vacuum mode, as a new one has none.
    AskFirstMode,
    /// Set the mode of a file that has none. A new one takes it only until
    /// something is written to it, and configuring the connection writes.
    PresetVacuumMode,
    ConfigureWriter,
    /// Keep others from the files. The database opens whatever comes of it.
    RestrictPermissions,
    AskVacuumMode,
    /// Set the mode of a file that has none.
    SetVacuumMode,
    /// Ask whether the mode was taken, as a file without contents takes it.
    CheckVacuumMode,
    /// Set the mode of a file that has another. It is rewritten in any case.
    ChangeVacuumMode,
    /// Rewrite the file: only then does one with contents take a mode where it
    /// had none.
    Vacuum,
    /// Bring the tables up to date.
    Migrate,
    AskIndex,
    RebuildIndex,
    /// Connect for reading.
    OpenReader,
    ConfigureReader,
    EvictNotes,
    EvictMessages,
    /// Return some free pages.
    ReturnPages,
    /// Nothing: the database is open.
    Open,
}

/// A database that is being opened.
#[derive(Debug, Clone)]
pub struct Opening {
    pub stage: Stage,
    pub notes_eviction: EvictionConfig,
    pub chat_eviction: ChatEvictionConfig,
}

/// Something to do with the connections and the files.
#[derive(Debug, Clone)]
pub enum Action {
    /// Connect to the database for writing. It is created where there is none.
    OpenWriter,
    /// Connect to the database for reading only.
    OpenReader,
    /// Keep others from the files.
    RestrictPermissions,
    /// Bring the tables up to date: run SQL on the connection for writing, once
    /// in the life of the database.
    Migrate(Sql),
    /// Run SQL on the connection for writing.
    RunWriter(Sql),
    /// Run SQL on the connection for reading.
    RunReader(Sql),
    /// Query the connection for writing.
    AskWriter(Sql),
    /// Run a transaction on the connection for writing.
    Commit(Transaction),
    /// Nothing.
    Nothing,
}

#[verifier::ext_equal]
pub enum ActionView {
    OpenWriter,
    OpenReader,
    RestrictPermissions,
    Migrate(SqlView),
    RunWriter(SqlView),
    RunReader(SqlView),
    AskWriter(SqlView),
    Commit(Seq<StatementView>),
    Nothing,
}

impl View for Action {
    type V = ActionView;

    open spec fn view(&self) -> ActionView {
        match self {
            Action::OpenWriter => ActionView::OpenWriter,
            Action::OpenReader => ActionView::OpenReader,
            Action::RestrictPermissions => ActionView::RestrictPermissions,
            Action::Migrate(sql) => ActionView::Migrate(sql@),
            Action::RunWriter(sql) => ActionView::RunWriter(sql@),
            Action::RunReader(sql) => ActionView::RunReader(sql@),
            Action::AskWriter(sql) => ActionView::AskWriter(sql@),
            Action::Commit(transaction) => ActionView::Commit(transaction@),
            Action::Nothing => ActionView::Nothing,
        }
    }
}

/// SQL without values.
pub open spec fn plain(text: Seq<char>) -> SqlView {
    SqlView::empty().lit(text)
}

/// The SQL that returns some free pages.
pub open spec fn pages_returned() -> SqlView {
    plain(
        "PRAGMA incremental_vacuum("@ + decimal(INCREMENTAL_VACUUM_PAGES_PER_BOOT as nat) + ");"@,
    )
}

/// What is to be done at a stage of opening, at the time `now`.
pub open spec fn action_at(o: Opening, now: int) -> ActionView {
    match o.stage {
        Stage::OpenWriter => ActionView::OpenWriter,
        Stage::AskFirstMode => ActionView::AskWriter(plain(ASK_VACUUM_MODE@)),
        Stage::PresetVacuumMode => ActionView::RunWriter(plain(SET_VACUUM_MODE@)),
        Stage::ConfigureWriter => ActionView::RunWriter(plain(PRAGMAS_WRITER@)),
        Stage::RestrictPermissions => ActionView::RestrictPermissions,
        Stage::AskVacuumMode => ActionView::AskWriter(plain(ASK_VACUUM_MODE@)),
        Stage::SetVacuumMode => ActionView::RunWriter(plain(SET_VACUUM_MODE@)),
        Stage::CheckVacuumMode => ActionView::AskWriter(plain(ASK_VACUUM_MODE@)),
        Stage::ChangeVacuumMode => ActionView::RunWriter(plain(SET_VACUUM_MODE@)),
        Stage::Vacuum => ActionView::RunWriter(plain("VACUUM;"@)),
        Stage::Migrate => ActionView::Migrate(plain(SCHEMA@)),
        Stage::AskIndex => ActionView::AskWriter(plain(ASK_INDEX@)),
        Stage::RebuildIndex => ActionView::RunWriter(
            plain("INSERT INTO notes_fts(notes_fts) VALUES('rebuild')"@),
        ),
        Stage::OpenReader => ActionView::OpenReader,
        Stage::ConfigureReader => ActionView::RunReader(plain(PRAGMAS_READER@)),
        Stage::EvictNotes => ActionView::Commit(
            eviction(
                Table::Notes,
                o.notes_eviction.per_account_limit,
                o.notes_eviction.ttl_days,
                now,
            ),
        ),
        Stage::EvictMessages => ActionView::Commit(
            eviction(
                Table::Messages,
                o.chat_eviction.per_account_limit,
                o.chat_eviction.ttl_days,
                now,
            ),
        ),
        Stage::ReturnPages => ActionView::RunWriter(pages_returned()),
        Stage::Open => ActionView::Nothing,
    }
}

/// Where opening goes once the mode of the file as it was found is known: a file
/// without one, which may be new, has it set before anything is written.
pub open spec fn after_first_mode(reply: AnswerView) -> Result<Stage, DatabaseErrorView> {
    match reply.one::<i64>() {
        Ok(mode) => Ok(
            if mode == NO_MODE {
                Stage::PresetVacuumMode
            } else {
                Stage::ConfigureWriter
            },
        ),
        Err(e) => Err(e),
    }
}

/// Where opening goes once the vacuum mode is known: on where it is the wanted
/// one. Otherwise the mode is set, and a file that had another is vacuumed.
pub open spec fn after_vacuum_mode(reply: AnswerView) -> Result<Stage, DatabaseErrorView> {
    match reply.one::<i64>() {
        Ok(mode) => Ok(
            if mode == INCREMENTAL {
                Stage::Migrate
            } else if mode == NO_MODE {
                Stage::SetVacuumMode
            } else {
                Stage::ChangeVacuumMode
            },
        ),
        Err(e) => Err(e),
    }
}

/// Where opening goes once it is known whether a file without a mode took the
/// wanted one: where it did not, it is vacuumed.
pub open spec fn after_set_mode(reply: AnswerView) -> Result<Stage, DatabaseErrorView> {
    match reply.one::<i64>() {
        Ok(mode) => Ok(
            if mode == INCREMENTAL {
                Stage::Migrate
            } else {
                Stage::Vacuum
            },
        ),
        Err(e) => Err(e),
    }
}

/// Where opening goes once it is known whether the index has to be rebuilt.
pub open spec fn after_index_check(reply: AnswerView) -> Result<Stage, DatabaseErrorView> {
    match reply.one::<bool>() {
        Ok(needed) => Ok(
            if needed {
                Stage::RebuildIndex
            } else {
                Stage::OpenReader
            },
        ),
        Err(e) => Err(e),
    }
}

/// Where opening goes when what a stage does has come to `reply`. It ends at
/// the first failure, but for that of restricting permissions.
pub open spec fn stage_after(stage: Stage, reply: Result<AnswerView, DatabaseErrorView>) -> Result<
    Stage,
    DatabaseErrorView,
> {
    match (stage, reply) {
        (Stage::RestrictPermissions, _) => Ok(Stage::AskVacuumMode),
        (_, Err(e)) => Err(e),
        (Stage::OpenWriter, _) => Ok(Stage::AskFirstMode),
        (Stage::AskFirstMode, Ok(answer)) => after_first_mode(answer),
        (Stage::PresetVacuumMode, _) => Ok(Stage::ConfigureWriter),
        (Stage::ConfigureWriter, _) => Ok(Stage::RestrictPermissions),
        (Stage::AskVacuumMode, Ok(answer)) => after_vacuum_mode(answer),
        (Stage::SetVacuumMode, _) => Ok(Stage::CheckVacuumMode),
        (Stage::CheckVacuumMode, Ok(answer)) => after_set_mode(answer),
        (Stage::ChangeVacuumMode, _) => Ok(Stage::Vacuum),
        (Stage::Vacuum, _) => Ok(Stage::Migrate),
        (Stage::Migrate, _) => Ok(Stage::AskIndex),
        (Stage::AskIndex, Ok(answer)) => after_index_check(answer),
        (Stage::RebuildIndex, _) => Ok(Stage::OpenReader),
        (Stage::OpenReader, _) => Ok(Stage::ConfigureReader),
        (Stage::ConfigureReader, _) => Ok(Stage::EvictNotes),
        (Stage::EvictNotes, _) => Ok(Stage::EvictMessages),
        (Stage::EvictMessages, _) => Ok(Stage::ReturnPages),
        (Stage::ReturnPages, _) => Ok(Stage::Open),
        (Stage::Open, _) => Ok(Stage::Open),
    }
}

impl Database {
    /// Starts to open the database, with the default evictions.
    pub fn open() -> (r: Opening)
        ensures
            r.stage == Stage::OpenWriter,
            r.notes_eviction.per_account_limit == Some(1_000_000i64),
            r.notes_eviction.ttl_days is None,
            r.chat_eviction.per_account_limit == Some(1_000_000i64),
            r.chat_eviction.ttl_days is None,
    {
        Database::open_with_eviction(EvictionConfig::default())
    }

    /// Starts to open the database, with the given eviction of notes and the
    /// default eviction of chat messages.
    pub fn open_with_eviction(eviction: EvictionConfig) -> (r: Opening)
        ensures
            r.stage == Stage::OpenWriter,
            r.notes_eviction == eviction,
            r.chat_eviction.per_account_limit == Some(1_000_000i64),
            r.chat_eviction.ttl_days is None,
    {
        Database::open_with_evictions(eviction, ChatEvictionConfig::default())
    }

    /// Starts to open the database, with the given evictions of notes and of
    /// chat messages. They run once while the database is opened.
    pub fn open_with_evictions(
        notes_eviction: EvictionConfig,
        chat_eviction: ChatEvictionConfig,
    ) -> (r: Opening)
        ensures
            r == (Opening { stage: Stage::OpenWriter, notes_eviction, chat_eviction }),
    {
        Opening { stage: Stage::OpenWriter, notes_eviction, chat_eviction }
    }

    fn preset_incremental_vacuum(reply: &Answer) -> (r: Result<Stage, NoteDeckError>)
        ensures
            stage_seen(r) == after_first_mode(reply@),
    {
        let mode: i64 = reply.one::<i64>()?;
        if mode == NO_MODE {
            Ok(Stage::PresetVacuumMode)
        } else {
            Ok(Stage::ConfigureWriter)
        }
    }

    fn ensure_incremental_vacuum(reply: &Answer) -> (r: Result<Stage, NoteDeckError>)
        ensures
            stage_seen(r) == after_vacuum_mode(reply@),
    {
        let mode: i64 = reply.one::<i64>()?;
        if mode == INCREMENTAL {
            Ok(Stage::Migrate)
        } else if mode == NO_MODE {
            Ok(Stage::SetVacuumMode)
        } else {
            Ok(Stage::ChangeVacuumMode)
        }
    }

    fn check_incremental_vacuum(reply: &Answer) -> (r: Result<Stage, NoteDeckError>)
        ensures
            stage_seen(r) == after_set_mode(reply@),
    {
        let mode: i64 = reply.one::<i64>()?;
        if mode == INCREMENTAL {
            Ok(Stage::Migrate)
        } else {
            Ok(Stage::Vacuum)
        }
    }

    fn rebuild_fts_if_needed(reply: &Answer) -> (r: Result<Stage, NoteDeckError>)
        ensures
            stage_seen(r) == after_index_check(reply@),
    {
        if reply.one::<bool>()? {
            Ok(Stage::RebuildIndex)
        } else {
            Ok(Stage::OpenReader)
        }
    }

    /// Returns some of the file's free pages.
    pub fn incremental_vacuum_step() -> (r: Sql)
        ensures
            r@ == pages_returned(),
    {
        let mut text: String = "PRAGMA incremental_vacuum(".to_owned();
        push_decimal(&mut text, INCREMENTAL_VACUUM_PAGES_PER_BOOT);
        text.append(");");
        Sql::plain(text.as_str())
    }
}

/// A stage that was reached, or an error, as they are seen in contracts.
pub open spec fn stage_seen(r: Result<Stage, NoteDeckError>) -> Result<Stage, DatabaseErrorView> {
    match r {
        Ok(stage) => Ok(stage),
        Err(e) => Err(e@),
    }
}

impl Opening {
    /// What is to be done next, at the time `now`, in seconds.
    pub fn action(&self, now: i64) -> (r: Action)
        requires
            self.stage == Stage::EvictNotes ==> cutoff_fits(now, self.notes_eviction.ttl_days),
            self.stage == Stage::EvictMessages ==> cutoff_fits(now, self.chat_eviction.ttl_days),
        ensures
            r@ == action_at(*self, now as int),
    {
        match self.stage {
            Stage::OpenWriter => Action::OpenWriter,
            Stage::AskFirstMode => Action::AskWriter(Sql::plain(ASK_VACUUM_MODE)),
            Stage::PresetVacuumMode => Action::RunWriter(Sql::plain(SET_VACUUM_MODE)),
            Stage::ConfigureWriter => Action::RunWriter(Sql::plain(PRAGMAS_WRITER)),
            Stage::RestrictPermissions => Action::RestrictPermissions,
            Stage::AskVacuumMode => Action::AskWriter(Sql::plain(ASK_VACUUM_MODE)),
            Stage::SetVacuumMode => Action::RunWriter(Sql::plain(SET_VACUUM_MODE)),
            Stage::CheckVacuumMode => Action::AskWriter(Sql::plain(ASK_VACUUM_MODE)),
            Stage::ChangeVacuumMode => Action::RunWriter(Sql::plain(SET_VACUUM_MODE)),
            Stage::Vacuum => Action::RunWriter(Sql::plain("VACUUM;")),
            Stage::Migrate => Action::Migrate(Sql::plain(SCHEMA)),
            Stage::AskIndex => Action::AskWriter(Sql::plain(ASK_INDEX)),
            Stage::RebuildIndex => Action::RunWriter(
                Sql::plain("INSERT INTO notes_fts(notes_fts) VALUES('rebuild')"),
            ),
            Stage::OpenReader => Action::OpenReader,
            Stage::ConfigureReader => Action::RunReader(Sql::plain(PRAGMAS_READER)),
            Stage::EvictNotes => Action::Commit(
                Database::cleanup_with_eviction(&self.notes_eviction, now),
            ),
            Stage::EvictMessages => Action::Commit(
                Database::cleanup_chat_with_eviction(&self.chat_eviction, now),
            ),
            Stage::ReturnPages => Action::RunWriter(Database::incremental_vacuum_step()),
            Stage::Open => Action::Nothing,
        }
    }

    /// Takes what came of the last action and goes on to the next. An action
    /// that is no query gives an answer without rows.
    pub fn advance(self, reply: &Result<Answer, NoteDeckError>) -> (r: Result<
        Opening,
        NoteDeckError,
    >)
        ensures
            match stage_after(self.stage, reply_seen(*reply)) {
                Ok(stage) => r == Ok::<Opening, NoteDeckError>(Opening { stage, ..self }),
                Err(e) => r matches Err(f) && f@ == e,
            },
    {
        let stage: Stage = match self.stage {
            Stage::RestrictPermissions => Stage::AskVacuumMode,
            stage => {
                let answer = match reply {
                    Ok(answer) => answer,
                    Err(e) => {
                        return Err(e.copied());
                    },
                };
                match stage {
                    Stage::OpenWriter => Stage::AskFirstMode,
                    Stage::AskFirstMode => Database::preset_incremental_vacuum(answer)?,
                    Stage::PresetVacuumMode => Stage::ConfigureWriter,
                    Stage::ConfigureWriter => Stage::RestrictPermissions,
                    Stage::RestrictPermissions => Stage::AskVacuumMode,
                    Stage::AskVacuumMode => Database::ensure_incremental_vacuum(answer)?,
                    Stage::SetVacuumMode => Stage::CheckVacuumMode,
                    Stage::CheckVacuumMode => Database::check_incremental_vacuum(answer)?,
                    Stage::ChangeVacuumMode => Stage::Vacuum,
                    Stage::Vacuum => Stage::Migrate,
                    Stage::Migrate => Stage::AskIndex,
                    Stage::AskIndex => Database::rebuild_fts_if_needed(answer)?,
                    Stage::RebuildIndex => Stage::OpenReader,
                    Stage::OpenReader => Stage::ConfigureReader,
                    Stage::ConfigureReader => Stage::EvictNotes,
                    Stage::EvictNotes => Stage::EvictMessages,
                    Stage::EvictMessages => Stage::ReturnPages,
                    Stage::ReturnPages => Stage::Open,
                    Stage::Open => Stage::Open,
                }
            },
        };
        Ok(
            Opening {
                stage,
                notes_eviction: self.notes_eviction,
                chat_eviction: self.chat_eviction,
            },
        )
    }
}

impl NoteDeckError {
    /// The error of a migration that failed for the given reason.
    pub fn migration_failed(reason: &str) -> (r: NoteDeckError)
        ensures
            r@ == (DatabaseErrorView::SqliteFailure {
                code: SQLITE_ERROR,
                message: Some("Migration failed: "@ + reason@),
            }),
    {
        let mut message: String = "Migration failed: ".to_owned();
        message.append(reason);
        NoteDeckError::sqlite(SQLITE_ERROR, message)
    }

    /// The error of an earlier backup that could not be removed for the given
    /// reason.
    pub fn backup_not_replaced(reason: &str) -> (r: NoteDeckError)
        ensures
            r@ == (DatabaseErrorView::SqliteFailure {
                code: SQLITE_CANTOPEN,
                message: Some("failed to replace existing backup: "@ + reason@),
            }),
    {
        let mut message: String = "failed to replace existing backup: ".to_owned();
        message.append(reason);
        NoteDeckError::sqlite(SQLITE_CANTOPEN, message)
    }
}

// ---- permissions ----

/// What the names of the database's files end in, behind its path.
pub open spec fn file_suffixes() -> Seq<Seq<char>> {
    seq![""@, "-wal"@, "-shm"@]
}

/// The permissions that a file gets in place of `mode`: its owner may read and
/// write it where others could do anything with it. Otherwise it keeps its own.
pub open spec fn restricted(mode: u32) -> Option<u32> {
    if mode & 0o077 != 0 {
        Some(0o600)
    } else {
        None
    }
}

impl Database {
    /// What the names of the files to restrict end in, behind the path of the
    /// database.
    pub fn restricted_files() -> (r: Vec<&'static str>)
        ensures
            r.deep_view() == file_suffixes(),
    {
        let r: Vec<&'static str> = vec!["", "-wal", "-shm"];
        assert(r.deep_view() =~= file_suffixes());
        r
    }

    /// The permissions to set for a file with the permissions `mode`, if any.
    pub fn restrict_permissions(mode: u32) -> (r: Option<u32>)
        ensures
            r == restricted(mode),
    {
        if mode & 0o077 != 0 {
            Some(0o600)
        } else {
            None
        }
    }
}

// ---- backups ----

/// A step of a backup.
#[derive(Debug, Clone)]
pub enum BackupStep {
    /// Remove the file in the way of the copy.
    RemoveExisting,
    /// Copy the database: run SQL on the connection for writing.
    Copy(Sql),
    /// Keep others from the copy.
    RestrictPermissions,
    /// Connect to the copy and run a statement there.
    OnCopy(Statement),
}

#[verifier::ext_equal]
pub enum BackupStepView {
    RemoveExisting,
    Copy(SqlView),
    RestrictPermissions,
    OnCopy(StatementView),
}

impl View for BackupStep {
    type V = BackupStepView;

    open spec fn view(&self) -> BackupStepView {
        match self {
            BackupStep::RemoveExisting => BackupStepView::RemoveExisting,
            BackupStep::Copy(sql) => BackupStepView::Copy(sql@),
            BackupStep::RestrictPermissions => BackupStepView::RestrictPermissions,
            BackupStep::OnCopy(statement) => BackupStepView::OnCopy(statement@),
        }
    }
}

impl DeepView for BackupStep {
    type V = BackupStepView;

    open spec fn deep_view(&self) -> BackupStepView {
        self.view()
    }
}

/// The SQL that copies the database to the file `dest`.
pub open spec fn copying(dest: Seq<char>) -> SqlView {
    plain("VACUUM INTO "@).param(Cell::Text(dest))
}

/// The statement that empties all tokens.
pub open spec fn token_stripping() -> StatementView {
    StatementView::Update {
        table: Table::Accounts,
        change: assign(Column::Token, Cell::Text(""@)),
        filter: Seq::empty(),
    }
}

/// The steps of a backup to the file `dest`, which may exist.
pub open spec fn backup_steps(dest: Seq<char>, exists_already: bool, strip_tokens: bool) -> Seq<
    BackupStepView,
> {
    (if exists_already {
        seq![BackupStepView::RemoveExisting]
    } else {
        Seq::empty()
    }) + seq![BackupStepView::Copy(copying(dest)), BackupStepView::RestrictPermissions] + (
    if strip_tokens {
        seq![BackupStepView::OnCopy(token_stripping())]
    } else {
        Seq::empty()
    })
}

impl Database {
    /// The steps of a consistent copy of the database in the file `dest`. They
    /// are taken in order up to the first that fails. With `strip_tokens` the
    /// copy holds no tokens.
    pub fn backup_to(dest: &str, exists_already: bool, strip_tokens: bool) -> (r: Vec<BackupStep>)
        ensures
            r.deep_view() == backup_steps(dest@, exists_already, strip_tokens),
    {
        let mut steps: Vec<BackupStep> = Vec::new();
        if exists_already {
            steps.push(BackupStep::RemoveExisting);
        }
        steps.push(BackupStep::Copy(Sql::with_text("VACUUM INTO ", dest)));
        steps.push(BackupStep::RestrictPermissions);
        if strip_tokens {
            let filter: Vec<Condition> = Vec::new();
            let statement = Statement::Update {
                table: Table::Accounts,
                change: Assignment::new(Column::Token, Value::text("")),
                filter,
            };
            assert(statement@ =~= token_stripping());
            steps.push(BackupStep::OnCopy(statement));
        }
        assert(steps.deep_view() =~= backup_steps(dest@, exists_already, strip_tokens));
        steps
    }
}

} // verus!
