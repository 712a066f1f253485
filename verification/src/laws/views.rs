//! What is seen of a value in contracts is all of it.
use vstd::prelude::*;
use crate::chat::{ChatMessage, ChatMessageReaction, ChatReactionUser, ChatRecord};
use crate::database::Transaction;
use crate::decode::Answer;
use crate::error::{DatabaseError, DatabaseErrorView, NoteDeckError};
use crate::lifecycle::{Action, ActionView, BackupStep, BackupStepView};
use crate::messages::{ReactionStep, ReactionStepView, ThreadStep, ThreadStepView};
use crate::records::{Account, NoteRecord, ServerDetection, SummaryRow};
use crate::sql::{Assignment, Condition, Query, QueryView, Sql, Statement, StatementView};
use crate::value::{Cell, Value};

verus! {

/// A value is seen as what it holds.
pub proof fn a_value_is_seen(x: Value)
    ensures
        match x {
            Value::Null => x@ == Cell::Null,
            Value::Integer(i) => x@ == Cell::Integer(i as int),
            Value::Text(s) => x@ == Cell::Text(s@),
            Value::InvalidText => x@ == Cell::InvalidText,
            Value::Other => x@ == Cell::Other,
        },
        x.deep_view() == x@,
{
}

/// An account is seen with all its fields.
pub proof fn an_account_is_seen(x: Account)
    ensures
        x@.id == x.id@,
        x@.host == x.host@,
        x@.token == x.token@,
        x@.user_id == x.user_id@,
        x@.username == x.username@,
        x@.display_name == match x.display_name {
            Some(s) => Some(s@),
            None => None,
        },
        x@.avatar_url == match x.avatar_url {
            Some(s) => Some(s@),
            None => None,
        },
        x@.software == x.software@,
        x.deep_view() == x@,
{
}

/// A detection is seen with all its fields.
pub proof fn a_detection_is_seen(x: ServerDetection)
    ensures
        x@.host == x.host@,
        x@.software_name == x.software_name@,
        x@.software_version == x.software_version@,
        x@.software_repository == match x.software_repository {
            Some(s) => Some(s@),
            None => None,
        },
        x@.meta_json == x.meta_json@,
        x@.updated_at == x.updated_at,
        x.deep_view() == x@,
{
}

/// A summary is seen with all its fields.
pub proof fn a_summary_is_seen(x: SummaryRow)
    ensures
        x@.url == x.url@,
        x@.title == match x.title {
            Some(s) => Some(s@),
            None => None,
        },
        x@.description == match x.description {
            Some(s) => Some(s@),
            None => None,
        },
        x@.thumbnail == match x.thumbnail {
            Some(s) => Some(s@),
            None => None,
        },
        x@.sitename == match x.sitename {
            Some(s) => Some(s@),
            None => None,
        },
        x@.icon == match x.icon {
            Some(s) => Some(s@),
            None => None,
        },
        x@.player_url == match x.player_url {
            Some(s) => Some(s@),
            None => None,
        },
        x@.player_width == x.player_width,
        x@.player_height == x.player_height,
        x@.player_allow == match x.player_allow {
            Some(s) => Some(s@),
            None => None,
        },
        x@.final_url == match x.final_url {
            Some(s) => Some(s@),
            None => None,
        },
        x@.sensitive == x.sensitive,
        x@.medias_json == match x.medias_json {
            Some(s) => Some(s@),
            None => None,
        },
        x.deep_view() == x@,
{
}

/// A note is seen with all its fields.
pub proof fn a_note_is_seen(x: NoteRecord)
    ensures
        x@.id == x.id@,
        x@.account_id == x.account_id@,
        x@.server_host == x.server_host@,
        x@.created_at == x.created_at@,
        x@.text == match x.text {
            Some(s) => Some(s@),
            None => None,
        },
        x@.uri == match x.uri {
            Some(s) => Some(s@),
            None => None,
        },
        x@.json == match x.json {
            Some(s) => Some(s@),
            None => None,
        },
        x.deep_view() == x@,
{
}

/// A user is seen with all fields.
pub proof fn a_user_is_seen(x: ChatReactionUser)
    ensures
        x@.id == x.id@,
        x@.name == match x.name {
            Some(s) => Some(s@),
            None => None,
        },
        x@.username == x.username@,
        x@.host == match x.host {
            Some(s) => Some(s@),
            None => None,
        },
        x@.avatar_url == match x.avatar_url {
            Some(s) => Some(s@),
            None => None,
        },
        x.deep_view() == x@,
{
}

/// A reaction is seen with all its fields.
pub proof fn a_reaction_is_seen(x: ChatMessageReaction)
    ensures
        x@.user == match x.user {
            Some(s) => Some(s@),
            None => None,
        },
        x@.reaction == x.reaction@,
        x.deep_view() == x@,
{
}

/// A message is seen with all its fields.
pub proof fn a_message_is_seen(x: ChatMessage)
    ensures
        x@.id == x.id@,
        x@.created_at == x.created_at@,
        x@.from_user_id == x.from_user_id@,
        x@.from_user == match x.from_user {
            Some(s) => Some(s@),
            None => None,
        },
        x@.to_user_id == match x.to_user_id {
            Some(s) => Some(s@),
            None => None,
        },
        x@.to_user == match x.to_user {
            Some(s) => Some(s@),
            None => None,
        },
        x@.to_room_id == match x.to_room_id {
            Some(s) => Some(s@),
            None => None,
        },
        x@.to_room == match x.to_room {
            Some(s) => Some(s@),
            None => None,
        },
        x@.text == match x.text {
            Some(s) => Some(s@),
            None => None,
        },
        x@.file_id == match x.file_id {
            Some(s) => Some(s@),
            None => None,
        },
        x@.file == match x.file {
            Some(s) => Some(s@),
            None => None,
        },
        x@.is_read == x.is_read,
        x@.reactions.len() == x.reactions@.len(),
        forall|i: int|
            0 <= i < x.reactions@.len() ==> #[trigger] x@.reactions[i] == x.reactions@[i]@,
        x.deep_view() == x@,
{
}

/// A message with its JSON is seen with both.
pub proof fn a_message_with_its_json_is_seen(x: ChatRecord)
    ensures
        x@.message == x.message@,
        x@.json == match x.json {
            Some(s) => Some(s@),
            None => None,
        },
        x.deep_view() == x@,
{
}

/// A condition is seen with all its parts.
pub proof fn a_condition_is_seen(x: Condition)
    ensures
        x@.column == x.column,
        x@.test == x.test,
        x@.value == x.value@,
        x.deep_view() == x@,
{
}

/// An assignment is seen with all its parts.
pub proof fn an_assignment_is_seen(x: Assignment)
    ensures
        x@.column == x.column,
        x@.value == x.value@,
        x.deep_view() == x@,
{
}

/// SQL is seen with its text and its values.
pub proof fn sql_is_seen(x: Sql)
    ensures
        x@.text == x.text@,
        x@.params.len() == x.params@.len(),
        forall|i: int| 0 <= i < x.params@.len() ==> #[trigger] x@.params[i] == x.params@[i]@,
        x.deep_view() == x@,
{
}

/// An answer is seen with all its rows, and with what it ended with.
pub proof fn an_answer_is_seen(x: Answer)
    ensures
        x@.rows.len() == x.rows@.len(),
        forall|i: int|
            0 <= i < x.rows@.len() ==> (#[trigger] x@.rows[i]).len() == x.rows@[i]@.len(),
        forall|i: int, j: int|
            0 <= i < x.rows@.len() && 0 <= j < x.rows@[i]@.len() ==> #[trigger] x@.rows[i][j]
                == x.rows@[i]@[j]@,
        x@.failure == match x.failure {
            Some(e) => Some(e@),
            None => None,
        },
        x.deep_view() == x@,
{
    assert forall|i: int| 0 <= i < x.rows@.len() implies (#[trigger] x@.rows[i]).len()
        == x.rows@[i]@.len() by {
        assert(x@.rows[i] == x.rows@[i].deep_view());
    }
    assert forall|i: int, j: int|
        0 <= i < x.rows@.len() && 0 <= j < x.rows@[i]@.len() implies #[trigger] x@.rows[i][j]
        == x.rows@[i]@[j]@ by {
        assert(x@.rows[i] == x.rows@[i].deep_view());
    }
}

/// A transaction is seen with all its statements, in their order.
pub proof fn a_transaction_is_seen(x: Transaction)
    ensures
        x@.len() == x.statements@.len(),
        forall|i: int| 0 <= i < x.statements@.len() ==> #[trigger] x@[i] == x.statements@[i]@,
        x.deep_view() == x@,
{
}

/// A statement is seen with all its parts.
pub proof fn a_statement_is_seen(x: Statement)
    ensures
        match x {
            Statement::Upsert { table, values, key, update } => x@ == (StatementView::Upsert {
                table,
                values: values.deep_view(),
                key: key@,
                update: update@,
            }),
            Statement::Update { table, change, filter } => x@ == (StatementView::Update {
                table,
                change: change@,
                filter: filter.deep_view(),
            }),
            Statement::Delete { table, filter } => x@ == (StatementView::Delete {
                table,
                filter: filter.deep_view(),
            }),
            Statement::DeleteBeyond { table, group, newest_by, keep } => x@
                == (StatementView::DeleteBeyond { table, group, newest_by, keep: keep as int }),
        },
        x.deep_view() == x@,
{
}

/// A query is seen with all its parts.
pub proof fn a_query_is_seen(x: Query)
    ensures
        match x {
            Query::Select { table, columns, filter, order, limit } => x@ == (QueryView::Select {
                table,
                columns: columns@,
                filter: filter.deep_view(),
                order,
                limit: match limit {
                    Some(n) => Some(n as int),
                    None => None,
                },
            }),
            Query::Count { table, filter } => x@ == (QueryView::Count {
                table,
                filter: filter.deep_view(),
            }),
            Query::Range { table, column, filter } => x@ == (QueryView::Range {
                table,
                column,
                filter: filter.deep_view(),
            }),
            Query::LatestPerGroup { table, column, filter, group, newest_by, limit } => x@
                == (QueryView::LatestPerGroup {
                table,
                column,
                filter: filter.deep_view(),
                group,
                newest_by,
                limit: limit as int,
            }),
            Query::Size { table } => x@ == (QueryView::Size { table }),
        },
        x.deep_view() == x@,
{
}

/// What is to be done is seen with all that belongs to it.
pub proof fn steps_are_seen(
    action: Action,
    backup: BackupStep,
    reaction: ReactionStep,
    thread: ThreadStep,
)
    ensures
        match action {
            Action::OpenWriter => action@ == ActionView::OpenWriter,
            Action::OpenReader => action@ == ActionView::OpenReader,
            Action::RestrictPermissions => action@ == ActionView::RestrictPermissions,
            Action::Migrate(sql) => action@ == ActionView::Migrate(sql@),
            Action::RunWriter(sql) => action@ == ActionView::RunWriter(sql@),
            Action::RunReader(sql) => action@ == ActionView::RunReader(sql@),
            Action::AskWriter(sql) => action@ == ActionView::AskWriter(sql@),
            Action::Commit(t) => action@ == ActionView::Commit(t@),
            Action::Nothing => action@ == ActionView::Nothing,
        },
        match backup {
            BackupStep::RemoveExisting => backup@ == BackupStepView::RemoveExisting,
            BackupStep::Copy(sql) => backup@ == BackupStepView::Copy(sql@),
            BackupStep::RestrictPermissions => backup@ == BackupStepView::RestrictPermissions,
            BackupStep::OnCopy(s) => backup@ == BackupStepView::OnCopy(s@),
        },
        match reaction {
            ReactionStep::Find(q) => reaction@ == ReactionStepView::Find(q@),
            ReactionStep::Read(json) => reaction@ == ReactionStepView::Read(json@),
            ReactionStep::Write { message, json } => reaction@ == (ReactionStepView::Write {
                message: message@,
                json: json@,
            }),
            ReactionStep::Store(s) => reaction@ == ReactionStepView::Store(s@),
            ReactionStep::Unapplied => reaction@ == ReactionStepView::Unapplied,
        },
        match thread {
            ThreadStep::Anchor(q) => thread@ == ThreadStepView::Anchor(q@),
            ThreadStep::Messages(q) => thread@ == ThreadStepView::Messages(q@),
            ThreadStep::Nothing => thread@ == ThreadStepView::Nothing,
        },
{
}

/// An error is seen with all that it says.
pub proof fn an_error_is_seen(x: NoteDeckError)
    ensures
        match x {
            NoteDeckError::Database(e) => match e {
                DatabaseError::SqliteFailure { code, message } => x@
                    == (DatabaseErrorView::SqliteFailure {
                    code,
                    message: match message {
                        Some(s) => Some(s@),
                        None => None,
                    },
                }),
                DatabaseError::QueryReturnedNoRows => x@ == DatabaseErrorView::QueryReturnedNoRows,
                DatabaseError::InvalidColumnIndex { column } => x@
                    == (DatabaseErrorView::InvalidColumnIndex { column: column as int }),
                DatabaseError::InvalidColumnType { column } => x@
                    == (DatabaseErrorView::InvalidColumnType { column: column as int }),
                DatabaseError::IntegralValueOutOfRange { column, value } => x@
                    == (DatabaseErrorView::IntegralValueOutOfRange {
                    column: column as int,
                    value: value as int,
                }),
                DatabaseError::Utf8Error { column } => x@ == (DatabaseErrorView::Utf8Error {
                    column: column as int,
                }),
                DatabaseError::Other { message } => x@ == (DatabaseErrorView::Other {
                    message: message@,
                }),
            },
        },
        x.deep_view() == x@,
{
}

/// A copy of an error or of a user is seen as the same.
pub proof fn copies_are_seen_as_the_same(
    e: NoteDeckError,
    f: NoteDeckError,
    user: ChatReactionUser,
    other: ChatReactionUser,
    value: Value,
    copy: Value,
)
    requires
        call_ensures(NoteDeckError::copied, (&e,), f),
        call_ensures(ChatReactionUser::copied, (&user,), other),
        call_ensures(Value::copied, (&value,), copy),
    ensures
        f@ == e@,
        other@ == user@,
        copy@ == value@,
{
}

} // verus!
