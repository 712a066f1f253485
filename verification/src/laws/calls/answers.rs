//! What is made of answers.
use vstd::prelude::*;
use crate::database::Database;
use crate::decode::{
    decodable_rows, decoded_rows, get_optional_text, present_only, row_to_summary,
    row_to_summary_offset, seen, somes, summary_in, Answer, FromRow,
};
use crate::error::{DatabaseError, DatabaseErrorView, NoteDeckError};
use crate::records::{
    Account, AccountView, ServerDetection, ServerDetectionView, SummaryRow, SummaryRowView,
};
use crate::value::{Cell, Value};

verus! {

// ---- columns ----

/// Why a column holds no text, if it does not.
pub open spec fn text_fault(row: Seq<Cell>, column: int) -> Option<DatabaseErrorView> {
    if column >= row.len() {
        Some(DatabaseErrorView::InvalidColumnIndex { column })
    } else if row[column] is Text {
        None
    } else if row[column] is InvalidText {
        Some(DatabaseErrorView::Utf8Error { column })
    } else {
        Some(DatabaseErrorView::InvalidColumnType { column })
    }
}

/// Why a column holds neither a text nor null, if it does not.
pub open spec fn optional_text_fault(row: Seq<Cell>, column: int) -> Option<DatabaseErrorView> {
    if column < row.len() && row[column] is Null {
        None
    } else {
        text_fault(row, column)
    }
}

/// Why a column holds no integer, if it does not.
pub open spec fn integer_fault(row: Seq<Cell>, column: int) -> Option<DatabaseErrorView> {
    if column >= row.len() {
        Some(DatabaseErrorView::InvalidColumnIndex { column })
    } else if row[column] is Integer {
        None
    } else {
        Some(DatabaseErrorView::InvalidColumnType { column })
    }
}

/// Why a column holds no integer from `low` to `high`, if it does not.
pub open spec fn bounded_fault(row: Seq<Cell>, column: int, low: int, high: int) -> Option<
    DatabaseErrorView,
> {
    if integer_fault(row, column) is Some {
        integer_fault(row, column)
    } else if low <= row[column]->Integer_0 <= high {
        None
    } else {
        Some(
            DatabaseErrorView::IntegralValueOutOfRange { column, value: row[column]->Integer_0 },
        )
    }
}

/// Why a column holds neither null nor a size, if it does not.
pub open spec fn optional_size_fault(row: Seq<Cell>, column: int) -> Option<DatabaseErrorView> {
    if column < row.len() && row[column] is Null {
        None
    } else {
        bounded_fault(row, column, 0, 0xffff_ffff)
    }
}

/// The first of some faults.
pub open spec fn first_of(faults: Seq<Option<DatabaseErrorView>>) -> Option<DatabaseErrorView>
    decreases faults.len(),
{
    if faults.len() == 0 {
        None
    } else if faults[0] is Some {
        faults[0]
    } else {
        first_of(faults.drop_first())
    }
}

proof fn lemma_first_of(faults: Seq<Option<DatabaseErrorView>>, k: int)
    requires
        0 <= k < faults.len(),
        faults[k] is Some,
        forall|i: int| 0 <= i < k ==> (#[trigger] faults[i]) is None,
    ensures
        first_of(faults) == faults[k],
    decreases faults.len(),
{
    if k > 0 {
        assert(faults[0] is None);
        let rest = faults.drop_first();
        assert(rest[k - 1] == faults[k]);
        assert forall|i: int| 0 <= i < k - 1 implies (#[trigger] rest[i]) is None by {
            assert(faults[i + 1] is None);
        }
        lemma_first_of(rest, k - 1);
    }
}

proof fn lemma_none_of(faults: Seq<Option<DatabaseErrorView>>)
    requires
        forall|i: int| 0 <= i < faults.len() ==> (#[trigger] faults[i]) is None,
    ensures
        first_of(faults) is None,
    decreases faults.len(),
{
    if faults.len() > 0 {
        assert(faults[0] is None);
        assert forall|i: int| 0 <= i < faults.drop_first().len() implies (
        #[trigger] faults.drop_first()[i]) is None by {
            assert(faults[i + 1] is None);
        }
        lemma_none_of(faults.drop_first());
    }
}

/// Whether an optional text is what a cell holds: none where it is null.
pub open spec fn is_of(text: Option<Seq<char>>, cell: Cell) -> bool {
    match text {
        Some(s) => cell == Cell::Text(s),
        None => cell == Cell::Null,
    }
}

/// Whether an optional size is what a cell holds: none where it is null.
pub open spec fn is_size_of(size: Option<u32>, cell: Cell) -> bool {
    match size {
        Some(n) => cell == Cell::Integer(n as int),
        None => cell == Cell::Null,
    }
}

// ---- records ----

/// What stands in the way of an account, column by column.
pub open spec fn account_faults(row: Seq<Cell>) -> Seq<Option<DatabaseErrorView>> {
    seq![
        text_fault(row, 0),
        text_fault(row, 1),
        text_fault(row, 2),
        text_fault(row, 3),
        text_fault(row, 4),
        optional_text_fault(row, 5),
        optional_text_fault(row, 6),
        text_fault(row, 7),
    ]
}

/// An account is read from a row, or the first fault in its way.
pub proof fn reading_an_account(row: Seq<Cell>)
    ensures
        match first_of(account_faults(row)) {
            Some(e) => Account::decoded(row) == Err::<AccountView, DatabaseErrorView>(e),
            None => Account::decoded(row) matches Ok(r) && {
                &&& row[0] == Cell::Text(r.id)
                &&& row[1] == Cell::Text(r.host)
                &&& row[2] == Cell::Text(r.token)
                &&& row[3] == Cell::Text(r.user_id)
                &&& row[4] == Cell::Text(r.username)
                &&& is_of(r.display_name, row[5])
                &&& is_of(r.avatar_url, row[6])
                &&& row[7] == Cell::Text(r.software)
            },
        },
{
    let faults = account_faults(row);
    assert(faults.len() == 8);
    if faults[0] is Some {
        lemma_first_of(faults, 0);
    } else if faults[1] is Some {
        lemma_first_of(faults, 1);
    } else if faults[2] is Some {
        lemma_first_of(faults, 2);
    } else if faults[3] is Some {
        lemma_first_of(faults, 3);
    } else if faults[4] is Some {
        lemma_first_of(faults, 4);
    } else if faults[5] is Some {
        lemma_first_of(faults, 5);
    } else if faults[6] is Some {
        lemma_first_of(faults, 6);
    } else if faults[7] is Some {
        lemma_first_of(faults, 7);
    } else {
        assert forall|i: int| 0 <= i < faults.len() implies (#[trigger] faults[i]) is None by {}
        lemma_none_of(faults);
    }
}

/// What stands in the way of a detection, column by column.
pub open spec fn detection_faults(row: Seq<Cell>) -> Seq<Option<DatabaseErrorView>> {
    seq![
        text_fault(row, 0),
        text_fault(row, 1),
        text_fault(row, 2),
        optional_text_fault(row, 3),
        text_fault(row, 4),
        integer_fault(row, 5),
    ]
}

/// A detection is read from a row, or the first fault in its way.
pub proof fn reading_a_detection(row: Seq<Cell>)
    ensures
        match first_of(detection_faults(row)) {
            Some(e) => ServerDetection::decoded(row) == Err::<
                ServerDetectionView,
                DatabaseErrorView,
            >(e),
            None => ServerDetection::decoded(row) matches Ok(r) && {
                &&& row[0] == Cell::Text(r.host)
                &&& row[1] == Cell::Text(r.software_name)
                &&& row[2] == Cell::Text(r.software_version)
                &&& is_of(r.software_repository, row[3])
                &&& row[4] == Cell::Text(r.meta_json)
                &&& r.updated_at == row[5]->Integer_0 as i64
            },
        },
{
    let faults = detection_faults(row);
    assert(faults.len() == 6);
    if faults[0] is Some {
        lemma_first_of(faults, 0);
    } else if faults[1] is Some {
        lemma_first_of(faults, 1);
    } else if faults[2] is Some {
        lemma_first_of(faults, 2);
    } else if faults[3] is Some {
        lemma_first_of(faults, 3);
    } else if faults[4] is Some {
        lemma_first_of(faults, 4);
    } else if faults[5] is Some {
        lemma_first_of(faults, 5);
    } else {
        assert forall|i: int| 0 <= i < faults.len() implies (#[trigger] faults[i]) is None by {}
        lemma_none_of(faults);
    }
}

/// What stands in the way of a summary, column by column.
pub open spec fn summary_faults(row: Seq<Cell>, off: int) -> Seq<Option<DatabaseErrorView>> {
    seq![
        bounded_fault(row, off + 10, -0x8000_0000, 0x7fff_ffff),
        optional_text_fault(row, off),
        optional_text_fault(row, off + 1),
        optional_text_fault(row, off + 2),
        optional_text_fault(row, off + 3),
        optional_text_fault(row, off + 4),
        optional_text_fault(row, off + 5),
        optional_size_fault(row, off + 6),
        optional_size_fault(row, off + 7),
        optional_text_fault(row, off + 8),
        optional_text_fault(row, off + 9),
        optional_text_fault(row, off + 11),
    ]
}

/// A summary is read from a row, or the first fault in its way.
pub proof fn reading_a_summary(url: Seq<char>, row: Seq<Cell>, off: int)
    requires
        off >= 0,
    ensures
        match first_of(summary_faults(row, off)) {
            Some(e) => summary_in(url, row, off) == Err::<SummaryRowView, DatabaseErrorView>(e),
            None => summary_in(url, row, off) matches Ok(r) && {
                &&& r.url == url
                &&& r.sensitive == (row[off + 10]->Integer_0 != 0)
                &&& is_of(r.title, row[off])
                &&& is_of(r.description, row[off + 1])
                &&& is_of(r.thumbnail, row[off + 2])
                &&& is_of(r.sitename, row[off + 3])
                &&& is_of(r.icon, row[off + 4])
                &&& is_of(r.player_url, row[off + 5])
                &&& is_size_of(r.player_width, row[off + 6])
                &&& is_size_of(r.player_height, row[off + 7])
                &&& is_of(r.player_allow, row[off + 8])
                &&& is_of(r.final_url, row[off + 9])
                &&& is_of(r.medias_json, row[off + 11])
            },
        },
{
    let faults = summary_faults(row, off);
    assert(faults.len() == 12);
    if faults[0] is Some {
        lemma_first_of(faults, 0);
    } else if faults[1] is Some {
        lemma_first_of(faults, 1);
    } else if faults[2] is Some {
        lemma_first_of(faults, 2);
    } else if faults[3] is Some {
        lemma_first_of(faults, 3);
    } else if faults[4] is Some {
        lemma_first_of(faults, 4);
    } else if faults[5] is Some {
        lemma_first_of(faults, 5);
    } else if faults[6] is Some {
        lemma_first_of(faults, 6);
    } else if faults[7] is Some {
        lemma_first_of(faults, 7);
    } else if faults[8] is Some {
        lemma_first_of(faults, 8);
    } else if faults[9] is Some {
        lemma_first_of(faults, 9);
    } else if faults[10] is Some {
        lemma_first_of(faults, 10);
    } else if faults[11] is Some {
        lemma_first_of(faults, 11);
    } else {
        assert forall|i: int| 0 <= i < faults.len() implies (#[trigger] faults[i]) is None by {}
        lemma_none_of(faults);
    }
}

/// A summary with its url is read from a row that starts with the url.
pub proof fn reading_a_summary_with_its_url(row: Seq<Cell>)
    ensures
        match text_fault(row, 0) {
            Some(e) => SummaryRow::decoded(row) == Err::<SummaryRowView, DatabaseErrorView>(e),
            None => SummaryRow::decoded(row) == summary_in(row[0]->Text_0, row, 1),
        },
{
}

/// A text, an integer and a truth value are read from the first column of a row,
/// and two optional texts from its first two.
pub proof fn reading_single_values(row: Seq<Cell>)
    ensures
        match text_fault(row, 0) {
            Some(e) => String::decoded(row) == Err::<Seq<char>, DatabaseErrorView>(e),
            None => String::decoded(row) == Ok::<Seq<char>, DatabaseErrorView>(row[0]->Text_0),
        },
        match integer_fault(row, 0) {
            Some(e) => i64::decoded(row) == Err::<i64, DatabaseErrorView>(e) && bool::decoded(row)
                == Err::<bool, DatabaseErrorView>(e),
            None => {
                &&& i64::decoded(row) == Ok::<i64, DatabaseErrorView>(row[0]->Integer_0 as i64)
                &&& bool::decoded(row) == Ok::<bool, DatabaseErrorView>(row[0]->Integer_0 != 0)
            },
        },
        match first_of(seq![optional_text_fault(row, 0), optional_text_fault(row, 1)]) {
            Some(e) => <(Option<String>, Option<String>)>::decoded(row) == Err::<
                (Option<Seq<char>>, Option<Seq<char>>),
                DatabaseErrorView,
            >(e),
            None => <(Option<String>, Option<String>)>::decoded(row) matches Ok(r) && is_of(
                r.0,
                row[0],
            ) && is_of(r.1, row[1]),
        },
{
    let faults = seq![optional_text_fault(row, 0), optional_text_fault(row, 1)];
    if faults[0] is Some {
        lemma_first_of(faults, 0);
    } else if faults[1] is Some {
        lemma_first_of(faults, 1);
    } else {
        lemma_none_of(faults);
    }
}

// ---- answers ----

/// Whether a result is what all rows of an answer hold, or the error of the first
/// that holds nothing, or that with which the answer ended.
pub open spec fn reads_all<T: FromRow>(
    answer: Answer,
    result: Result<Vec<T>, NoteDeckError>,
) -> bool {
    let rows = answer@.rows;
    match result {
        Ok(values) => {
            &&& answer.failure is None
            &&& values@.len() == rows.len()
            &&& forall|i: int|
                0 <= i < rows.len() ==> T::decoded(#[trigger] rows[i]) == Ok::<
                    T::V,
                    DatabaseErrorView,
                >(values@[i].deep_view())
        },
        Err(e) => {
            ||| exists|k: int|
                {
                    &&& 0 <= k < rows.len()
                    &&& T::decoded(#[trigger] rows[k]) == Err::<T::V, DatabaseErrorView>(e@)
                    &&& forall|i: int| 0 <= i < k ==> T::decoded(#[trigger] rows[i]) is Ok
                }
            ||| {
                &&& forall|i: int| 0 <= i < rows.len() ==> T::decoded(#[trigger] rows[i]) is Ok
                &&& answer.failure matches Some(f) && f@ == e@
            }
        },
    }
}

/// Whether a result is what the first row of an answer holds, if it has a row.
pub open spec fn reads_first<T: FromRow>(
    answer: Answer,
    result: Result<Option<T>, NoteDeckError>,
) -> bool {
    if answer.rows@.len() > 0 {
        match T::decoded(answer@.rows[0]) {
            Ok(v) => result matches Ok(Some(found)) && found.deep_view() == v,
            Err(e) => result matches Err(f) && f@ == e,
        }
    } else {
        match answer.failure {
            Some(e) => result matches Err(f) && f@ == e@,
            None => result matches Ok(None),
        }
    }
}

/// Whether a result is what the first row of an answer holds. An answer without
/// rows is an error.
pub open spec fn reads_one<T: FromRow>(answer: Answer, result: Result<T, NoteDeckError>) -> bool {
    if answer.rows@.len() > 0 {
        match T::decoded(answer@.rows[0]) {
            Ok(v) => result matches Ok(found) && found.deep_view() == v,
            Err(e) => result matches Err(f) && f@ == e,
        }
    } else {
        match answer.failure {
            Some(e) => result matches Err(f) && f@ == e@,
            None => result matches Err(
                NoteDeckError::Database(DatabaseError::QueryReturnedNoRows),
            ),
        }
    }
}

/// Whether a row holds a value.
pub open spec fn is_readable<T: FromRow>() -> spec_fn(Seq<Cell>) -> bool {
    |row: Seq<Cell>| T::decoded(row) is Ok
}

/// Whether a result is what those rows of an answer hold that hold something, in
/// their order, whatever the answer ended with.
pub open spec fn reads_readable<T: FromRow>(answer: Answer, result: Vec<T>) -> bool {
    let kept = answer@.rows.filter(is_readable::<T>());
    &&& result@.len() == kept.len()
    &&& forall|i: int|
        0 <= i < kept.len() ==> (#[trigger] result@[i]).deep_view() == T::decoded(kept[i])->Ok_0
}

proof fn lemma_decoded_rows<T: FromRow>(rows: Seq<Seq<Cell>>)
    ensures
        match decoded_rows::<T>(rows) {
            Ok(values) => {
                &&& values.len() == rows.len()
                &&& forall|i: int|
                    0 <= i < rows.len() ==> T::decoded(#[trigger] rows[i]) == Ok::<
                        T::V,
                        DatabaseErrorView,
                    >(values[i])
            },
            Err(e) => exists|k: int|
                {
                    &&& 0 <= k < rows.len()
                    &&& T::decoded(#[trigger] rows[k]) == Err::<T::V, DatabaseErrorView>(e)
                    &&& forall|i: int| 0 <= i < k ==> T::decoded(#[trigger] rows[i]) is Ok
                },
        },
    decreases rows.len(),
{
    if rows.len() > 0 {
        let rest = rows.drop_last();
        let n = rest.len() as int;
        lemma_decoded_rows::<T>(rest);
        match decoded_rows::<T>(rest) {
            Err(e) => {
                let k = choose|k: int|
                    {
                        &&& 0 <= k < rest.len()
                        &&& T::decoded(#[trigger] rest[k]) == Err::<T::V, DatabaseErrorView>(e)
                        &&& forall|i: int| 0 <= i < k ==> T::decoded(#[trigger] rest[i]) is Ok
                    };
                assert(rows[k] == rest[k]);
                assert forall|i: int| 0 <= i < k implies T::decoded(#[trigger] rows[i]) is Ok by {
                    assert(rest[i] == rows[i]);
                }
            },
            Ok(values) => {
                assert forall|i: int| 0 <= i < n implies T::decoded(#[trigger] rows[i]) == Ok::<
                    T::V,
                    DatabaseErrorView,
                >(values[i]) by {
                    assert(rest[i] == rows[i]);
                }
                assert(rows.last() == rows[n]);
            },
        }
    }
}

proof fn lemma_decodable_rows<T: FromRow>(rows: Seq<Seq<Cell>>)
    ensures
        decodable_rows::<T>(rows).len() == rows.filter(is_readable::<T>()).len(),
        forall|i: int|
            0 <= i < decodable_rows::<T>(rows).len() ==> #[trigger] decodable_rows::<T>(rows)[i]
                == T::decoded(rows.filter(is_readable::<T>())[i])->Ok_0,
    decreases rows.len(),
{
    reveal(Seq::filter);
    if rows.len() > 0 {
        lemma_decodable_rows::<T>(rows.drop_last());
    }
}

proof fn lemma_all<T: FromRow>(answer: Answer, result: Result<Vec<T>, NoteDeckError>)
    requires
        seen(result) == answer@.all::<T>(),
    ensures
        reads_all::<T>(answer, result),
{
    let rows = answer@.rows;
    lemma_decoded_rows::<T>(rows);
    match result {
        Ok(values) => {
            assert(values.deep_view().len() == values@.len());
            assert forall|i: int| 0 <= i < rows.len() implies T::decoded(#[trigger] rows[i])
                == Ok::<T::V, DatabaseErrorView>(values@[i].deep_view()) by {
                assert(values.deep_view()[i] == values@[i].deep_view());
            }
        },
        Err(e) => {},
    }
}

proof fn lemma_readable<T: FromRow>(answer: Answer, result: Vec<T>)
    requires
        result.deep_view() == decodable_rows::<T>(answer@.rows),
    ensures
        reads_readable::<T>(answer, result),
{
    lemma_decodable_rows::<T>(answer@.rows);
    assert(result.deep_view().len() == result@.len());
    let kept = answer@.rows.filter(is_readable::<T>());
    assert forall|i: int| 0 <= i < kept.len() implies (#[trigger] result@[i]).deep_view()
        == T::decoded(kept[i])->Ok_0 by {
        assert(result.deep_view()[i] == result@[i].deep_view());
    }
}

/// All accounts of an answer are given.
pub proof fn replying_with_accounts(answer: Answer, result: Result<Vec<Account>, NoteDeckError>)
    requires
        call_ensures(Database::load_accounts_reply, (&answer,), result),
    ensures
        reads_all::<Account>(answer, result),
{
    lemma_all::<Account>(answer, result);
}

/// The first account of an answer is given.
pub proof fn replying_with_an_account(
    answer: Answer,
    result: Result<Option<Account>, NoteDeckError>,
)
    requires
        call_ensures(Database::get_account_reply, (&answer,), result),
    ensures
        reads_first::<Account>(answer, result),
{
    assert(answer@.rows.len() == answer.rows@.len());
}

/// All detections of an answer are given.
pub proof fn replying_with_detections(
    answer: Answer,
    result: Result<Vec<ServerDetection>, NoteDeckError>,
)
    requires
        call_ensures(Database::load_server_detections_reply, (&answer,), result),
    ensures
        reads_all::<ServerDetection>(answer, result),
{
    lemma_all::<ServerDetection>(answer, result);
}

/// The first detection of an answer is given.
pub proof fn replying_with_a_detection(
    answer: Answer,
    result: Result<Option<ServerDetection>, NoteDeckError>,
)
    requires
        call_ensures(Database::get_server_detection_reply, (&answer,), result),
    ensures
        reads_first::<ServerDetection>(answer, result),
{
    assert(answer@.rows.len() == answer.rows@.len());
}

/// All notes of an answer are given.
pub proof fn replying_with_notes(answer: Answer, result: Result<Vec<String>, NoteDeckError>)
    requires
        call_ensures(Database::notes_reply, (&answer,), result),
    ensures
        reads_all::<String>(answer, result),
{
    lemma_all::<String>(answer, result);
}

/// Those notes of an answer are given that can be read.
pub proof fn replying_to_a_search(answer: Answer, result: Vec<String>)
    requires
        call_ensures(Database::search_reply, (&answer,), result),
    ensures
        reads_readable::<String>(answer, result),
{
    lemma_readable::<String>(answer, result);
}

/// Those messages of an answer are given that can be read.
pub proof fn replying_with_messages(answer: Answer, result: Vec<String>)
    requires
        call_ensures(Database::messages_reply, (&answer,), result),
    ensures
        reads_readable::<String>(answer, result),
{
    lemma_readable::<String>(answer, result);
}

/// All summaries of an answer are given.
pub proof fn replying_with_summaries(answer: Answer, result: Result<Vec<SummaryRow>, NoteDeckError>)
    requires
        call_ensures(Database::load_summary_cache_reply, (&answer,), result),
    ensures
        reads_all::<SummaryRow>(answer, result),
{
    lemma_all::<SummaryRow>(answer, result);
}

/// The first id of an answer is given.
pub proof fn replying_with_the_latest_message(
    answer: Answer,
    result: Result<Option<String>, NoteDeckError>,
)
    requires
        call_ensures(Database::get_cached_chat_latest_message_id_reply, (&answer,), result),
    ensures
        reads_first::<String>(answer, result),
{
    assert(answer@.rows.len() == answer.rows@.len());
}

/// The count of an answer is given.
pub proof fn replying_with_a_count(answer: Answer, result: Result<i64, NoteDeckError>)
    requires
        call_ensures(Database::count_reply, (&answer,), result),
    ensures
        reads_one::<i64>(answer, result),
{
    assert(answer@.rows.len() == answer.rows@.len());
}

/// The summary of an answer is given for its url, if the answer has a row.
pub proof fn replying_with_a_summary(
    url: &str,
    answer: Answer,
    result: Result<Option<SummaryRow>, NoteDeckError>,
)
    requires
        call_ensures(Database::get_cached_summary_reply, (url, &answer), result),
    ensures
        if answer.rows@.len() > 0 {
            match summary_in(url@, answer@.rows[0], 0) {
                Ok(v) => result matches Ok(Some(found)) && found@ == v,
                Err(e) => result matches Err(f) && f@ == e,
            }
        } else {
            match answer.failure {
                Some(e) => result matches Err(f) && f@ == e@,
                None => result matches Ok(None),
            }
        },
{
    assert(answer@.rows.len() == answer.rows@.len());
}

/// The dates of an answer are given where both are there. Where one of them is
/// null there are none.
pub proof fn replying_with_dates(
    answer: Answer,
    result: Result<Option<(String, String)>, NoteDeckError>,
)
    requires
        call_ensures(Database::get_cache_date_range_reply, (&answer,), result),
    ensures
        answer.rows@.len() == 0 ==> match answer.failure {
            Some(e) => result matches Err(f) && f@ == e@,
            None => result matches Err(
                NoteDeckError::Database(DatabaseError::QueryReturnedNoRows),
            ),
        },
        answer.rows@.len() > 0 ==> {
            let row = answer@.rows[0];
            match first_of(seq![optional_text_fault(row, 0), optional_text_fault(row, 1)]) {
                Some(e) => result matches Err(f) && f@ == e,
                None => match (row[0], row[1]) {
                    (Cell::Text(min), Cell::Text(max)) => result matches Ok(Some((a, b))) && a@
                        == min && b@ == max,
                    _ => result matches Ok(None),
                },
            }
        },
{
    assert(answer@.rows.len() == answer.rows@.len());
    if answer.rows@.len() > 0 {
        reading_single_values(answer@.rows[0]);
    }
}

/// An answer is read as a whole, by its first row, or by its readable rows, whatever
/// it holds.
pub proof fn reading_an_answer<T: FromRow>(
    answer: Answer,
    all: Result<Vec<T>, NoteDeckError>,
    first: Result<Option<T>, NoteDeckError>,
    one: Result<T, NoteDeckError>,
    readable: Vec<T>,
)
    requires
        call_ensures(Answer::all::<T>, (&answer,), all),
        call_ensures(Answer::first::<T>, (&answer,), first),
        call_ensures(Answer::one::<T>, (&answer,), one),
        call_ensures(Answer::readable::<T>, (&answer,), readable),
    ensures
        reads_all::<T>(answer, all),
        reads_first::<T>(answer, first),
        reads_one::<T>(answer, one),
        reads_readable::<T>(answer, readable),
{
    assert(answer@.rows.len() == answer.rows@.len());
    lemma_all::<T>(answer, all);
    lemma_readable::<T>(answer, readable);
}

/// A column and a summary are read from a row by themselves as from an answer.
pub proof fn reading_from_a_row(
    url: &str,
    row: Vec<Value>,
    off: usize,
    text: Result<Option<String>, NoteDeckError>,
    summary: Result<SummaryRow, NoteDeckError>,
    offset: Result<SummaryRow, NoteDeckError>,
)
    requires
        call_ensures(get_optional_text, (&row, off), text),
        call_ensures(row_to_summary, (url, &row), summary),
        call_ensures(row_to_summary_offset, (url, &row, off), offset),
    ensures
        match optional_text_fault(row.deep_view(), off as int) {
            Some(e) => text matches Err(f) && f@ == e,
            None => text matches Ok(t) && is_of(t.deep_view(), row.deep_view()[off as int]),
        },
        match summary_in(url@, row.deep_view(), 0) {
            Ok(v) => summary matches Ok(r) && r@ == v,
            Err(e) => summary matches Err(f) && f@ == e,
        },
        match summary_in(url@, row.deep_view(), off as int) {
            Ok(v) => offset matches Ok(r) && r@ == v,
            Err(e) => offset matches Err(f) && f@ == e,
        },
{
}

/// The integer that an answer starts with, or what stands in its way.
pub open spec fn integer_of(answer: Answer) -> Result<int, DatabaseErrorView> {
    if answer.rows@.len() > 0 {
        match integer_fault(answer@.rows[0], 0) {
            Some(e) => Err(e),
            None => Ok(answer@.rows[0][0]->Integer_0),
        }
    } else {
        match answer.failure {
            Some(e) => Err(e@),
            None => Err(DatabaseErrorView::QueryReturnedNoRows),
        }
    }
}

/// The statistics are the number of notes, and the bytes of as many pages as the
/// file has.
pub proof fn replying_with_statistics(
    count: Answer,
    page_count: Answer,
    page_size: Answer,
    result: Result<(i64, i64), NoteDeckError>,
)
    requires
        call_ensures(Database::cache_stats_reply, (&count, &page_count, &page_size), result),
    ensures
        match (integer_of(count), integer_of(page_count), integer_of(page_size)) {
            (Err(e), _, _) => result matches Err(f) && f@ == e,
            (_, Err(e), _) => result matches Err(f) && f@ == e,
            (_, _, Err(e)) => result matches Err(f) && f@ == e,
            (Ok(n), Ok(pages), Ok(size)) => i64::MIN <= n <= i64::MAX && i64::MIN <= pages
                <= i64::MAX && i64::MIN <= size <= i64::MAX && i64::MIN <= pages * size <= i64::MAX
                ==> (result matches Ok((notes, bytes)) && notes == n && bytes == pages * size),
        },
{
    assert(count@.rows.len() == count.rows@.len());
    assert(page_count@.rows.len() == page_count.rows@.len());
    assert(page_size@.rows.len() == page_size.rows@.len());
}

/// The statistics of chats are the number of messages, and about as many bytes as
/// they take: none where there are no messages, or where the bytes are not known.
pub proof fn replying_with_chat_statistics(
    count: Answer,
    size: Result<Answer, NoteDeckError>,
    result: Result<(i64, i64), NoteDeckError>,
)
    requires
        call_ensures(Database::chat_cache_stats_reply, (&count, &size), result),
    ensures
        match integer_of(count) {
            Err(e) => result matches Err(f) && f@ == e,
            Ok(n) => i64::MIN <= n <= i64::MAX ==> (result matches Ok((messages, bytes)) && {
                &&& messages == n
                &&& n == 0 || size is Err || integer_of(size->Ok_0) is Err ==> bytes == 0
                &&& n != 0 && size is Ok && integer_of(size->Ok_0) is Ok && i64::MIN <= integer_of(
                    size->Ok_0,
                )->Ok_0 <= i64::MAX ==> bytes == integer_of(size->Ok_0)->Ok_0
            }),
        },
{
    assert(count@.rows.len() == count.rows@.len());
    if let Ok(answer) = size {
        assert(answer@.rows.len() == answer.rows@.len());
    }
}

proof fn lemma_somes<T>(items: Seq<Option<T>>)
    ensures
        somes(items) == items.filter(|item: Option<T>| item is Some).map_values(
            |item: Option<T>| item->0,
        ),
    decreases items.len(),
{
    let p = |item: Option<T>| item is Some;
    let f = |item: Option<T>| item->0;
    reveal(Seq::filter);
    if items.len() > 0 {
        lemma_somes(items.drop_last());
        let kept = items.drop_last().filter(p);
        if items.last() is Some {
            assert(kept.push(items.last()).map_values(f) =~= kept.map_values(f).push(
                items.last()->0,
            ));
        }
    } else {
        assert(items.filter(p).map_values(f) =~= Seq::<T>::empty());
    }
}

/// What is present is kept, in its order, and nothing else.
pub proof fn keeping_what_is_present<T>(items: Vec<Option<T>>, kept: Vec<T>)
    requires
        call_ensures(present_only::<T>, (items,), kept),
    ensures
        kept@ == items@.filter(|item: Option<T>| item is Some).map_values(
            |item: Option<T>| item->0,
        ),
{
    lemma_somes(items@);
}

} // verus!
