//! Answers of the engine, and how records are read from them.
use vstd::prelude::*;
use crate::error::{DatabaseError, DatabaseErrorView, NoteDeckError};
use crate::records::{
    Account, AccountView, ServerDetection, ServerDetectionView, SummaryRow, SummaryRowView,
};
use crate::value::{Cell, Value};

verus! {

/// What the engine gives for a query that it has started: some rows, and then,
/// where it could not go on, a failure.
#[derive(Debug, Clone)]
pub struct Answer {
    pub rows: Vec<Vec<Value>>,
    pub failure: Option<NoteDeckError>,
}

#[verifier::ext_equal]
pub struct AnswerView {
    pub rows: Seq<Seq<Cell>>,
    pub failure: Option<DatabaseErrorView>,
}

impl View for Answer {
    type V = AnswerView;

    open spec fn view(&self) -> AnswerView {
        AnswerView { rows: self.rows.deep_view(), failure: self.failure.deep_view() }
    }
}

impl DeepView for Answer {
    type V = AnswerView;

    open spec fn deep_view(&self) -> AnswerView {
        self.view()
    }
}

/// An answer that ends where its rows end.
pub open spec fn complete(rows: Seq<Seq<Cell>>) -> AnswerView {
    AnswerView { rows, failure: None }
}

/// A result with its value and its error as they are seen in contracts.
pub open spec fn seen<T: DeepView>(r: Result<T, NoteDeckError>) -> Result<T::V, DatabaseErrorView> {
    match r {
        Ok(v) => Ok(v.deep_view()),
        Err(e) => Err(e@),
    }
}

// ---- columns ----

/// The text in a column.
pub open spec fn text_at(row: Seq<Cell>, column: int) -> Result<Seq<char>, DatabaseErrorView> {
    if column >= row.len() {
        Err(DatabaseErrorView::InvalidColumnIndex { column })
    } else {
        match row[column] {
            Cell::Text(s) => Ok(s),
            Cell::InvalidText => Err(DatabaseErrorView::Utf8Error { column }),
            _ => Err(DatabaseErrorView::InvalidColumnType { column }),
        }
    }
}

/// The text in a column, or none where it is null.
pub open spec fn optional_text_at(row: Seq<Cell>, column: int) -> Result<
    Option<Seq<char>>,
    DatabaseErrorView,
> {
    if column >= row.len() {
        Err(DatabaseErrorView::InvalidColumnIndex { column })
    } else {
        match row[column] {
            Cell::Null => Ok(None),
            Cell::Text(s) => Ok(Some(s)),
            Cell::InvalidText => Err(DatabaseErrorView::Utf8Error { column }),
            _ => Err(DatabaseErrorView::InvalidColumnType { column }),
        }
    }
}

/// The integer in a column.
pub open spec fn integer_at(row: Seq<Cell>, column: int) -> Result<int, DatabaseErrorView> {
    if column >= row.len() {
        Err(DatabaseErrorView::InvalidColumnIndex { column })
    } else {
        match row[column] {
            Cell::Integer(i) => Ok(i),
            _ => Err(DatabaseErrorView::InvalidColumnType { column }),
        }
    }
}

/// The integer in a column, where it is one of at most 32 bits with a sign.
pub open spec fn small_integer_at(row: Seq<Cell>, column: int) -> Result<int, DatabaseErrorView> {
    match integer_at(row, column) {
        Ok(i) => if i32::MIN <= i <= i32::MAX {
            Ok(i)
        } else {
            Err(DatabaseErrorView::IntegralValueOutOfRange { column, value: i })
        },
        Err(e) => Err(e),
    }
}

/// The integer in a column, where it is one of at most 32 bits without a sign,
/// or none where it is null.
pub open spec fn optional_size_at(row: Seq<Cell>, column: int) -> Result<
    Option<u32>,
    DatabaseErrorView,
> {
    if 0 <= column < row.len() && row[column] is Null {
        Ok(None)
    } else {
        match integer_at(row, column) {
            Ok(i) => if 0 <= i <= u32::MAX {
                Ok(Some(i as u32))
            } else {
                Err(DatabaseErrorView::IntegralValueOutOfRange { column, value: i })
            },
            Err(e) => Err(e),
        }
    }
}

fn wrong_index(column: usize) -> (r: NoteDeckError)
    ensures
        r@ == (DatabaseErrorView::InvalidColumnIndex { column: column as int }),
{
    NoteDeckError::Database(DatabaseError::InvalidColumnIndex { column })
}

fn wrong_type(column: usize) -> (r: NoteDeckError)
    ensures
        r@ == (DatabaseErrorView::InvalidColumnType { column: column as int }),
{
    NoteDeckError::Database(DatabaseError::InvalidColumnType { column })
}

fn wrong_text(column: usize) -> (r: NoteDeckError)
    ensures
        r@ == (DatabaseErrorView::Utf8Error { column: column as int }),
{
    NoteDeckError::Database(DatabaseError::Utf8Error { column })
}

fn out_of_range(column: usize, value: i64) -> (r: NoteDeckError)
    ensures
        r@ == (DatabaseErrorView::IntegralValueOutOfRange {
            column: column as int,
            value: value as int,
        }),
{
    NoteDeckError::Database(DatabaseError::IntegralValueOutOfRange { column, value })
}

fn get_text(row: &Vec<Value>, column: usize) -> (r: Result<String, NoteDeckError>)
    ensures
        seen(r) == text_at(row.deep_view(), column as int),
{
    if column >= row.len() {
        Err(wrong_index(column))
    } else {
        assert(row.deep_view()[column as int] == row[column as int]@);
        match &row[column] {
            Value::Text(s) => Ok(s.clone()),
            Value::InvalidText => Err(wrong_text(column)),
            _ => Err(wrong_type(column)),
        }
    }
}

/// The text in a column, or none where it is null.
pub fn get_optional_text(row: &Vec<Value>, column: usize) -> (r: Result<
    Option<String>,
    NoteDeckError,
>)
    ensures
        seen(r) == optional_text_at(row.deep_view(), column as int),
{
    if column >= row.len() {
        Err(wrong_index(column))
    } else {
        assert(row.deep_view()[column as int] == row[column as int]@);
        match &row[column] {
            Value::Null => Ok(None),
            Value::Text(s) => Ok(Some(s.clone())),
            Value::InvalidText => Err(wrong_text(column)),
            _ => Err(wrong_type(column)),
        }
    }
}

fn get_integer(row: &Vec<Value>, column: usize) -> (r: Result<i64, NoteDeckError>)
    ensures
        match integer_at(row.deep_view(), column as int) {
            Ok(i) => r is Ok && r->Ok_0 == i,
            Err(e) => r is Err && r->Err_0@ == e,
        },
{
    if column >= row.len() {
        Err(wrong_index(column))
    } else {
        assert(row.deep_view()[column as int] == row[column as int]@);
        match &row[column] {
            Value::Integer(i) => Ok(*i),
            _ => Err(wrong_type(column)),
        }
    }
}

fn get_small_integer(row: &Vec<Value>, column: usize) -> (r: Result<i32, NoteDeckError>)
    ensures
        match small_integer_at(row.deep_view(), column as int) {
            Ok(i) => r is Ok && r->Ok_0 == i,
            Err(e) => r is Err && r->Err_0@ == e,
        },
{
    let i = get_integer(row, column)?;
    if -0x8000_0000 <= i && i <= 0x7fff_ffff {
        Ok(i as i32)
    } else {
        Err(out_of_range(column, i))
    }
}

fn get_optional_size(row: &Vec<Value>, column: usize) -> (r: Result<Option<u32>, NoteDeckError>)
    ensures
        seen(r) == optional_size_at(row.deep_view(), column as int),
{
    if column < row.len() {
        assert(row.deep_view()[column as int] == row[column as int]@);
        if let Value::Null = &row[column] {
            return Ok(None);
        }
    }
    let i = get_integer(row, column)?;
    if 0 <= i && i <= 0xffff_ffff {
        Ok(Some(i as u32))
    } else {
        Err(out_of_range(column, i))
    }
}

// ---- records ----

/// The account in a row of all columns of the accounts, or the error of the
/// first column that does not fit.
pub open spec fn account_in(row: Seq<Cell>) -> Result<
    AccountView,
    DatabaseErrorView,
> {
    if text_at(row, 0) is Err {
        Err(text_at(row, 0)->Err_0)
    } else if text_at(row, 1) is Err {
        Err(text_at(row, 1)->Err_0)
    } else if text_at(row, 2) is Err {
        Err(text_at(row, 2)->Err_0)
    } else if text_at(row, 3) is Err {
        Err(text_at(row, 3)->Err_0)
    } else if text_at(row, 4) is Err {
        Err(text_at(row, 4)->Err_0)
    } else if optional_text_at(row, 5) is Err {
        Err(optional_text_at(row, 5)->Err_0)
    } else if optional_text_at(row, 6) is Err {
        Err(optional_text_at(row, 6)->Err_0)
    } else if text_at(row, 7) is Err {
        Err(text_at(row, 7)->Err_0)
    } else {
        Ok(
            AccountView {
                id: text_at(row, 0)->Ok_0,
                host: text_at(row, 1)->Ok_0,
                token: text_at(row, 2)->Ok_0,
                user_id: text_at(row, 3)->Ok_0,
                username: text_at(row, 4)->Ok_0,
                display_name: optional_text_at(row, 5)->Ok_0,
                avatar_url: optional_text_at(row, 6)->Ok_0,
                software: text_at(row, 7)->Ok_0,
            },
        )
    }
}

/// The detection in a row of all columns of the server detections, or the
/// error of the first column that does not fit.
pub open spec fn server_detection_in(row: Seq<Cell>) -> Result<
    ServerDetectionView,
    DatabaseErrorView,
> {
    if text_at(row, 0) is Err {
        Err(text_at(row, 0)->Err_0)
    } else if text_at(row, 1) is Err {
        Err(text_at(row, 1)->Err_0)
    } else if text_at(row, 2) is Err {
        Err(text_at(row, 2)->Err_0)
    } else if optional_text_at(row, 3) is Err {
        Err(optional_text_at(row, 3)->Err_0)
    } else if text_at(row, 4) is Err {
        Err(text_at(row, 4)->Err_0)
    } else if integer_at(row, 5) is Err {
        Err(integer_at(row, 5)->Err_0)
    } else {
        Ok(
            ServerDetectionView {
                host: text_at(row, 0)->Ok_0,
                software_name: text_at(row, 1)->Ok_0,
                software_version: text_at(row, 2)->Ok_0,
                software_repository: optional_text_at(row, 3)->Ok_0,
                meta_json: text_at(row, 4)->Ok_0,
                updated_at: integer_at(row, 5)->Ok_0 as i64,
            },
        )
    }
}

/// The summary of `url` in a row whose columns from `off` on are those of a
/// summary, or the error of the first column that does not fit, the mark of
/// sensitive content taken first.
pub open spec fn summary_in(url: Seq<char>, row: Seq<Cell>, off: int) -> Result<
    SummaryRowView,
    DatabaseErrorView,
> {
    if small_integer_at(row, off + 10) is Err {
        Err(small_integer_at(row, off + 10)->Err_0)
    } else if optional_text_at(row, off) is Err {
        Err(optional_text_at(row, off)->Err_0)
    } else if optional_text_at(row, off + 1) is Err {
        Err(optional_text_at(row, off + 1)->Err_0)
    } else if optional_text_at(row, off + 2) is Err {
        Err(optional_text_at(row, off + 2)->Err_0)
    } else if optional_text_at(row, off + 3) is Err {
        Err(optional_text_at(row, off + 3)->Err_0)
    } else if optional_text_at(row, off + 4) is Err {
        Err(optional_text_at(row, off + 4)->Err_0)
    } else if optional_text_at(row, off + 5) is Err {
        Err(optional_text_at(row, off + 5)->Err_0)
    } else if optional_size_at(row, off + 6) is Err {
        Err(optional_size_at(row, off + 6)->Err_0)
    } else if optional_size_at(row, off + 7) is Err {
        Err(optional_size_at(row, off + 7)->Err_0)
    } else if optional_text_at(row, off + 8) is Err {
        Err(optional_text_at(row, off + 8)->Err_0)
    } else if optional_text_at(row, off + 9) is Err {
        Err(optional_text_at(row, off + 9)->Err_0)
    } else if optional_text_at(row, off + 11) is Err {
        Err(optional_text_at(row, off + 11)->Err_0)
    } else {
        Ok(
            SummaryRowView {
                url: url,
                title: optional_text_at(row, off)->Ok_0,
                description: optional_text_at(row, off + 1)->Ok_0,
                thumbnail: optional_text_at(row, off + 2)->Ok_0,
                sitename: optional_text_at(row, off + 3)->Ok_0,
                icon: optional_text_at(row, off + 4)->Ok_0,
                player_url: optional_text_at(row, off + 5)->Ok_0,
                player_width: optional_size_at(row, off + 6)->Ok_0,
                player_height: optional_size_at(row, off + 7)->Ok_0,
                player_allow: optional_text_at(row, off + 8)->Ok_0,
                final_url: optional_text_at(row, off + 9)->Ok_0,
                sensitive: small_integer_at(row, off + 10)->Ok_0 != 0,
                medias_json: optional_text_at(row, off + 11)->Ok_0,
            },
        )
    }
}

/// A value that a row can hold.
pub trait FromRow: Sized + DeepView {
    /// The value in a row, or why there is none.
    spec fn decoded(row: Seq<Cell>) -> Result<<Self as DeepView>::V, DatabaseErrorView>;

    /// Reads the value from a row.
    fn from_row(row: &Vec<Value>) -> (r: Result<Self, NoteDeckError>)
        ensures
            seen(r) == Self::decoded(row.deep_view()),
    ;
}

/// A text in the first column.
impl FromRow for String {
    open spec fn decoded(row: Seq<Cell>) -> Result<Seq<char>, DatabaseErrorView> {
        text_at(row, 0)
    }

    fn from_row(row: &Vec<Value>) -> (r: Result<Self, NoteDeckError>) {
        get_text(row, 0)
    }
}

/// An integer in the first column.
impl FromRow for i64 {
    open spec fn decoded(row: Seq<Cell>) -> Result<i64, DatabaseErrorView> {
        match integer_at(row, 0) {
            Ok(i) => Ok(i as i64),
            Err(e) => Err(e),
        }
    }

    fn from_row(row: &Vec<Value>) -> (r: Result<Self, NoteDeckError>) {
        get_integer(row, 0)
    }
}

/// A truth value in the first column: an integer other than zero.
impl FromRow for bool {
    open spec fn decoded(row: Seq<Cell>) -> Result<bool, DatabaseErrorView> {
        match integer_at(row, 0) {
            Ok(i) => Ok(i != 0),
            Err(e) => Err(e),
        }
    }

    fn from_row(row: &Vec<Value>) -> (r: Result<Self, NoteDeckError>) {
        let i = get_integer(row, 0)?;
        Ok(i != 0)
    }
}

impl FromRow for Account {
    open spec fn decoded(row: Seq<Cell>) -> Result<AccountView, DatabaseErrorView> {
        account_in(row)
    }

    fn from_row(row: &Vec<Value>) -> (r: Result<Self, NoteDeckError>) {
        Ok(
            Account {
                id: get_text(row, 0)?,
                host: get_text(row, 1)?,
                token: get_text(row, 2)?,
                user_id: get_text(row, 3)?,
                username: get_text(row, 4)?,
                display_name: get_optional_text(row, 5)?,
                avatar_url: get_optional_text(row, 6)?,
                software: get_text(row, 7)?,
            },
        )
    }
}

impl FromRow for ServerDetection {
    open spec fn decoded(row: Seq<Cell>) -> Result<ServerDetectionView, DatabaseErrorView> {
        server_detection_in(row)
    }

    fn from_row(row: &Vec<Value>) -> (r: Result<Self, NoteDeckError>) {
        Ok(
            ServerDetection {
                host: get_text(row, 0)?,
                software_name: get_text(row, 1)?,
                software_version: get_text(row, 2)?,
                software_repository: get_optional_text(row, 3)?,
                meta_json: get_text(row, 4)?,
                updated_at: get_integer(row, 5)?,
            },
        )
    }
}

/// Reads the summary of `url` from a row whose columns from `off` on are those
/// of a summary.
pub fn row_to_summary_offset(url: &str, row: &Vec<Value>, off: usize) -> (r: Result<
    SummaryRow,
    NoteDeckError,
>)
    requires
        off + 11 <= usize::MAX,
    ensures
        seen(r) == summary_in(url@, row.deep_view(), off as int),
{
    let sensitive_i = get_small_integer(row, off + 10)?;
    Ok(
        SummaryRow {
            url: url.to_owned(),
            title: get_optional_text(row, off)?,
            description: get_optional_text(row, off + 1)?,
            thumbnail: get_optional_text(row, off + 2)?,
            sitename: get_optional_text(row, off + 3)?,
            icon: get_optional_text(row, off + 4)?,
            player_url: get_optional_text(row, off + 5)?,
            player_width: get_optional_size(row, off + 6)?,
            player_height: get_optional_size(row, off + 7)?,
            player_allow: get_optional_text(row, off + 8)?,
            final_url: get_optional_text(row, off + 9)?,
            sensitive: sensitive_i != 0,
            medias_json: get_optional_text(row, off + 11)?,
        },
    )
}

/// Reads the summary of `url` from a row without the url.
pub fn row_to_summary(url: &str, row: &Vec<Value>) -> (r: Result<SummaryRow, NoteDeckError>)
    ensures
        seen(r) == summary_in(url@, row.deep_view(), 0),
{
    row_to_summary_offset(url, row, 0)
}

/// The url in the first column, the rest of the summary behind it.
impl FromRow for SummaryRow {
    open spec fn decoded(row: Seq<Cell>) -> Result<SummaryRowView, DatabaseErrorView> {
        match text_at(row, 0) {
            Ok(url) => summary_in(url, row, 1),
            Err(e) => Err(e),
        }
    }

    fn from_row(row: &Vec<Value>) -> (r: Result<Self, NoteDeckError>) {
        let url = get_text(row, 0)?;
        row_to_summary_offset(url.as_str(), row, 1)
    }
}

// ---- answers ----

/// The values in all rows, or the error of the first that holds none.
pub open spec fn decoded_rows<T: FromRow>(rows: Seq<Seq<Cell>>) -> Result<
    Seq<<T as DeepView>::V>,
    DatabaseErrorView,
>
    decreases rows.len(),
{
    if rows.len() == 0 {
        Ok(Seq::empty())
    } else {
        match decoded_rows::<T>(rows.drop_last()) {
            Err(e) => Err(e),
            Ok(values) => match T::decoded(rows.last()) {
                Err(e) => Err(e),
                Ok(v) => Ok(values.push(v)),
            },
        }
    }
}

/// The values in the rows that hold one.
pub open spec fn decodable_rows<T: FromRow>(rows: Seq<Seq<Cell>>) -> Seq<<T as DeepView>::V>
    decreases rows.len(),
{
    if rows.len() == 0 {
        Seq::empty()
    } else {
        let values = decodable_rows::<T>(rows.drop_last());
        match T::decoded(rows.last()) {
            Err(_) => values,
            Ok(v) => values.push(v),
        }
    }
}

impl AnswerView {
    /// All values, or the first error.
    pub open spec fn all<T: FromRow>(self) -> Result<Seq<<T as DeepView>::V>, DatabaseErrorView> {
        match decoded_rows::<T>(self.rows) {
            Err(e) => Err(e),
            Ok(values) => match self.failure {
                Some(e) => Err(e),
                None => Ok(values),
            },
        }
    }

    /// The value in the first row, if there is a row.
    pub open spec fn first<T: FromRow>(self) -> Result<
        Option<<T as DeepView>::V>,
        DatabaseErrorView,
    > {
        if self.rows.len() > 0 {
            match T::decoded(self.rows[0]) {
                Ok(v) => Ok(Some(v)),
                Err(e) => Err(e),
            }
        } else {
            match self.failure {
                Some(e) => Err(e),
                None => Ok(None),
            }
        }
    }

    /// The value in the first row; that there is no row is an error.
    pub open spec fn one<T: FromRow>(self) -> Result<<T as DeepView>::V, DatabaseErrorView> {
        match self.first::<T>() {
            Ok(Some(v)) => Ok(v),
            Ok(None) => Err(DatabaseErrorView::QueryReturnedNoRows),
            Err(e) => Err(e),
        }
    }
}

impl Answer {
    /// All values, or the first error.
    pub fn all<T: FromRow>(&self) -> (r: Result<Vec<T>, NoteDeckError>)
        ensures
            seen(r) == self@.all::<T>(),
    {
        let mut values: Vec<T> = Vec::new();
        let ghost rows = self@.rows;
        let mut i: usize = 0;
        assert(values.deep_view() =~= Seq::<<T as DeepView>::V>::empty());
        while i < self.rows.len()
            invariant
                i <= self.rows@.len(),
                rows == self@.rows,
                rows.len() == self.rows@.len(),
                decoded_rows::<T>(rows.take(i as int)) == Ok::<_, DatabaseErrorView>(
                    values.deep_view(),
                ),
            decreases self.rows@.len() - i,
        {
            assert(rows.take(i + 1).drop_last() =~= rows.take(i as int));
            assert(rows.take(i + 1).last() == self.rows[i as int].deep_view());
            match T::from_row(&self.rows[i]) {
                Ok(v) => {
                    let ghost before = values.deep_view();
                    values.push(v);
                    assert(values.deep_view() =~= before.push(v.deep_view()));
                },
                Err(e) => {
                    proof {
                        lemma_error_stays::<T>(rows, i + 1);
                    }
                    return Err(e);
                },
            }
            i += 1;
        }
        assert(rows.take(rows.len() as int) =~= rows);
        match &self.failure {
            Some(e) => Err(e.copied()),
            None => Ok(values),
        }
    }

    /// The values in the rows that hold one; other rows and a failure are
    /// passed over.
    pub fn readable<T: FromRow>(&self) -> (r: Vec<T>)
        ensures
            r.deep_view() == decodable_rows::<T>(self@.rows),
    {
        let mut values: Vec<T> = Vec::new();
        let ghost rows = self@.rows;
        let mut i: usize = 0;
        assert(values.deep_view() =~= Seq::<<T as DeepView>::V>::empty());
        while i < self.rows.len()
            invariant
                i <= self.rows@.len(),
                rows == self@.rows,
                rows.len() == self.rows@.len(),
                decodable_rows::<T>(rows.take(i as int)) == values.deep_view(),
            decreases self.rows@.len() - i,
        {
            assert(rows.take(i + 1).drop_last() =~= rows.take(i as int));
            assert(rows.take(i + 1).last() == self.rows[i as int].deep_view());
            if let Ok(v) = T::from_row(&self.rows[i]) {
                let ghost before = values.deep_view();
                values.push(v);
                assert(values.deep_view() =~= before.push(v.deep_view()));
            }
            i += 1;
        }
        assert(rows.take(rows.len() as int) =~= rows);
        values
    }

    /// The value in the first row, if there is a row.
    pub fn first<T: FromRow>(&self) -> (r: Result<Option<T>, NoteDeckError>)
        ensures
            seen(r) == self@.first::<T>(),
    {
        if self.rows.len() > 0 {
            assert(self@.rows[0] == self.rows[0].deep_view());
            match T::from_row(&self.rows[0]) {
                Ok(v) => Ok(Some(v)),
                Err(e) => Err(e),
            }
        } else {
            match &self.failure {
                Some(e) => Err(e.copied()),
                None => Ok(None),
            }
        }
    }

    /// The value in the first row; that there is no row is an error.
    pub fn one<T: FromRow>(&self) -> (r: Result<T, NoteDeckError>)
        ensures
            seen(r) == self@.one::<T>(),
    {
        match self.first::<T>() {
            Ok(Some(v)) => Ok(v),
            Ok(None) => Err(NoteDeckError::Database(DatabaseError::QueryReturnedNoRows)),
            Err(e) => Err(e),
        }
    }
}

/// The first error among some rows is the first among more rows.
proof fn lemma_error_stays<T: FromRow>(rows: Seq<Seq<Cell>>, n: int)
    requires
        0 <= n <= rows.len(),
        decoded_rows::<T>(rows.take(n)) is Err,
    ensures
        decoded_rows::<T>(rows) == decoded_rows::<T>(rows.take(n)),
    decreases rows.len() - n,
{
    if n == rows.len() {
        assert(rows.take(n) =~= rows);
    } else {
        assert(rows.take(n + 1).drop_last() =~= rows.take(n));
        lemma_error_stays::<T>(rows, n + 1);
    }
}

/// The values that are there, in their order.
pub open spec fn somes<T>(items: Seq<Option<T>>) -> Seq<T>
    decreases items.len(),
{
    if items.len() == 0 {
        Seq::empty()
    } else {
        match items.last() {
            Some(v) => somes(items.drop_last()).push(v),
            None => somes(items.drop_last()),
        }
    }
}

/// The values that are there, in their order.
pub fn present_only<T>(items: Vec<Option<T>>) -> (r: Vec<T>)
    ensures
        r@ == somes(items@),
{
    let mut values: Vec<T> = Vec::new();
    let ghost all = items@;
    assert(all.take(0) =~= Seq::<Option<T>>::empty());
    for item in it: items
        invariant
            it.seq() == all,
            values@ == somes(all.take(it.index() as int)),
    {
        proof {
            let k = it.index() as int;
            assert(all.take(k + 1).drop_last() =~= all.take(k));
            assert(all.take(k + 1).last() == all[k]);
        }
        if let Some(v) = item {
            values.push(v);
        }
    }
    assert(all.take(all.len() as int) =~= all);
    values
}

} // verus!
