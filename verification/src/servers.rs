//! What is known of the servers' software.
use vstd::prelude::*;
use crate::database::Database;
use crate::decode::{seen, Answer};
use crate::error::NoteDeckError;
use crate::records::{ServerDetection, ServerDetectionView};
use crate::sql::{
    assign, is_text, Assignment, AssignmentView, Condition, ConditionView, Order, Query, QueryView,
    Statement, StatementView,
};
use crate::value::{optional_text, Cell, Column, Table, Value};

verus! {

/// The columns of a detection, in the order in which they are read.
pub open spec fn detection_columns() -> Seq<Column> {
    seq![
        Column::Host,
        Column::SoftwareName,
        Column::SoftwareVersion,
        Column::SoftwareRepository,
        Column::MetaJson,
        Column::UpdatedAt,
    ]
}

/// The query for detections that meet `filter`.
pub open spec fn detection_query(filter: Seq<ConditionView>) -> QueryView {
    QueryView::Select {
        table: Table::ServerDetections,
        columns: detection_columns(),
        filter,
        order: Order::Unordered,
        limit: None,
    }
}

/// What each column of a detection's row holds.
pub open spec fn detection_values(d: ServerDetectionView) -> Seq<AssignmentView> {
    seq![
        assign(Column::Host, Cell::Text(d.host)),
        assign(Column::SoftwareName, Cell::Text(d.software_name)),
        assign(Column::SoftwareVersion, Cell::Text(d.software_version)),
        assign(Column::SoftwareRepository, optional_text(d.software_repository)),
        assign(Column::MetaJson, Cell::Text(d.meta_json)),
        assign(Column::UpdatedAt, Cell::Integer(d.updated_at as int)),
    ]
}

/// The statement that stores what was detected, in place of what was known of
/// the host.
pub open spec fn detection_upsert(d: ServerDetectionView) -> StatementView {
    StatementView::Upsert {
        table: Table::ServerDetections,
        values: detection_values(d),
        key: seq![Column::Host],
        update: seq![
            Column::SoftwareName,
            Column::SoftwareVersion,
            Column::SoftwareRepository,
            Column::MetaJson,
            Column::UpdatedAt,
        ],
    }
}

fn query(filter: Vec<Condition>) -> (r: Query)
    ensures
        r@ == detection_query(filter.deep_view()),
{
    let columns: Vec<Column> = vec![
        Column::Host,
        Column::SoftwareName,
        Column::SoftwareVersion,
        Column::SoftwareRepository,
        Column::MetaJson,
        Column::UpdatedAt,
    ];
    assert(columns@ =~= detection_columns());
    Query::Select {
        table: Table::ServerDetections,
        columns,
        filter,
        order: Order::Unordered,
        limit: None,
    }
}

impl Database {
    /// All detections.
    pub fn load_server_detections() -> (r: Query)
        ensures
            r@ == detection_query(Seq::empty()),
    {
        let none: Vec<Condition> = Vec::new();
        assert(none.deep_view() =~= Seq::<ConditionView>::empty());
        query(none)
    }

    /// All detections of the answer.
    pub fn load_server_detections_reply(answer: &Answer) -> (r: Result<
        Vec<ServerDetection>,
        NoteDeckError,
    >)
        ensures
            seen(r) == answer@.all::<ServerDetection>(),
    {
        answer.all::<ServerDetection>()
    }

    /// What was detected on this host.
    pub fn get_server_detection(host: &str) -> (r: Query)
        ensures
            r@ == detection_query(seq![is_text(Column::Host, host@)]),
    {
        let filter: Vec<Condition> = vec![Condition::is_text(Column::Host, host)];
        assert(filter.deep_view() =~= seq![is_text(Column::Host, host@)]);
        query(filter)
    }

    /// The detection of the answer, if it has one.
    pub fn get_server_detection_reply(answer: &Answer) -> (r: Result<
        Option<ServerDetection>,
        NoteDeckError,
    >)
        ensures
            seen(r) == answer@.first::<ServerDetection>(),
    {
        answer.first::<ServerDetection>()
    }

    /// Stores what was detected on a host, in place of what was known of it.
    pub fn upsert_server_detection(det: &ServerDetection) -> (r: Statement)
        ensures
            r@ == detection_upsert(det@),
    {
        let values: Vec<Assignment> = vec![
            Assignment::new(Column::Host, Value::text(det.host.as_str())),
            Assignment::new(Column::SoftwareName, Value::text(det.software_name.as_str())),
            Assignment::new(Column::SoftwareVersion, Value::text(det.software_version.as_str())),
            Assignment::new(
                Column::SoftwareRepository,
                Value::optional_text(&det.software_repository),
            ),
            Assignment::new(Column::MetaJson, Value::text(det.meta_json.as_str())),
            Assignment::new(Column::UpdatedAt, Value::Integer(det.updated_at)),
        ];
        assert(values.deep_view() =~= detection_values(det@));
        let r = Statement::Upsert {
            table: Table::ServerDetections,
            values,
            key: vec![Column::Host],
            update: vec![
                Column::SoftwareName,
                Column::SoftwareVersion,
                Column::SoftwareRepository,
                Column::MetaJson,
                Column::UpdatedAt,
            ],
        };
        assert(r@ =~= detection_upsert(det@));
        r
    }
}

} // verus!
