//! Calls for what is known of servers.
use vstd::prelude::*;
use crate::database::Database;
use crate::laws::calls::{
    any, gives, has_columns, holds_text, lemma_gives, lemma_row_columns, lemma_with, puts, with,
};
use crate::laws::rows::lemma_row_of;
use crate::records::ServerDetection;
use crate::servers::detection_values;
use crate::sql::{AssignmentView, Order, Query, Statement};
use crate::tables::{row_of, Matching, Row, Tables};
use crate::value::{Cell, Column, Table};

verus! {

/// The columns that are read of a detection, in their order.
pub open spec fn read_columns() -> Seq<Column> {
    seq![
        Column::Host,
        Column::SoftwareName,
        Column::SoftwareVersion,
        Column::SoftwareRepository,
        Column::MetaJson,
        Column::UpdatedAt,
    ]
}

/// Whether a row holds a detection, all of it.
pub open spec fn holds_detection(row: Row, det: ServerDetection) -> bool {
    &&& has_columns(row, read_columns())
    &&& row[Column::Host] == Cell::Text(det.host@)
    &&& row[Column::SoftwareName] == Cell::Text(det.software_name@)
    &&& row[Column::SoftwareVersion] == Cell::Text(det.software_version@)
    &&& holds_text(row[Column::SoftwareRepository], det.software_repository)
    &&& row[Column::MetaJson] == Cell::Text(det.meta_json@)
    &&& row[Column::UpdatedAt] == Cell::Integer(det.updated_at as int)
}

/// To store a detection puts a row with all of it, in place of what was known of
/// the host.
pub proof fn storing_a_detection(
    det: ServerDetection,
    stored: Statement,
    before: Tables,
    after: Tables,
    changed: nat,
    m: Matching,
) -> (new: Row)
    requires
        call_ensures(Database::upsert_server_detection, (&det,), stored),
        stored@.step(before, after, changed, m),
    ensures
        holds_detection(new, det),
        puts(
            Table::ServerDetections,
            new,
            seq![Column::Host],
            seq![
                Column::SoftwareName,
                Column::SoftwareVersion,
                Column::SoftwareRepository,
                Column::MetaJson,
                Column::UpdatedAt,
            ],
            before,
            after,
        ),
        changed == 1,
{
    let values = detection_values(det@);
    lemma_row_of(values);
    assert(values.map_values(|a: AssignmentView| a.column) =~= read_columns());
    lemma_row_columns(values, read_columns());
    assert(values[0].column == Column::Host);
    assert(values[1].column == Column::SoftwareName);
    assert(values[2].column == Column::SoftwareVersion);
    assert(values[3].column == Column::SoftwareRepository);
    assert(values[4].column == Column::MetaJson);
    assert(values[5].column == Column::UpdatedAt);
    row_of(values)
}

/// To load the detections asks for all of them.
pub proof fn loading_detections(
    asked: Query,
    tables: Tables,
    answer: Seq<Seq<Cell>>,
    m: Matching,
)
    requires
        call_ensures(Database::load_server_detections, (), asked),
        asked@.answered(tables, answer, m),
    ensures
        gives(
            answer,
            tables[Table::ServerDetections],
            any(),
            read_columns(),
            Order::Unordered,
            None,
        ),
{
    lemma_gives(asked@, any(), tables, answer, m);
}

/// To get a detection asks for that of the host.
pub proof fn getting_a_detection(
    host: &str,
    asked: Query,
    tables: Tables,
    answer: Seq<Seq<Cell>>,
    m: Matching,
)
    requires
        call_ensures(Database::get_server_detection, (host,), asked),
        asked@.answered(tables, answer, m),
    ensures
        gives(
            answer,
            tables[Table::ServerDetections],
            with(Column::Host, host@),
            read_columns(),
            Order::Unordered,
            None,
        ),
{
    lemma_with(asked@->Select_filter, Column::Host, host@, m);
    lemma_gives(asked@, with(Column::Host, host@), tables, answer, m);
}

} // verus!
