//! What is stored of a server is what is found of it.
use vstd::prelude::*;
use crate::decode::complete;
use crate::error::DatabaseErrorView;
use crate::laws::rows::{
    lemma_filter_from, lemma_filter_nothing, lemma_meets_text, lemma_none_answered,
    lemma_one_answered, lemma_overwritten, lemma_row_of, lemma_unselected, lemma_upserted_found,
};
use crate::records::{ServerDetection, ServerDetectionView};
use crate::servers::{detection_query, detection_upsert, detection_values};
use crate::sql::is_text;
use crate::tables::{
    agree, distinct, has_key, key_of, keyed, meets, overwritten, row_of, selected, Matching, Row,
    Tables,
};
use crate::value::{optional_text, Cell, Column, Table};

verus! {

proof fn lemma_detection_row(d: ServerDetectionView)
    ensures
        ({
            let row = row_of(detection_values(d));
            &&& row[Column::Host] == Cell::Text(d.host)
            &&& row[Column::SoftwareName] == Cell::Text(d.software_name)
            &&& row[Column::SoftwareVersion] == Cell::Text(d.software_version)
            &&& row[Column::SoftwareRepository] == optional_text(d.software_repository)
            &&& row[Column::MetaJson] == Cell::Text(d.meta_json)
            &&& row[Column::UpdatedAt] == Cell::Integer(d.updated_at as int)
        }),
{
    let values = detection_values(d);
    lemma_row_of(values);
    assert(values[0].column == Column::Host);
    assert(values[1].column == Column::SoftwareName);
    assert(values[2].column == Column::SoftwareVersion);
    assert(values[3].column == Column::SoftwareRepository);
    assert(values[4].column == Column::MetaJson);
    assert(values[5].column == Column::UpdatedAt);
}

/// A detection that was stored is found by its host, as it was stored last,
/// whatever was known of the host before.
pub proof fn a_stored_detection_is_found(
    d: ServerDetectionView,
    before: Tables,
    after: Tables,
    changed: nat,
    found: Seq<Seq<Cell>>,
    m: Matching,
)
    requires
        keyed(before),
        detection_upsert(d).step(before, after, changed, m),
        detection_query(seq![is_text(Column::Host, d.host)]).answered(after, found, m),
    ensures
        complete(found).first::<ServerDetection>() == Ok::<
            Option<ServerDetectionView>,
            DatabaseErrorView,
        >(Some(d)),
{
    let rows = before[Table::ServerDetections];
    let new = row_of(detection_values(d));
    let key = seq![Column::Host];
    let update = seq![
        Column::SoftwareName,
        Column::SoftwareVersion,
        Column::SoftwareRepository,
        Column::MetaJson,
        Column::UpdatedAt,
    ];
    let filter = seq![is_text(Column::Host, d.host)];
    let query = detection_query(filter);
    assert(distinct(rows, key_of(Table::ServerDetections)));
    lemma_detection_row(d);
    assert forall|row: Row| #[trigger] meets(row, filter, m) <==> agree(row, new, key) by {
        lemma_meets_text(row, Column::Host, d.host, m);
        if agree(row, new, key) {
            assert(row[key[0]] == new[key[0]]);
        }
    }
    lemma_upserted_found(rows, new, key, update, filter, m);
    if has_key(rows, new, key) {
        let old_row = selected(rows, filter, m)[0];
        let row = overwritten(old_row, new, update);
        lemma_filter_from(rows, |row: Row| meets(row, filter, m), 0);
        assert(agree(old_row, new, key));
        assert(old_row[key[0]] == new[key[0]]);
        assert(update[0] == Column::SoftwareName);
        assert(update[1] == Column::SoftwareVersion);
        assert(update[2] == Column::SoftwareRepository);
        assert(update[3] == Column::MetaJson);
        assert(update[4] == Column::UpdatedAt);
        lemma_overwritten(old_row, new, update, Column::Host);
        lemma_overwritten(old_row, new, update, Column::SoftwareName);
        lemma_overwritten(old_row, new, update, Column::SoftwareVersion);
        lemma_overwritten(old_row, new, update, Column::SoftwareRepository);
        lemma_overwritten(old_row, new, update, Column::MetaJson);
        lemma_overwritten(old_row, new, update, Column::UpdatedAt);
        lemma_one_answered(query, row, after, found, m);
    } else {
        lemma_one_answered(query, new, after, found, m);
    }
}

/// A host of which nothing is stored is not found.
pub proof fn an_unknown_host_is_not_found(
    host: Seq<char>,
    tables: Tables,
    found: Seq<Seq<Cell>>,
    m: Matching,
)
    requires
        forall|i: int|
            0 <= i < tables[Table::ServerDetections].len() ==> (
            #[trigger] tables[Table::ServerDetections][i])[Column::Host] != Cell::Text(host),
        detection_query(seq![is_text(Column::Host, host)]).answered(tables, found, m),
    ensures
        complete(found).first::<ServerDetection>() == Ok::<
            Option<ServerDetectionView>,
            DatabaseErrorView,
        >(None),
{
    let rows = tables[Table::ServerDetections];
    lemma_unselected(rows, Column::Host, host, m);
    lemma_filter_nothing(
        rows,
        |row: Row| row[Column::Host] == Cell::Text(host),
    );
    lemma_none_answered(
        detection_query(seq![is_text(Column::Host, host)]),
        tables,
        found,
        m,
    );
}

} // verus!
