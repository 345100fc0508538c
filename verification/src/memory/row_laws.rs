//! Which column of a row becomes which part of what is read.

use crate::memory::edge_id::edge_id_text;
use crate::memory::facts::{FactRow, fact_of, fact_rows, facts_of};
use crate::memory::graph::{EdgeRow, NodeRow};
use crate::memory::json::description_text;
use crate::memory::merge::{NodeRead, node_read};
use crate::memory::rows::{
    AliasRow, CandidateRow, ContentRow, InfoRow, NeighborRow, Row, StatsRow, Validity,
    alias_target_of, alias_targets_of, all_edges_decode, candidate_rows, columns, content_of,
    content_rows, expansion_of, expansions_of, info_rows, infos_of, invalidated_count,
    listed_content_of, listed_edge_of, neighbor_of, neighbors_of, pair_texts, snapshot_edge_of,
    snapshot_edges_of, snapshot_node_of, stats_of, stats_rows, table, validity_of,
};
use crate::memory::types::{
    AliasTarget, CandidateEdge, NeighborEdge, NodeContent, NodeFactEdge, NodeMergeStats,
    NodeResolutionInfo, NodeType,
};
use crate::memory::value::{GraphValue, LogicalType, Value};
use crate::sequence::{kept, law_kept_of_one, lemma_kept_joined};
use crate::text::{int_text, opt_text};
use crate::timestamp::Timestamp;
use vstd::prelude::*;

verus! {

/// The columns of a row are its values, one for one, and the rows of a table its own.
pub proof fn law_columns(
    rows: Seq<Row>,
    r: int,
    i: int,
    text: String,
    n: i64,
    time: Timestamp,
)
    requires
        0 <= r < rows.len(),
        0 <= i < rows[r]@.len(),
    ensures
        table(rows).len() == rows.len(),
        table(rows)[r].len() == rows[r]@.len(),
        table(rows)[r][i] == rows[r]@[i]@,
        columns(rows[r])[i] == rows[r]@[i]@,
        GraphValue::String(text)@ == Value::Text(text@),
        GraphValue::Int64(n)@ == Value::Integer(n as int),
        GraphValue::Timestamp(time)@ == Value::Time(time),
{
}

/// A stored node is read from its name, type and times, with its properties where the
/// last column is a text. A row without the first four is refused.
pub proof fn law_node_columns(
    id: Seq<char>,
    name: Seq<char>,
    kind: Seq<char>,
    created_at: Timestamp,
    updated_at: Timestamp,
    properties: Value,
    row: Seq<Value>,
)
    ensures
        ({
            let head = seq![
                Value::Text(name),
                Value::Text(kind),
                Value::Time(created_at),
                Value::Time(updated_at),
            ];
            let node = NodeRow { id, kind, name, created_at, updated_at, properties: None };
            &&& snapshot_node_of(id, head) == Some(node)
            &&& snapshot_node_of(id, head.push(properties)) == Some(
                NodeRow {
                    properties: match properties {
                        Value::Text(text) => Some(text),
                        _ => None,
                    },
                    ..node
                },
            )
        }),
        snapshot_node_of(id, row) is Some <==> row.len() >= 4 && row[0] is Text && row[1] is Text
            && row[2] is Time && row[3] is Time,
{
}

/// A stored edge is read from its endpoints, relationship, validity, text and times; the
/// end of its validity and its properties are there where their columns hold them. A row
/// without the others is refused.
pub proof fn law_edge_columns(edge: EdgeRow, invalid_at: Value, properties: Value, row: Seq<Value>)
    ensures
        ({
            let stored = seq![
                Value::Text(edge.source),
                Value::Text(edge.target),
                Value::Text(edge.relationship),
                Value::Time(edge.valid_at),
                invalid_at,
                Value::Text(edge.text),
                Value::Time(edge.created_at),
                Value::Time(edge.updated_at),
                properties,
            ];
            snapshot_edge_of(stored) == Some(
                EdgeRow {
                    invalid_at: match invalid_at {
                        Value::Time(time) => Some(time),
                        _ => None,
                    },
                    properties: match properties {
                        Value::Text(text) => Some(text),
                        _ => None,
                    },
                    ..edge
                },
            )
        }),
        snapshot_edge_of(row) is Some <==> row.len() >= 8 && row[0] is Text && row[1] is Text
            && row[2] is Text && row[3] is Time && row[5] is Text && row[6] is Time
            && row[7] is Time,
{
}

/// The edges of a snapshot read are those of its rows, one for one.
pub proof fn law_snapshot_rows(rows: Seq<Seq<Value>>, i: int)
    requires
        0 <= i < rows.len(),
        all_edges_decode(rows),
    ensures
        snapshot_edges_of(rows).len() == rows.len(),
        snapshot_edge_of(rows[i]) == Some(snapshot_edges_of(rows)[i]),
{
}

/// A read of one node is missing without rows, and its first row otherwise.
pub proof fn law_node_read(id: Seq<char>, rows: Seq<Row>, node: NodeRow)
    ensures
        node_read(id, rows) == NodeRead::Missing <==> rows.len() == 0,
        node_read(id, rows) == NodeRead::Node(node) <==> rows.len() > 0 && snapshot_node_of(
            id,
            columns(rows[0]),
        ) == Some(node),
{
}

/// An alias target is read from its identifier and its type, where the type is known.
pub proof fn law_alias_columns(
    node: Seq<char>,
    kind: NodeType,
    unknown: Seq<char>,
    row: Seq<Value>,
)
    ensures
        NodeType::of_column(kind.column()) == Some(kind) ==> alias_target_of(
            seq![Value::Text(node), Value::Text(kind.column())],
        ) == Some(AliasRow { node, kind }),
        NodeType::of_column(unknown) is None ==> alias_target_of(
            seq![Value::Text(node), Value::Text(unknown)],
        ) is None,
        alias_target_of(row) is Some ==> row.len() >= 2 && row[0] is Text && row[1] is Text,
{
}

/// A neighbor edge is read from its endpoints with their names, its relationship, text and
/// times. The other node is the target where the edge starts at the queried node, and the
/// source otherwise, by identifier and by name alike.
pub proof fn law_neighbor_columns(
    node: Seq<char>,
    source: Seq<char>,
    source_name: Seq<char>,
    target: Seq<char>,
    target_name: Seq<char>,
    relationship: Seq<char>,
    text: Seq<char>,
    valid_at: Timestamp,
    created_at: Timestamp,
    row: Seq<Value>,
)
    ensures
        ({
            let stored = seq![
                Value::Text(source),
                Value::Text(source_name),
                Value::Text(target),
                Value::Text(target_name),
                Value::Text(relationship),
                Value::Text(text),
                Value::Time(valid_at),
                Value::Time(created_at),
            ];
            let read = neighbor_of(node, stored);
            &&& read is Some
            &&& read->0.source == source && read->0.target == target
            &&& read->0.relationship == relationship && read->0.text == text
            &&& read->0.valid_at == valid_at && read->0.created_at == created_at
            &&& source == node ==> read->0.other_id == target && read->0.other_name == target_name
            &&& source != node ==> read->0.other_id == source && read->0.other_name == source_name
        }),
        neighbor_of(node, row) is Some <==> row.len() >= 8 && row[0] is Text && row[1] is Text
            && row[2] is Text && row[3] is Text && row[4] is Text && row[5] is Text
            && row[6] is Time && row[7] is Time,
{
}

/// A candidate edge is read from its endpoints with their names, its relationship, text
/// and validity; its identifier is that of its natural key.
pub proof fn law_candidate_columns(
    source: Seq<char>,
    source_name: Seq<char>,
    target: Seq<char>,
    target_name: Seq<char>,
    relationship: Seq<char>,
    text: Seq<char>,
    valid_at: Timestamp,
    row: Seq<Value>,
)
    ensures
        expansion_of(
            seq![
                Value::Text(source),
                Value::Text(source_name),
                Value::Text(target),
                Value::Text(target_name),
                Value::Text(relationship),
                Value::Text(text),
                Value::Time(valid_at),
            ],
        ) == Some(
            CandidateRow {
                edge_id: edge_id_text(source, relationship, target, valid_at.text()),
                source,
                source_name,
                target,
                target_name,
                relationship,
                text,
                valid_at,
            },
        ),
        expansion_of(row) is Some <==> row.len() >= 7 && row[0] is Text && row[1] is Text
            && row[2] is Text && row[3] is Text && row[4] is Text && row[5] is Text
            && row[6] is Time,
{
}

/// A listed edge is its identifier and its text.
pub proof fn law_listed_edge_columns(
    source: Seq<char>,
    relationship: Seq<char>,
    target: Seq<char>,
    valid_at: Timestamp,
    text: Seq<char>,
    row: Seq<Value>,
)
    ensures
        listed_edge_of(
            seq![
                Value::Text(source),
                Value::Text(relationship),
                Value::Text(target),
                Value::Time(valid_at),
                Value::Text(text),
            ],
        ) == Some((edge_id_text(source, relationship, target, valid_at.text()), text)),
        listed_edge_of(row) is Some <==> row.len() >= 5 && row[0] is Text && row[1] is Text
            && row[2] is Text && row[3] is Time && row[4] is Text,
{
}

/// A fact is read from the endpoints with their names, the relationship, the text and the
/// validity, with its end where there is one. It is outgoing where it starts at the queried
/// node; the other name is then that of the target, and that of the source otherwise.
pub proof fn law_fact_columns(
    node: Seq<char>,
    source: Seq<char>,
    source_name: Seq<char>,
    target: Seq<char>,
    target_name: Seq<char>,
    relationship: Seq<char>,
    text: Seq<char>,
    valid_at: Timestamp,
    invalid_at: Value,
    row: Seq<Value>,
)
    ensures
        ({
            let stored = seq![
                Value::Text(source),
                Value::Text(source_name),
                Value::Text(target),
                Value::Text(target_name),
                Value::Text(relationship),
                Value::Text(text),
                Value::Time(valid_at),
                invalid_at,
            ];
            let read = fact_of(node, stored);
            &&& read is Some
            &&& read->0.edge_id == edge_id_text(source, relationship, target, valid_at.text())
            &&& read->0.relationship == relationship && read->0.text == text
            &&& read->0.valid_at == valid_at
            &&& source == node ==> read->0.outgoing && read->0.other_name == target_name
            &&& source != node ==> !read->0.outgoing && read->0.other_name == source_name
            &&& match invalid_at {
                Value::Time(time) => read->0.invalid_at == Some(time),
                _ => read->0.invalid_at is None,
            }
        }),
        fact_of(node, row) is Some <==> row.len() >= 7 && row[0] is Text && row[1] is Text
            && row[2] is Text && row[3] is Text && row[4] is Text && row[5] is Text
            && row[6] is Time,
{
}

/// The display content of a node is its name and the description in its properties, from
/// the two columns at the given place.
pub proof fn law_content_columns(
    id: Seq<char>,
    name: Seq<char>,
    properties: Seq<char>,
    row: Seq<Value>,
)
    ensures
        content_of(seq![Value::Text(name), Value::Text(properties)], 0) == Some(
            ContentRow { name, description: description_text(Some(properties)) },
        ),
        content_of(seq![Value::Text(name), Value::Null(LogicalType::String)], 0) == Some(
            ContentRow { name, description: description_text(None) },
        ),
        listed_content_of(seq![Value::Text(id), Value::Text(name), Value::Text(properties)])
            == Some(
            (id, ContentRow { name, description: description_text(Some(properties)) }),
        ),
        content_of(row, 0) is Some <==> row.len() >= 1 && row[0] is Text,
        listed_content_of(row) is Some <==> row.len() >= 2 && row[0] is Text && row[1] is Text,
{
}

/// The figures of a merge candidate are its creation time and its degree, which is never
/// negative.
pub proof fn law_stats_columns(
    node: Seq<char>,
    created_at: Timestamp,
    degree: int,
    row: Seq<Value>,
)
    ensures
        degree >= 0 ==> stats_of(
            seq![Value::Text(node), Value::Time(created_at), Value::Integer(degree)],
        ) == Some(StatsRow { node, edge_degree: degree, created_at }),
        degree < 0 ==> stats_of(
            seq![Value::Text(node), Value::Time(created_at), Value::Integer(degree)],
        ) == Some(StatsRow { node, edge_degree: 0, created_at }),
        stats_of(row) is Some <==> row.len() >= 3 && row[0] is Text && row[1] is Time
            && row[2] is Integer,
{
}

/// A count of invalidated edges is itself within 32 bits, and nothing outside them.
pub proof fn law_counts(count: int)
    ensures
        0 <= count < 0x1_0000_0000 ==> invalidated_count(count) == count,
        !(0 <= count < 0x1_0000_0000) ==> invalidated_count(count) == 0,
{
}

/// The validity of an edge is the first column of the first row: a time or NULL, which
/// also stands for no column. Without rows the edge is missing.
pub proof fn law_validity_column(rows: Seq<Seq<Value>>, time: Timestamp)
    ensures
        validity_of(rows) == Validity::Missing <==> rows.len() == 0,
        validity_of(rows) == Validity::Found(Some(time)) <==> rows.len() > 0 && rows[0].len() > 0
            && rows[0][0] == Value::Time(time),
        validity_of(rows) == Validity::Found(None) <==> rows.len() > 0 && (rows[0].len() == 0
            || rows[0][0] is Null),
{
}

// ----- listings -----

/// Each listing reads its rows in order: a row that decodes adds its value, any other
/// row adds nothing.
pub proof fn law_listings_read_every_row(
    node: Seq<char>,
    rows: Seq<Seq<Value>>,
    row: Seq<Value>,
)
    ensures
        ({
            let more = rows.push(row);
            &&& neighbors_of(node, more) == match neighbor_of(node, row) {
                Some(edge) => neighbors_of(node, rows).push(edge),
                None => neighbors_of(node, rows),
            }
            &&& expansions_of(more) == match expansion_of(row) {
                Some(edge) => expansions_of(rows).push(edge),
                None => expansions_of(rows),
            }
            &&& facts_of(node, more) == match fact_of(node, row) {
                Some(fact) => facts_of(node, rows).push(fact),
                None => facts_of(node, rows),
            }
            &&& alias_targets_of(more) == match alias_target_of(row) {
                Some(target) => alias_targets_of(rows).push(target),
                None => alias_targets_of(rows),
            }
        }),
        neighbors_of(node, Seq::empty()).len() == 0,
        expansions_of(Seq::empty()).len() == 0,
        facts_of(node, Seq::empty()).len() == 0,
        alias_targets_of(Seq::empty()).len() == 0,
{
    lemma_kept_map_push(rows, row, |row: Seq<Value>| neighbor_of(node, row));
    lemma_kept_map_push(rows, row, |row: Seq<Value>| expansion_of(row));
    lemma_kept_map_push(rows, row, |row: Seq<Value>| fact_of(node, row));
    lemma_kept_map_push(rows, row, |row: Seq<Value>| alias_target_of(row));
    let none = Seq::<Seq<Value>>::empty();
    assert(none.map_values(|row: Seq<Value>| neighbor_of(node, row)).len() == 0);
    assert(none.map_values(|row: Seq<Value>| expansion_of(row)).len() == 0);
    assert(none.map_values(|row: Seq<Value>| fact_of(node, row)).len() == 0);
    assert(none.map_values(|row: Seq<Value>| alias_target_of(row)).len() == 0);
}

proof fn lemma_kept_map_push<A>(
    rows: Seq<Seq<Value>>,
    row: Seq<Value>,
    read: spec_fn(Seq<Value>) -> Option<A>,
)
    ensures
        kept(rows.push(row).map_values(read)) == match read(row) {
            Some(value) => kept(rows.map_values(read)).push(value),
            None => kept(rows.map_values(read)),
        },
{
    let before = rows.map_values(read);
    assert(rows.push(row).map_values(read) =~= before + seq![read(row)]);
    lemma_kept_joined(before, seq![read(row)]);
    law_kept_of_one(read(row));
    if read(row) is Some {
        assert(kept(before) + seq![read(row)->0] =~= kept(before).push(read(row)->0));
    } else {
        assert(kept(before) + Seq::<A>::empty() =~= kept(before));
    }
}

/// The rows of one node become one entry: its first row gives its type, and the first
/// alias edge into it the target of an alias. A node of another type has no target, and a
/// row without a known type adds nothing.
pub proof fn law_resolution_rows(
    rows: Seq<Seq<Value>>,
    node: Seq<char>,
    kind: NodeType,
    source: Value,
)
    requires
        NodeType::of_column(kind.column()) == Some(kind),
    ensures
        ({
            let before = infos_of(rows);
            let row = seq![Value::Text(node), Value::Text(kind.column()), source];
            let after = infos_of(rows.push(row));
            let target = match source {
                Value::Text(text) => Some(text),
                _ => None,
            };
            &&& before.len() == 0 || before.last().node != node ==> after == before.push(
                InfoRow {
                    node,
                    kind,
                    alias_target: if kind == NodeType::Alias {
                        target
                    } else {
                        None
                    },
                },
            )
            &&& before.len() > 0 && before.last().node == node ==> {
                &&& after.len() == before.len()
                &&& after.drop_last() == before.drop_last()
                &&& after.last().node == node && after.last().kind == before.last().kind
                &&& before.last().alias_target is Some ==> after == before
                &&& before.last().kind != NodeType::Alias ==> after == before
                &&& before.last().kind == NodeType::Alias && before.last().alias_target is None
                    ==> after.last().alias_target == target
            }
        }),
        infos_of(Seq::empty()).len() == 0,
{
    let row = seq![Value::Text(node), Value::Text(kind.column()), source];
    let more = rows.push(row);
    assert(more.drop_last() =~= rows);
    assert(more.last() == row);
}

/// A row that names no node, no type or an unknown type adds nothing.
pub proof fn law_unreadable_resolution_rows(rows: Seq<Seq<Value>>, row: Seq<Value>)
    requires
        row.len() < 2 || !(row[0] is Text) || !(row[1] is Text) || (row[1] matches Value::Text(kind)
            && NodeType::of_column(kind) is None),
    ensures
        infos_of(rows.push(row)) == infos_of(rows),
{
    assert(rows.push(row).drop_last() =~= rows);
}

// ----- what callers see -----

/// What is read carries the values of its row, each in its own field.
pub proof fn law_read_fields(
    alias: AliasTarget,
    neighbor: NeighborEdge,
    candidate: CandidateEdge,
    fact: NodeFactEdge,
    content: NodeContent,
)
    ensures
        alias@ == (AliasRow { node: alias.node_id@, kind: alias.node_type }),
        neighbor@ == (NeighborRow {
            source: neighbor.source_id@,
            target: neighbor.target_id@,
            relationship: neighbor.relationship_name@,
            text: neighbor.edge_text@,
            valid_at: neighbor.valid_at,
            created_at: neighbor.created_at,
            other_id: neighbor.other_node_id@,
            other_name: neighbor.other_node_name@,
        }),
        candidate@ == (CandidateRow {
            edge_id: candidate.edge_id@,
            source: candidate.source_id@,
            source_name: candidate.source_name@,
            target: candidate.target_id@,
            target_name: candidate.target_name@,
            relationship: candidate.relationship_name@,
            text: candidate.edge_text@,
            valid_at: candidate.valid_at,
        }),
        fact@ == (FactRow {
            edge_id: fact.edge_id@,
            relationship: fact.relationship_name@,
            other_name: fact.other_node_name@,
            outgoing: fact.outgoing,
            text: fact.edge_text@,
            valid_at: fact.valid_at,
            invalid_at: fact.invalid_at,
        }),
        content@ == (ContentRow { name: content.name@, description: content.description@ }),
{
}

/// The lists that are read are seen item by item.
pub proof fn law_read_lists(
    infos: Seq<(String, NodeResolutionInfo)>,
    stats: Seq<(String, NodeMergeStats)>,
    contents: Seq<(String, NodeContent)>,
    pairs: Seq<(String, String)>,
    candidates: Seq<CandidateEdge>,
    facts: Seq<NodeFactEdge>,
    i: int,
)
    ensures
        info_rows(infos).len() == infos.len(),
        0 <= i < infos.len() ==> info_rows(infos)[i] == (InfoRow {
            node: infos[i].0@,
            kind: infos[i].1.kind,
            alias_target: opt_text(infos[i].1.alias_target),
        }),
        stats_rows(stats).len() == stats.len(),
        0 <= i < stats.len() ==> stats_rows(stats)[i] == (StatsRow {
            node: stats[i].0@,
            edge_degree: stats[i].1.edge_degree as int,
            created_at: stats[i].1.created_at,
        }),
        content_rows(contents).len() == contents.len(),
        0 <= i < contents.len() ==> content_rows(contents)[i] == (contents[i].0@, contents[i].1@),
        pair_texts(pairs).len() == pairs.len(),
        0 <= i < pairs.len() ==> pair_texts(pairs)[i] == (pairs[i].0@, pairs[i].1@),
        candidate_rows(candidates).len() == candidates.len(),
        0 <= i < candidates.len() ==> candidate_rows(candidates)[i] == candidates[i]@,
        fact_rows(facts).len() == facts.len(),
        0 <= i < facts.len() ==> fact_rows(facts)[i] == facts[i]@,
{
}

/// A column is shown as its text, its decimal number, its truth value, its time, or as
/// NULL.
pub proof fn law_display(text: String, n: i64, time: Timestamp, logical: LogicalType)
    ensures
        GraphValue::String(text).display() == text@,
        GraphValue::Other(text).display() == text@,
        GraphValue::Int64(n).display() == int_text(n as int),
        GraphValue::Bool(true).display() == "true"@,
        GraphValue::Bool(false).display() == "false"@,
        GraphValue::Timestamp(time).display() == time.text(),
        GraphValue::Null(logical).display() == "NULL"@,
{
}

} // verus!
