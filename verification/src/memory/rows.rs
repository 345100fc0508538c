//! Decoding the rows of the graph database.
//!
//! Reads skip a row of an unexpected shape. The reads behind a destructive write
//! fail on one instead: they must not act on partial data.

use crate::memory::edge_id::edge_id_text;
use crate::memory::graph::{EdgeRow, NodeRow, edge_rows};
use crate::memory::json::{description_of, description_text};
use crate::memory::types::{
    AliasTarget, CandidateEdge, EdgeId, MemoryError, MergeSnapshotEdge, MergeSnapshotNode,
    NeighborEdge, NodeContent, NodeMergeStats, NodeResolutionInfo, NodeType, Result,
};
use crate::memory::value::{GraphValue, Value};
use crate::sequence::{kept, lemma_kept_push};
use crate::text::{opt_text, same_text};
use crate::timestamp::Timestamp;
use vstd::prelude::*;

verus! {

/// One row of columns.
pub type Row = Vec<GraphValue>;

/// The columns of a row.
pub open spec fn columns(row: Row) -> Seq<Value> {
    row@.map_values(|value: GraphValue| value@)
}

/// The columns of each row.
pub open spec fn table(rows: Seq<Row>) -> Seq<Seq<Value>> {
    rows.map_values(|row: Row| columns(row))
}

/// The text of a column, where it is one.
pub open spec fn text_column(row: Seq<Value>, i: int) -> Option<Seq<char>> {
    if 0 <= i < row.len() {
        match row[i] {
            Value::Text(text) => Some(text),
            _ => None,
        }
    } else {
        None
    }
}

/// The timestamp of a column, where it is one.
pub open spec fn time_column(row: Seq<Value>, i: int) -> Option<Timestamp> {
    if 0 <= i < row.len() {
        match row[i] {
            Value::Time(time) => Some(time),
            _ => None,
        }
    } else {
        None
    }
}

/// The integer of a column, where it is one.
pub open spec fn integer_column(row: Seq<Value>, i: int) -> Option<int> {
    if 0 <= i < row.len() {
        match row[i] {
            Value::Integer(n) => Some(n),
            _ => None,
        }
    } else {
        None
    }
}

/// The text of a column, where it is one.
pub(crate) fn text_at(row: &Row, i: usize) -> (r: Option<String>)
    ensures
        opt_text(r) == text_column(columns(*row), i as int),
{
    if i < row.len() {
        match &row[i] {
            GraphValue::String(text) => Some(text.clone()),
            _ => None,
        }
    } else {
        None
    }
}

/// The timestamp of a column, where it is one.
pub(crate) fn time_at(row: &Row, i: usize) -> (r: Option<Timestamp>)
    ensures
        r == time_column(columns(*row), i as int),
{
    if i < row.len() {
        match &row[i] {
            GraphValue::Timestamp(time) => Some(*time),
            _ => None,
        }
    } else {
        None
    }
}

fn integer_at(row: &Row, i: usize) -> (r: Option<i64>)
    ensures
        match r {
            Some(n) => integer_column(columns(*row), i as int) == Some(n as int),
            None => integer_column(columns(*row), i as int) is None,
        },
{
    if i < row.len() {
        match &row[i] {
            GraphValue::Int64(n) => Some(*n),
            _ => None,
        }
    } else {
        None
    }
}

// ----- snapshot reads -----

/// The stored node of a snapshot row.
pub open spec fn snapshot_node_of(node_id: Seq<char>, row: Seq<Value>) -> Option<NodeRow> {
    match (text_column(row, 0), text_column(row, 1), time_column(row, 2), time_column(row, 3)) {
        (Some(name), Some(kind), Some(created_at), Some(updated_at)) => Some(
            NodeRow {
                id: node_id,
                kind,
                name,
                created_at,
                updated_at,
                properties: text_column(row, 4),
            },
        ),
        _ => None,
    }
}

/// The stored node of a snapshot read: the first row, where there is one. A row of
/// an unexpected shape is an error.
pub fn read_snapshot_node(node_id: &str, rows: &Vec<Row>) -> (r: Result<Option<MergeSnapshotNode>>)
    ensures
        match r {
            Ok(None) => rows@.len() == 0,
            Ok(Some(node)) => rows@.len() > 0 && snapshot_node_of(node_id@, columns(rows@[0]))
                == Some(node@),
            Err(error) => rows@.len() > 0 && snapshot_node_of(node_id@, columns(rows@[0])) is None
                && error.is_backend("merge snapshot: unexpected node row shape for "@ + node_id@),
        },
{
    if rows.len() == 0 {
        return Ok(None);
    }
    let row = &rows[0];
    match (text_at(row, 0), text_at(row, 1), time_at(row, 2), time_at(row, 3)) {
        (Some(name), Some(kind), Some(created_at), Some(updated_at)) => {
            let properties = text_at(row, 4);
            Ok(
                Some(
                    MergeSnapshotNode {
                        id: node_id.to_owned(),
                        kind,
                        name,
                        created_at,
                        updated_at,
                        properties,
                    },
                ),
            )
        },
        _ => Err(
            MemoryError::Backend(
                "merge snapshot: unexpected node row shape for ".to_owned().concat(node_id),
            ),
        ),
    }
}

/// The stored edge of a snapshot row.
pub open spec fn snapshot_edge_of(row: Seq<Value>) -> Option<EdgeRow> {
    match (
        text_column(row, 0),
        text_column(row, 1),
        text_column(row, 2),
        time_column(row, 3),
        text_column(row, 5),
        time_column(row, 6),
        time_column(row, 7),
    ) {
        (
            Some(source),
            Some(target),
            Some(relationship),
            Some(valid_at),
            Some(text),
            Some(created_at),
            Some(updated_at),
        ) => Some(
            EdgeRow {
                source,
                target,
                relationship,
                valid_at,
                invalid_at: time_column(row, 4),
                text,
                created_at,
                updated_at,
                properties: text_column(row, 8),
            },
        ),
        _ => None,
    }
}

fn read_snapshot_edge(row: &Row) -> (r: Option<MergeSnapshotEdge>)
    ensures
        match r {
            Some(edge) => snapshot_edge_of(columns(*row)) == Some(edge@),
            None => snapshot_edge_of(columns(*row)) is None,
        },
{
    match (
        text_at(row, 0),
        text_at(row, 1),
        text_at(row, 2),
        time_at(row, 3),
        text_at(row, 5),
        time_at(row, 6),
        time_at(row, 7),
    ) {
        (
            Some(source_id),
            Some(target_id),
            Some(relationship_name),
            Some(valid_at),
            Some(edge_text),
            Some(created_at),
            Some(updated_at),
        ) => {
            let invalid_at = time_at(row, 4);
            let properties = text_at(row, 8);
            Some(
                MergeSnapshotEdge {
                    source_id,
                    target_id,
                    relationship_name,
                    valid_at,
                    invalid_at,
                    edge_text,
                    created_at,
                    updated_at,
                    properties,
                },
            )
        },
        _ => None,
    }
}

/// Whether every row decodes as a stored edge.
pub open spec fn all_edges_decode(rows: Seq<Seq<Value>>) -> bool {
    forall|i: int| 0 <= i < rows.len() ==> snapshot_edge_of(#[trigger] rows[i]) is Some
}

/// The stored edges of a snapshot read, where every row decodes.
pub open spec fn snapshot_edges_of(rows: Seq<Seq<Value>>) -> Seq<EdgeRow> {
    rows.map_values(|row: Seq<Value>| snapshot_edge_of(row)->Some_0)
}

/// The stored edges of a snapshot read. A row of an unexpected shape is an error.
pub fn read_snapshot_edges(node_id: &str, rows: &Vec<Row>) -> (r: Result<Vec<MergeSnapshotEdge>>)
    ensures
        match r {
            Ok(edges) => all_edges_decode(table(rows@)) && edge_rows(edges@) == snapshot_edges_of(
                table(rows@),
            ),
            Err(error) => !all_edges_decode(table(rows@)) && error.is_backend("merge snapshot: unexpected edge row shape for node "@ + node_id@),
        },
{
    let mut edges: Vec<MergeSnapshotEdge> = Vec::new();
    let mut i: usize = 0;
    let ghost all = table(rows@);
    while i < rows.len()
        invariant
            i <= rows@.len(),
            all == table(rows@),
            edges@.len() == i,
            forall|k: int|
                0 <= k < i ==> snapshot_edge_of(#[trigger] all[k]) == Some(edges@[k]@),
        decreases rows@.len() - i,
    {
        assert(all[i as int] == columns(rows@[i as int]));
        match read_snapshot_edge(&rows[i]) {
            Some(edge) => {
                edges.push(edge);
            },
            None => {
                return Err(
                    MemoryError::Backend(
                        "merge snapshot: unexpected edge row shape for node ".to_owned().concat(
                            node_id,
                        ),
                    ),
                );
            },
        }
        i += 1;
    }
    assert(edge_rows(edges@) =~= snapshot_edges_of(all));
    Ok(edges)
}

// ----- entity resolution -----

/// One alias target, as the model sees it.
pub struct AliasRow {
    pub node: Seq<char>,
    pub kind: NodeType,
}

impl View for AliasTarget {
    type V = AliasRow;

    open spec fn view(&self) -> AliasRow {
        AliasRow { node: self.node_id@, kind: self.node_type }
    }
}

/// The alias target of a row with a known type.
pub open spec fn alias_target_of(row: Seq<Value>) -> Option<AliasRow> {
    match (text_column(row, 0), text_column(row, 1)) {
        (Some(node), Some(kind)) => match NodeType::of_column(kind) {
            Some(kind) => Some(AliasRow { node, kind }),
            None => None,
        },
        _ => None,
    }
}

/// The alias targets of the rows that name one.
pub open spec fn alias_targets_of(rows: Seq<Seq<Value>>) -> Seq<AliasRow> {
    kept(rows.map_values(|row: Seq<Value>| alias_target_of(row)))
}

/// The target nodes of one alias. Rows of an unexpected shape or type are skipped.
pub fn read_alias_targets(rows: &Vec<Row>) -> (r: Vec<AliasTarget>)
    ensures
        r@.map_values(|target: AliasTarget| target@) == alias_targets_of(table(rows@)),
{
    let mut targets: Vec<AliasTarget> = Vec::new();
    let ghost found = table(rows@).map_values(|row: Seq<Value>| alias_target_of(row));
    let mut i: usize = 0;
    while i < rows.len()
        invariant
            i <= rows@.len(),
            found == table(rows@).map_values(|row: Seq<Value>| alias_target_of(row)),
            targets@.map_values(|target: AliasTarget| target@) == kept(found.take(i as int)),
        decreases rows@.len() - i,
    {
        let row = &rows[i];
        let ghost before = targets@;
        proof {
            lemma_kept_push(found, i as int);
            assert(found[i as int] == alias_target_of(columns(*row)));
        }
        match (text_at(row, 0), text_at(row, 1)) {
            (Some(node_id), Some(type_string)) => {
                match NodeType::from_str(type_string.as_str()) {
                    Some(node_type) => {
                        targets.push(AliasTarget { node_id, node_type });
                        assert(targets@.map_values(|target: AliasTarget| target@)
                            =~= before.map_values(|target: AliasTarget| target@).push(
                            targets@.last()@,
                        ));
                    },
                    None => {},
                }
            },
            _ => {},
        }
        i += 1;
    }
    assert(found.take(i as int) =~= found);
    targets
}

/// One node's resolution info, as the model sees it.
pub struct InfoRow {
    pub node: Seq<char>,
    pub kind: NodeType,
    pub alias_target: Option<Seq<char>>,
}

/// The resolution info, as the model sees it.
pub open spec fn info_row(entry: (String, NodeResolutionInfo)) -> InfoRow {
    InfoRow {
        node: entry.0@,
        kind: entry.1.kind,
        alias_target: opt_text(entry.1.alias_target),
    }
}

/// The resolution infos, as the model sees them.
pub open spec fn info_rows(infos: Seq<(String, NodeResolutionInfo)>) -> Seq<InfoRow> {
    infos.map_values(|entry: (String, NodeResolutionInfo)| info_row(entry))
}

/// The infos after one more row: a row of the last node fills its alias target
/// where that is open, another row adds a node. Only an alias binds a target.
pub open spec fn with_info_row(infos: Seq<InfoRow>, row: Seq<Value>) -> Seq<InfoRow> {
    match (text_column(row, 0), text_column(row, 1)) {
        (Some(node), Some(kind)) => match NodeType::of_column(kind) {
            Some(kind) => {
                let target = if kind == NodeType::Alias {
                    text_column(row, 2)
                } else {
                    None
                };
                if infos.len() > 0 && infos.last().node == node {
                    let last = infos.last();
                    if last.kind == NodeType::Alias && last.alias_target is None {
                        infos.drop_last().push(
                            InfoRow { alias_target: text_column(row, 2), ..last },
                        )
                    } else {
                        infos
                    }
                } else {
                    infos.push(InfoRow { node, kind, alias_target: target })
                }
            },
            None => infos,
        },
        _ => infos,
    }
}

/// The resolution infos of the rows.
pub open spec fn infos_of(rows: Seq<Seq<Value>>) -> Seq<InfoRow>
    decreases rows.len(),
{
    if rows.len() == 0 {
        Seq::empty()
    } else {
        with_info_row(infos_of(rows.drop_last()), rows.last())
    }
}

/// The kind of each node and, for an alias, the first target it is bound to. Rows
/// come grouped by node; rows of an unexpected shape or type are skipped.
pub fn read_node_resolution_infos(rows: &Vec<Row>) -> (r: Vec<(String, NodeResolutionInfo)>)
    ensures
        info_rows(r@) == infos_of(table(rows@)),
{
    let mut infos: Vec<(String, NodeResolutionInfo)> = Vec::new();
    let ghost all = table(rows@);
    let mut i: usize = 0;
    while i < rows.len()
        invariant
            i <= rows@.len(),
            all == table(rows@),
            info_rows(infos@) == infos_of(all.take(i as int)),
        decreases rows@.len() - i,
    {
        let row = &rows[i];
        let ghost before = infos@;
        proof {
            assert(all.take(i + 1).drop_last() =~= all.take(i as int));
            assert(all[i as int] == columns(*row));
        }
        match (text_at(row, 0), text_at(row, 1)) {
            (Some(node_id), Some(type_string)) => {
                match NodeType::from_str(type_string.as_str()) {
                    Some(kind) => {
                        let target = text_at(row, 2);
                        let continues = infos.len() > 0 && infos[infos.len() - 1].0 == node_id;
                        if continues {
                            assert(info_rows(before).last() == info_row(before.last()));
                            let (last_id, last) = infos.pop().unwrap();
                            if last.kind == NodeType::Alias && last.alias_target.is_none() {
                                let filled = NodeResolutionInfo {
                                    kind: last.kind,
                                    alias_target: target,
                                };
                                infos.push((last_id, filled));
                            } else {
                                infos.push((last_id, last));
                            }
                            assert(info_rows(infos@) =~= with_info_row(
                                info_rows(before),
                                columns(*row),
                            ));
                        } else {
                            proof {
                                if before.len() > 0 {
                                    assert(info_rows(before).last() == info_row(before.last()));
                                }
                            }
                            let alias_target = if kind == NodeType::Alias {
                                target
                            } else {
                                None
                            };
                            infos.push((node_id, NodeResolutionInfo { kind, alias_target }));
                            assert(info_rows(infos@) =~= with_info_row(
                                info_rows(before),
                                columns(*row),
                            ));
                        }
                    },
                    None => {},
                }
            },
            _ => {},
        }
        i += 1;
    }
    assert(all.take(i as int) =~= all);
    infos
}

/// Only alias nodes carry an alias target.
pub proof fn lemma_only_aliases_bind(rows: Seq<Seq<Value>>, i: int)
    requires
        0 <= i < infos_of(rows).len(),
    ensures
        infos_of(rows)[i].alias_target is Some ==> infos_of(rows)[i].kind == NodeType::Alias,
    decreases rows.len(),
{
    let before = infos_of(rows.drop_last());
    if rows.len() > 0 {
        if i < before.len() {
            lemma_only_aliases_bind(rows.drop_last(), i);
        }
    }
}

// ----- recall reads -----

/// One neighbor edge, as the model sees it.
#[verifier::ext_equal]
pub struct NeighborRow {
    pub source: Seq<char>,
    pub target: Seq<char>,
    pub relationship: Seq<char>,
    pub text: Seq<char>,
    pub valid_at: Timestamp,
    pub created_at: Timestamp,
    pub other_id: Seq<char>,
    pub other_name: Seq<char>,
}

impl View for NeighborEdge {
    type V = NeighborRow;

    open spec fn view(&self) -> NeighborRow {
        NeighborRow {
            source: self.source_id@,
            target: self.target_id@,
            relationship: self.relationship_name@,
            text: self.edge_text@,
            valid_at: self.valid_at,
            created_at: self.created_at,
            other_id: self.other_node_id@,
            other_name: self.other_node_name@,
        }
    }
}

/// The neighbor edge of a row; the other endpoint is the one that is not the
/// queried node.
pub open spec fn neighbor_of(node_id: Seq<char>, row: Seq<Value>) -> Option<NeighborRow> {
    match (
        text_column(row, 0),
        text_column(row, 1),
        text_column(row, 2),
        text_column(row, 3),
        text_column(row, 4),
        text_column(row, 5),
        time_column(row, 6),
        time_column(row, 7),
    ) {
        (
            Some(source),
            Some(source_name),
            Some(target),
            Some(target_name),
            Some(relationship),
            Some(text),
            Some(valid_at),
            Some(created_at),
        ) => Some(
            NeighborRow {
                source,
                target,
                relationship,
                text,
                valid_at,
                created_at,
                other_id: if source == node_id {
                    target
                } else {
                    source
                },
                other_name: if source == node_id {
                    target_name
                } else {
                    source_name
                },
            },
        ),
        _ => None,
    }
}

/// The neighbor edges of the rows that decode.
pub open spec fn neighbors_of(node_id: Seq<char>, rows: Seq<Seq<Value>>) -> Seq<NeighborRow> {
    kept(rows.map_values(|row: Seq<Value>| neighbor_of(node_id, row)))
}

fn read_neighbor(node_id: &str, row: &Row) -> (r: Option<NeighborEdge>)
    ensures
        match r {
            Some(edge) => neighbor_of(node_id@, columns(*row)) == Some(edge@),
            None => neighbor_of(node_id@, columns(*row)) is None,
        },
{
    match (
        text_at(row, 0),
        text_at(row, 1),
        text_at(row, 2),
        text_at(row, 3),
        text_at(row, 4),
        text_at(row, 5),
        time_at(row, 6),
        time_at(row, 7),
    ) {
        (
            Some(source_id),
            Some(source_name),
            Some(target_id),
            Some(target_name),
            Some(relationship_name),
            Some(edge_text),
            Some(valid_at),
            Some(created_at),
        ) => {
            let outgoing = same_text(source_id.as_str(), node_id);
            let other_node_id = if outgoing {
                target_id.clone()
            } else {
                source_id.clone()
            };
            let other_node_name = if outgoing {
                target_name
            } else {
                source_name
            };
            Some(
                NeighborEdge {
                    source_id,
                    target_id,
                    relationship_name,
                    edge_text,
                    valid_at,
                    created_at,
                    other_node_id,
                    other_node_name,
                },
            )
        },
        _ => None,
    }
}

/// The neighbor edges of one node. Rows of an unexpected shape are skipped.
pub fn read_neighbors(node_id: &str, rows: &Vec<Row>) -> (r: Vec<NeighborEdge>)
    ensures
        r@.map_values(|edge: NeighborEdge| edge@) == neighbors_of(node_id@, table(rows@)),
{
    let mut edges: Vec<NeighborEdge> = Vec::new();
    let ghost found = table(rows@).map_values(|row: Seq<Value>| neighbor_of(node_id@, row));
    let mut i: usize = 0;
    while i < rows.len()
        invariant
            i <= rows@.len(),
            found == table(rows@).map_values(|row: Seq<Value>| neighbor_of(node_id@, row)),
            edges@.map_values(|edge: NeighborEdge| edge@) == kept(found.take(i as int)),
        decreases rows@.len() - i,
    {
        let ghost before = edges@;
        proof {
            lemma_kept_push(found, i as int);
            assert(found[i as int] == neighbor_of(node_id@, columns(rows@[i as int])));
        }
        match read_neighbor(node_id, &rows[i]) {
            Some(edge) => {
                edges.push(edge);
                assert(edges@.map_values(|edge: NeighborEdge| edge@) =~= before.map_values(
                    |edge: NeighborEdge| edge@,
                ).push(edge@));
            },
            None => {},
        }
        i += 1;
    }
    assert(found.take(i as int) =~= found);
    edges
}

/// One recall candidate, as the model sees it.
#[verifier::ext_equal]
pub struct CandidateRow {
    pub edge_id: Seq<char>,
    pub source: Seq<char>,
    pub source_name: Seq<char>,
    pub target: Seq<char>,
    pub target_name: Seq<char>,
    pub relationship: Seq<char>,
    pub text: Seq<char>,
    pub valid_at: Timestamp,
}

impl View for CandidateEdge {
    type V = CandidateRow;

    open spec fn view(&self) -> CandidateRow {
        CandidateRow {
            edge_id: self.edge_id@,
            source: self.source_id@,
            source_name: self.source_name@,
            target: self.target_id@,
            target_name: self.target_name@,
            relationship: self.relationship_name@,
            text: self.edge_text@,
            valid_at: self.valid_at,
        }
    }
}

/// The candidates, as the model sees them.
pub open spec fn candidate_rows(edges: Seq<CandidateEdge>) -> Seq<CandidateRow> {
    edges.map_values(|edge: CandidateEdge| edge@)
}

/// The candidate of an edge: its identifier is that of its natural key.
pub open spec fn candidate_row(
    source: Seq<char>,
    source_name: Seq<char>,
    target: Seq<char>,
    target_name: Seq<char>,
    relationship: Seq<char>,
    text: Seq<char>,
    valid_at: Timestamp,
) -> CandidateRow {
    CandidateRow {
        edge_id: edge_id_text(source, relationship, target, valid_at.text()),
        source,
        source_name,
        target,
        target_name,
        relationship,
        text,
        valid_at,
    }
}

/// The candidate of an edge, with its identifier.
pub fn candidate_edge(
    source_id: String,
    source_name: String,
    target_id: String,
    target_name: String,
    relationship_name: String,
    edge_text: String,
    valid_at: Timestamp,
) -> (r: CandidateEdge)
    ensures
        r@ == candidate_row(
            source_id@,
            source_name@,
            target_id@,
            target_name@,
            relationship_name@,
            edge_text@,
            valid_at,
        ),
{
    let key = EdgeId {
        source_id: source_id.clone(),
        relationship_name: relationship_name.clone(),
        target_id: target_id.clone(),
        valid_at,
    };
    let edge_id = key.encode();
    CandidateEdge {
        edge_id,
        source_id,
        source_name,
        target_id,
        target_name,
        relationship_name,
        edge_text,
        valid_at,
    }
}

/// The candidate of an expansion row.
pub open spec fn expansion_of(row: Seq<Value>) -> Option<CandidateRow> {
    match (
        text_column(row, 0),
        text_column(row, 1),
        text_column(row, 2),
        text_column(row, 3),
        text_column(row, 4),
        text_column(row, 5),
        time_column(row, 6),
    ) {
        (
            Some(source),
            Some(source_name),
            Some(target),
            Some(target_name),
            Some(relationship),
            Some(text),
            Some(valid_at),
        ) => Some(
            candidate_row(
                source,
                source_name,
                target,
                target_name,
                relationship,
                text,
                valid_at,
            ),
        ),
        _ => None,
    }
}

/// The candidates of the expansion rows that decode.
pub open spec fn expansions_of(rows: Seq<Seq<Value>>) -> Seq<CandidateRow> {
    kept(rows.map_values(|row: Seq<Value>| expansion_of(row)))
}

fn read_expansion(row: &Row) -> (r: Option<CandidateEdge>)
    ensures
        match r {
            Some(edge) => expansion_of(columns(*row)) == Some(edge@),
            None => expansion_of(columns(*row)) is None,
        },
{
    match (
        text_at(row, 0),
        text_at(row, 1),
        text_at(row, 2),
        text_at(row, 3),
        text_at(row, 4),
        text_at(row, 5),
        time_at(row, 6),
    ) {
        (
            Some(source_id),
            Some(source_name),
            Some(target_id),
            Some(target_name),
            Some(relationship_name),
            Some(edge_text),
            Some(valid_at),
        ) => Some(
            candidate_edge(
                source_id,
                source_name,
                target_id,
                target_name,
                relationship_name,
                edge_text,
                valid_at,
            ),
        ),
        _ => None,
    }
}

/// The candidates of one expansion read. Rows of an unexpected shape are skipped.
pub fn read_expansion_edges(rows: &Vec<Row>) -> (r: Vec<CandidateEdge>)
    ensures
        candidate_rows(r@) == expansions_of(table(rows@)),
{
    let mut edges: Vec<CandidateEdge> = Vec::new();
    let ghost found = table(rows@).map_values(|row: Seq<Value>| expansion_of(row));
    let mut i: usize = 0;
    while i < rows.len()
        invariant
            i <= rows@.len(),
            found == table(rows@).map_values(|row: Seq<Value>| expansion_of(row)),
            candidate_rows(edges@) == kept(found.take(i as int)),
        decreases rows@.len() - i,
    {
        let ghost before = edges@;
        proof {
            lemma_kept_push(found, i as int);
            assert(found[i as int] == expansion_of(columns(rows@[i as int])));
        }
        match read_expansion(&rows[i]) {
            Some(edge) => {
                edges.push(edge);
                assert(candidate_rows(edges@) =~= candidate_rows(before).push(edge@));
            },
            None => {},
        }
        i += 1;
    }
    assert(found.take(i as int) =~= found);
    edges
}

/// The edge identifier and text of a listing row.
pub open spec fn listed_edge_of(row: Seq<Value>) -> Option<(Seq<char>, Seq<char>)> {
    match (
        text_column(row, 0),
        text_column(row, 1),
        text_column(row, 2),
        time_column(row, 3),
        text_column(row, 4),
    ) {
        (Some(source), Some(relationship), Some(target), Some(valid_at), Some(text)) => Some(
            (edge_id_text(source, relationship, target, valid_at.text()), text),
        ),
        _ => None,
    }
}

/// Both texts of each pair.
pub open spec fn pair_texts(pairs: Seq<(String, String)>) -> Seq<(Seq<char>, Seq<char>)> {
    pairs.map_values(|pair: (String, String)| (pair.0@, pair.1@))
}

/// Every edge of the group with its identifier. Rows of an unexpected shape are
/// skipped.
pub fn read_all_edges(rows: &Vec<Row>) -> (r: Vec<(String, String)>)
    ensures
        pair_texts(r@) == kept(table(rows@).map_values(|row: Seq<Value>| listed_edge_of(row))),
{
    let mut edges: Vec<(String, String)> = Vec::new();
    let ghost found = table(rows@).map_values(|row: Seq<Value>| listed_edge_of(row));
    let mut i: usize = 0;
    while i < rows.len()
        invariant
            i <= rows@.len(),
            found == table(rows@).map_values(|row: Seq<Value>| listed_edge_of(row)),
            pair_texts(edges@) == kept(found.take(i as int)),
        decreases rows@.len() - i,
    {
        let row = &rows[i];
        let ghost before = edges@;
        proof {
            lemma_kept_push(found, i as int);
            assert(found[i as int] == listed_edge_of(columns(*row)));
        }
        match (text_at(row, 0), text_at(row, 1), text_at(row, 2), time_at(row, 3), text_at(row, 4)) {
            (
                Some(source_id),
                Some(relationship_name),
                Some(target_id),
                Some(valid_at),
                Some(edge_text),
            ) => {
                let key = EdgeId { source_id, relationship_name, target_id, valid_at };
                edges.push((key.encode(), edge_text));
                assert(pair_texts(edges@) =~= pair_texts(before).push(
                    (edges@.last().0@, edges@.last().1@),
                ));
            },
            _ => {},
        }
        i += 1;
    }
    assert(found.take(i as int) =~= found);
    edges
}

// ----- node content -----

/// The display content of a node, as the model sees it.
#[verifier::ext_equal]
pub struct ContentRow {
    pub name: Seq<char>,
    pub description: Seq<char>,
}

impl View for NodeContent {
    type V = ContentRow;

    open spec fn view(&self) -> ContentRow {
        ContentRow { name: self.name@, description: self.description@ }
    }
}

/// The display content of a name column and a properties column.
pub open spec fn content_of(row: Seq<Value>, at: int) -> Option<ContentRow> {
    match text_column(row, at) {
        Some(name) => Some(
            ContentRow { name, description: description_text(text_column(row, at + 1)) },
        ),
        None => None,
    }
}

fn node_content_at(row: &Row, at: usize) -> (r: Option<NodeContent>)
    requires
        at < usize::MAX,
    ensures
        match r {
            Some(content) => content_of(columns(*row), at as int) == Some(content@),
            None => content_of(columns(*row), at as int) is None,
        },
{
    match text_at(row, at) {
        Some(name) => {
            let properties = text_at(row, at + 1);
            let description = description_of(&properties);
            Some(NodeContent { name, description })
        },
        None => None,
    }
}

/// The display content of one node: `None` where the node does not exist or its
/// name column holds no text.
pub fn read_node_content(rows: &Vec<Row>) -> (r: Option<NodeContent>)
    ensures
        match r {
            Some(content) => rows@.len() > 0 && content_of(columns(rows@[0]), 0) == Some(content@),
            None => rows@.len() == 0 || content_of(columns(rows@[0]), 0) is None,
        },
{
    if rows.len() == 0 {
        return None;
    }
    node_content_at(&rows[0], 0)
}

/// The identifier and display content of a listing row.
pub open spec fn listed_content_of(row: Seq<Value>) -> Option<(Seq<char>, ContentRow)> {
    match (text_column(row, 0), content_of(row, 1)) {
        (Some(node), Some(content)) => Some((node, content)),
        _ => None,
    }
}

/// The identifiers and display contents, as the model sees them.
pub open spec fn content_rows(contents: Seq<(String, NodeContent)>) -> Seq<
    (Seq<char>, ContentRow),
> {
    contents.map_values(|entry: (String, NodeContent)| (entry.0@, entry.1@))
}

/// The display content of every node. Rows of an unexpected shape are skipped.
pub fn read_node_contents(rows: &Vec<Row>) -> (r: Vec<(String, NodeContent)>)
    ensures
        content_rows(r@) == kept(
            table(rows@).map_values(|row: Seq<Value>| listed_content_of(row)),
        ),
{
    let mut contents: Vec<(String, NodeContent)> = Vec::new();
    let ghost found = table(rows@).map_values(|row: Seq<Value>| listed_content_of(row));
    let mut i: usize = 0;
    while i < rows.len()
        invariant
            i <= rows@.len(),
            found == table(rows@).map_values(|row: Seq<Value>| listed_content_of(row)),
            content_rows(contents@) == kept(found.take(i as int)),
        decreases rows@.len() - i,
    {
        let row = &rows[i];
        let ghost before = contents@;
        proof {
            lemma_kept_push(found, i as int);
            assert(found[i as int] == listed_content_of(columns(*row)));
        }
        match (text_at(row, 0), node_content_at(row, 1)) {
            (Some(node_id), Some(content)) => {
                contents.push((node_id, content));
                assert(content_rows(contents@) =~= content_rows(before).push(
                    (node_id@, content@),
                ));
            },
            _ => {},
        }
        i += 1;
    }
    assert(found.take(i as int) =~= found);
    contents
}

// ----- counts and statistics -----

/// Whether two nodes are linked, from the count of alias edges between them.
pub fn read_are_linked(rows: &Vec<Row>) -> (r: Result<bool>)
    ensures
        match r {
            Ok(linked) => rows@.len() > 0 && (integer_column(columns(rows@[0]), 0) matches Some(
                count,
            ) && linked == (count > 0)),
            Err(error) => (rows@.len() == 0 || integer_column(columns(rows@[0]), 0) is None)
                && error.is_backend("are_linked: count() returned an unexpected shape"@),
        },
{
    if rows.len() > 0 {
        match integer_at(&rows[0], 0) {
            Some(count) => {
                return Ok(count > 0);
            },
            None => {},
        }
    }
    Err(MemoryError::Backend("are_linked: count() returned an unexpected shape".to_owned()))
}

/// The number of edges that a sibling invalidation counts: zero for a count that
/// 32 bits cannot hold.
pub open spec fn invalidated_count(count: int) -> int {
    if 0 <= count <= u32::MAX {
        count
    } else {
        0
    }
}

/// The number of edges that a sibling invalidation counted. `shown` is how the
/// driver shows the first column of the first row, for the error.
pub fn read_invalidated(rows: &Vec<Row>, shown: &str) -> (r: Result<u32>)
    ensures
        match r {
            Ok(n) => rows@.len() > 0 && (integer_column(columns(rows@[0]), 0) matches Some(count)
                && n == invalidated_count(count)),
            Err(error) => (rows@.len() == 0 || integer_column(columns(rows@[0]), 0) is None)
                && error.is_backend("invalidate_siblings: count() returned an unexpected shape: "@ + shown@),
        },
{
    if rows.len() > 0 {
        match integer_at(&rows[0], 0) {
            Some(count) => {
                if 0 <= count && count <= u32::MAX as i64 {
                    return Ok(count as u32);
                }
                return Ok(0);
            },
            None => {},
        }
    }
    Err(
        MemoryError::Backend(
            "invalidate_siblings: count() returned an unexpected shape: ".to_owned().concat(shown),
        ),
    )
}

/// The merge statistics of one node, as the model sees them.
pub struct StatsRow {
    pub node: Seq<char>,
    pub edge_degree: int,
    pub created_at: Timestamp,
}

/// The merge statistics of a row; a negative degree counts as zero.
pub open spec fn stats_of(row: Seq<Value>) -> Option<StatsRow> {
    match (text_column(row, 0), time_column(row, 1), integer_column(row, 2)) {
        (Some(node), Some(created_at), Some(degree)) => Some(
            StatsRow {
                node,
                edge_degree: if degree < 0 {
                    0
                } else {
                    degree
                },
                created_at,
            },
        ),
        _ => None,
    }
}

/// The merge statistics, as the model sees them.
pub open spec fn stats_rows(stats: Seq<(String, NodeMergeStats)>) -> Seq<StatsRow> {
    stats.map_values(
        |entry: (String, NodeMergeStats)|
            StatsRow {
                node: entry.0@,
                edge_degree: entry.1.edge_degree as int,
                created_at: entry.1.created_at,
            },
    )
}

/// The merge statistics of each node. Rows of an unexpected shape are skipped.
pub fn read_node_merge_stats(rows: &Vec<Row>) -> (r: Vec<(String, NodeMergeStats)>)
    ensures
        stats_rows(r@) == kept(table(rows@).map_values(|row: Seq<Value>| stats_of(row))),
{
    let mut stats: Vec<(String, NodeMergeStats)> = Vec::new();
    let ghost found = table(rows@).map_values(|row: Seq<Value>| stats_of(row));
    let mut i: usize = 0;
    while i < rows.len()
        invariant
            i <= rows@.len(),
            found == table(rows@).map_values(|row: Seq<Value>| stats_of(row)),
            stats_rows(stats@) == kept(found.take(i as int)),
        decreases rows@.len() - i,
    {
        let row = &rows[i];
        let ghost before = stats@;
        proof {
            lemma_kept_push(found, i as int);
            assert(found[i as int] == stats_of(columns(*row)));
        }
        match (text_at(row, 0), time_at(row, 1), integer_at(row, 2)) {
            (Some(node_id), Some(created_at), Some(degree)) => {
                let edge_degree: u64 = if degree < 0 {
                    0
                } else {
                    degree as u64
                };
                stats.push((node_id, NodeMergeStats { edge_degree, created_at }));
                assert(stats_rows(stats@) =~= stats_rows(before).push(stats_of(columns(*row))->0));
            },
            _ => {},
        }
        i += 1;
    }
    assert(found.take(i as int) =~= found);
    stats
}

// ----- single edges -----

/// What reading the validity of an edge found.
pub enum Validity {
    /// No edge has the key.
    Missing,
    /// The edge exists with this `invalid_at`.
    Found(Option<Timestamp>),
    /// The column is neither a timestamp nor NULL.
    Unexpected,
}

/// The validity of an edge in the rows that its key matched.
pub open spec fn validity_of(rows: Seq<Seq<Value>>) -> Validity {
    if rows.len() == 0 {
        Validity::Missing
    } else if rows[0].len() == 0 {
        Validity::Found(None)
    } else {
        match rows[0][0] {
            Value::Time(time) => Validity::Found(Some(time)),
            Value::Null(_) => Validity::Found(None),
            _ => Validity::Unexpected,
        }
    }
}

/// The current `invalid_at` of an edge; `None` where no edge has the key. `shown`
/// is how the driver shows the first column, for the error.
pub fn read_edge_invalid_at(rows: &Vec<Row>, shown: &str) -> (r: Result<Option<Option<Timestamp>>>)
    ensures
        match r {
            Ok(None) => validity_of(table(rows@)) == Validity::Missing,
            Ok(Some(invalid_at)) => validity_of(table(rows@)) == Validity::Found(invalid_at),
            Err(error) => validity_of(table(rows@)) == Validity::Unexpected
                && error.is_backend("find_edge_invalid_at: unexpected invalid_at shape: "@ + shown@),
        },
{
    if rows.len() == 0 {
        return Ok(None);
    }
    let row = &rows[0];
    assert(table(rows@)[0] == columns(*row));
    if row.len() == 0 {
        return Ok(Some(None));
    }
    match &row[0] {
        GraphValue::Timestamp(time) => Ok(Some(Some(*time))),
        GraphValue::Null(_) => Ok(Some(None)),
        _ => Err(
            MemoryError::Backend(
                "find_edge_invalid_at: unexpected invalid_at shape: ".to_owned().concat(shown),
            ),
        ),
    }
}

} // verus!
