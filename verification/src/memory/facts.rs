//! The fact listing of one node, entered through its name.

use crate::memory::cypher::{
    ALIAS_TARGETS, NODE_FACTS_EDGES, SNAPSHOT_NODE, alias_targets_query, entry_request,
    node_facts_query, snapshot_node_query,
};
use crate::memory::edge_id::edge_id_text;
use crate::memory::identifiers::{alias_id, alias_identifier};
use crate::memory::merge::{NodeRead, bad_node_row, node_read};
use crate::memory::rows::{
    Row, alias_targets_of, columns, read_alias_targets, read_snapshot_node, table, text_at,
    text_column, time_at, time_column,
};
use crate::memory::types::{AliasTarget, EdgeId, MemoryError, NodeFactEdge, NodeFacts, Result};
use crate::memory::value::{Query, Value};
use crate::sequence::{kept, lemma_kept_push};
use crate::text::{concat5, same_text};
use crate::timestamp::Timestamp;
use vstd::prelude::*;

verus! {

/// One edge of a fact listing, as the model sees it.
#[verifier::ext_equal]
pub struct FactRow {
    pub edge_id: Seq<char>,
    pub relationship: Seq<char>,
    pub other_name: Seq<char>,
    pub outgoing: bool,
    pub text: Seq<char>,
    pub valid_at: Timestamp,
    pub invalid_at: Option<Timestamp>,
}

impl View for NodeFactEdge {
    type V = FactRow;

    open spec fn view(&self) -> FactRow {
        FactRow {
            edge_id: self.edge_id@,
            relationship: self.relationship_name@,
            other_name: self.other_node_name@,
            outgoing: self.outgoing,
            text: self.edge_text@,
            valid_at: self.valid_at,
            invalid_at: self.invalid_at,
        }
    }
}

/// The facts, as the model sees them.
pub open spec fn fact_rows(edges: Seq<NodeFactEdge>) -> Seq<FactRow> {
    edges.map_values(|edge: NodeFactEdge| edge@)
}

/// The fact of a row, seen from the queried node.
pub open spec fn fact_of(node_id: Seq<char>, row: Seq<Value>) -> Option<FactRow> {
    match (
        text_column(row, 0),
        text_column(row, 1),
        text_column(row, 2),
        text_column(row, 3),
        text_column(row, 4),
        text_column(row, 5),
        time_column(row, 6),
    ) {
        (
            Some(source),
            Some(source_name),
            Some(target),
            Some(target_name),
            Some(relationship),
            Some(text),
            Some(valid_at),
        ) => Some(
            FactRow {
                edge_id: edge_id_text(source, relationship, target, valid_at.text()),
                relationship,
                other_name: if source == node_id {
                    target_name
                } else {
                    source_name
                },
                outgoing: source == node_id,
                text,
                valid_at,
                invalid_at: time_column(row, 7),
            },
        ),
        _ => None,
    }
}

/// The facts of the rows that decode.
pub open spec fn facts_of(node_id: Seq<char>, rows: Seq<Seq<Value>>) -> Seq<FactRow> {
    kept(rows.map_values(|row: Seq<Value>| fact_of(node_id, row)))
}

fn read_fact(node_id: &str, row: &Row) -> (r: Option<NodeFactEdge>)
    ensures
        match r {
            Some(edge) => fact_of(node_id@, columns(*row)) == Some(edge@),
            None => fact_of(node_id@, columns(*row)) is None,
        },
{
    match (
        text_at(row, 0),
        text_at(row, 1),
        text_at(row, 2),
        text_at(row, 3),
        text_at(row, 4),
        text_at(row, 5),
        time_at(row, 6),
    ) {
        (
            Some(source_id),
            Some(source_name),
            Some(target_id),
            Some(target_name),
            Some(relationship_name),
            Some(edge_text),
            Some(valid_at),
        ) => {
            let invalid_at = time_at(row, 7);
            let outgoing = same_text(source_id.as_str(), node_id);
            let other_node_name = if outgoing {
                target_name
            } else {
                source_name
            };
            let key = EdgeId {
                source_id,
                relationship_name: relationship_name.clone(),
                target_id,
                valid_at,
            };
            let edge_id = key.encode();
            Some(
                NodeFactEdge {
                    edge_id,
                    relationship_name,
                    other_node_name,
                    outgoing,
                    edge_text,
                    valid_at,
                    invalid_at,
                },
            )
        },
        _ => None,
    }
}

/// The facts of a node, both directions, valid and invalid. Rows of an unexpected
/// shape are skipped.
pub fn read_node_facts(node_id: &str, rows: &Vec<Row>) -> (r: Vec<NodeFactEdge>)
    ensures
        fact_rows(r@) == facts_of(node_id@, table(rows@)),
{
    let mut edges: Vec<NodeFactEdge> = Vec::new();
    let ghost found = table(rows@).map_values(|row: Seq<Value>| fact_of(node_id@, row));
    let mut i: usize = 0;
    while i < rows.len()
        invariant
            i <= rows@.len(),
            found == table(rows@).map_values(|row: Seq<Value>| fact_of(node_id@, row)),
            fact_rows(edges@) == kept(found.take(i as int)),
        decreases rows@.len() - i,
    {
        let ghost before = edges@;
        proof {
            lemma_kept_push(found, i as int);
            assert(found[i as int] == fact_of(node_id@, columns(rows@[i as int])));
        }
        match read_fact(node_id, &rows[i]) {
            Some(edge) => {
                edges.push(edge);
                assert(fact_rows(edges@) =~= fact_rows(before).push(edge@));
            },
            None => {},
        }
        i += 1;
    }
    assert(found.take(i as int) =~= found);
    edges
}

/// What a fact listing has found so far.
#[derive(Debug, Clone, PartialEq, Eq)]
pub enum FactsState {
    /// The targets of the alias are being read.
    Targets { alias_node_id: String },
    /// The entry is the only target of the alias; its name is being read.
    TargetName { node_id: String, alias_node_id: String },
    /// The entry is the alias itself; its name is being read.
    AliasName { alias_node_id: String },
    /// The edges of the entry are being read.
    Edges { node_id: String, node_name: String },
}

/// What a fact listing does next.
#[derive(Debug, Clone, PartialEq, Eq)]
pub enum FactsNext {
    /// Run the read and come back with its rows.
    Ask { state: FactsState, query: Query },
    /// The listing; `None` for an unknown name.
    Done(Option<NodeFacts>),
}

/// The message of an alias target that does not exist.
pub open spec fn target_missing(node_id: Seq<char>, alias_node_id: Seq<char>) -> Seq<char> {
    "node_facts: alias target "@ + node_id + " of alias "@ + alias_node_id + " does not exist"@
}

/// Starts the fact listing of a name: the alias of the name is the way in.
pub fn start_facts(name_or_alias: &str) -> (r: (FactsState, Query))
    ensures
        r.0 matches FactsState::Targets { alias_node_id } && alias_node_id@ == alias_identifier(
            name_or_alias@,
        ),
        r.1@ == entry_request(ALIAS_TARGETS@, "alias_id"@, alias_identifier(name_or_alias@)),
{
    let alias_node_id = alias_id(name_or_alias);
    let query = alias_targets_query(alias_node_id.as_str());
    (FactsState::Targets { alias_node_id }, query)
}

/// The step from one read to the next: what the rows of each read lead to.
pub open spec fn facts_step(state: FactsState, rows: Seq<Row>, r: Result<FactsNext>) -> bool {
    match state {
        FactsState::Targets { alias_node_id } => {
            let targets = alias_targets_of(table(rows));
            match r {
                Ok(FactsNext::Ask { state: FactsState::TargetName { node_id, alias_node_id: alias }, query }) => targets.len()
                    == 1 && node_id@ == targets[0].node && alias@ == alias_node_id@ && query@
                    == entry_request(SNAPSHOT_NODE@, "node_id"@, targets[0].node),
                Ok(FactsNext::Ask { state: FactsState::AliasName { alias_node_id: alias }, query }) => targets.len()
                    != 1 && alias@ == alias_node_id@ && query@ == entry_request(
                    SNAPSHOT_NODE@,
                    "node_id"@,
                    alias_node_id@,
                ),
                _ => false,
            }
        },
        FactsState::TargetName { node_id, alias_node_id } => match (node_read(node_id@, rows), r) {
            (NodeRead::Node(node), Ok(FactsNext::Ask { state, query })) => is_entry(
                state,
                query,
                node_id@,
                node.name,
            ),
            (NodeRead::Missing, Err(error)) => error.is_backend(
                target_missing(node_id@, alias_node_id@),
            ),
            (NodeRead::Malformed, Err(error)) => error.is_backend(bad_node_row(node_id@)),
            _ => false,
        },
        FactsState::AliasName { alias_node_id } => match (node_read(alias_node_id@, rows), r) {
            (NodeRead::Node(node), Ok(FactsNext::Ask { state, query })) => is_entry(
                state,
                query,
                alias_node_id@,
                node.name,
            ),
            (NodeRead::Missing, Ok(FactsNext::Done(facts))) => facts is None,
            (NodeRead::Malformed, Err(error)) => error.is_backend(bad_node_row(alias_node_id@)),
            _ => false,
        },
        FactsState::Edges { node_id, node_name } => match r {
            Ok(FactsNext::Done(Some(facts))) => facts.node_id@ == node_id@ && facts.node_name@
                == node_name@ && fact_rows(facts.edges@) == facts_of(node_id@, table(rows)),
            _ => false,
        },
    }
}

/// Whether the state reads the edges of the entry node.
pub open spec fn is_entry(
    state: FactsState,
    query: Query,
    node_id: Seq<char>,
    name: Seq<char>,
) -> bool {
    &&& query@ == entry_request(NODE_FACTS_EDGES@, "node_id"@, node_id)
    &&& match state {
        FactsState::Edges { node_id: id, node_name } => id@ == node_id && node_name@ == name,
        _ => false,
    }
}

/// Takes the rows of the read that was asked for, and says what comes next. A single
/// target is the entry; otherwise the alias itself is, where it exists.
pub fn next_facts(state: FactsState, rows: &Vec<Row>) -> (r: Result<FactsNext>)
    ensures
        facts_step(state, rows@, r),
{
    match state {
        FactsState::Targets { alias_node_id } => {
            let targets = read_alias_targets(rows);
            assert(targets@.map_values(|target: AliasTarget| target@).len() == targets@.len());
            if targets.len() == 1 {
                let node_id = targets[0].node_id.clone();
                assert(targets@.map_values(|target: AliasTarget| target@)[0] == targets@[0]@);
                let query = snapshot_node_query(node_id.as_str());
                Ok(FactsNext::Ask { state: FactsState::TargetName { node_id, alias_node_id }, query })
            } else {
                let query = snapshot_node_query(alias_node_id.as_str());
                Ok(FactsNext::Ask { state: FactsState::AliasName { alias_node_id }, query })
            }
        },
        FactsState::TargetName { node_id, alias_node_id } => {
            match read_snapshot_node(node_id.as_str(), rows) {
                Ok(Some(node)) => {
                    let query = node_facts_query(node_id.as_str());
                    Ok(
                        FactsNext::Ask {
                            state: FactsState::Edges { node_id, node_name: node.name },
                            query,
                        },
                    )
                },
                Ok(None) => Err(
                    MemoryError::Backend(
                        concat5(
                            "node_facts: alias target ",
                            node_id.as_str(),
                            " of alias ",
                            alias_node_id.as_str(),
                            " does not exist",
                        ),
                    ),
                ),
                Err(error) => Err(error),
            }
        },
        FactsState::AliasName { alias_node_id } => {
            match read_snapshot_node(alias_node_id.as_str(), rows) {
                Ok(Some(node)) => {
                    let query = node_facts_query(alias_node_id.as_str());
                    Ok(
                        FactsNext::Ask {
                            state: FactsState::Edges {
                                node_id: alias_node_id,
                                node_name: node.name,
                            },
                            query,
                        },
                    )
                },
                Ok(None) => Ok(FactsNext::Done(None)),
                Err(error) => Err(error),
            }
        },
        FactsState::Edges { node_id, node_name } => {
            let edges = read_node_facts(node_id.as_str(), rows);
            Ok(FactsNext::Done(Some(NodeFacts { node_id, node_name, edges })))
        },
    }
}

} // verus!
