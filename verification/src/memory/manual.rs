//! The manual operations: invalidating, re-validating and linking.

use crate::memory::cypher::{
    FIND_EDGE_BY_KEY, GraphWrite, SNAPSHOT_NODE, entry_request, find_edge_query, keyed_request,
    snapshot_node_query,
};
use crate::memory::edge_id::{decoding, is_decoded};
use crate::memory::graph::{EdgeKey, EdgeRow, Graph, Write};
use crate::memory::merge::{NodeRead, bad_node_row, node_read};
use crate::memory::rows::{
    Row, Validity, read_edge_invalid_at, read_snapshot_node, table, validity_of,
};
use crate::memory::types::{EdgeId, MemoryError, Result};
use crate::memory::value::Query;
use crate::text::{concat3, same_text};
use crate::timestamp::Timestamp;
use vstd::prelude::*;

verus! {

/// The direction of a manual validity change.
#[derive(Debug, Clone, Copy, PartialEq, Eq, Structural)]
pub enum Toggle {
    /// Marks a valid edge as invalid.
    Invalidate,
    /// Marks an invalid edge as valid again; its siblings stay as they are.
    Revalidate,
}

impl Toggle {
    /// The name of the operation in messages.
    pub open spec fn name(self) -> Seq<char> {
        match self {
            Toggle::Invalidate => "invalidate_edge"@,
            Toggle::Revalidate => "revalidate_edge"@,
        }
    }

    /// The `invalid_at` that the operation sets.
    pub open spec fn sets(self, now: Timestamp) -> Option<Timestamp> {
        match self {
            Toggle::Invalidate => Some(now),
            Toggle::Revalidate => None,
        }
    }

    /// Whether an edge with this `invalid_at` already is as the operation leaves it.
    pub open spec fn is_done(self, invalid_at: Option<Timestamp>) -> bool {
        match self {
            Toggle::Invalidate => invalid_at is Some,
            Toggle::Revalidate => invalid_at is None,
        }
    }
}

/// Starts a validity change: the edge identifier must decode, then the edge is read.
pub fn start_toggle(edge_id: &str) -> (r: Result<(EdgeId, Query)>)
    ensures
        match (r, decoding(edge_id@)) {
            (Ok(start), Ok(columns)) => is_decoded(start.0, columns) && start.1@ == keyed_request(
                FIND_EDGE_BY_KEY@,
                columns.source,
                columns.target,
                columns.relationship,
                start.0.valid_at,
            ),
            (Err(error), Err(message)) => error.is_backend(message),
            _ => false,
        },
{
    match EdgeId::decode(edge_id) {
        Ok(key) => {
            let query = find_edge_query(&key);
            Ok((key, query))
        },
        Err(error) => Err(error),
    }
}

/// Decides a validity change from the rows of the read: `None` where the edge already
/// is as asked, the write otherwise. No matching edge is an error. `shown` is how the
/// driver shows the first column.
pub fn next_toggle(
    toggle: Toggle,
    edge_id: &str,
    key: EdgeId,
    rows: &Vec<Row>,
    shown: &str,
    now: Timestamp,
) -> (r: Result<Option<GraphWrite>>)
    ensures
        match validity_of(table(rows@)) {
            Validity::Missing => r matches Err(error) && error.is_backend(
                toggle.name() + ": no edge matches the natural key "@ + edge_id@,
            ),
            Validity::Unexpected => r matches Err(error) && error.is_backend(
                "find_edge_invalid_at: unexpected invalid_at shape: "@ + shown@,
            ),
            Validity::Found(invalid_at) => if toggle.is_done(invalid_at) {
                r matches Ok(None)
            } else {
                r == Ok::<Option<GraphWrite>, MemoryError>(
                    Some(
                        GraphWrite::SetInvalidAt {
                            key,
                            invalid_at: toggle.sets(now),
                            updated_at: now,
                        },
                    ),
                )
            },
        },
{
    match read_edge_invalid_at(rows, shown) {
        Err(error) => Err(error),
        Ok(None) => {
            let name: &str = match toggle {
                Toggle::Invalidate => "invalidate_edge",
                Toggle::Revalidate => "revalidate_edge",
            };
            Err(
                MemoryError::Backend(concat3(name, ": no edge matches the natural key ", edge_id)),
            )
        },
        Ok(Some(invalid_at)) => {
            let done = match toggle {
                Toggle::Invalidate => invalid_at.is_some(),
                Toggle::Revalidate => invalid_at.is_none(),
            };
            if done {
                return Ok(None);
            }
            let sets = match toggle {
                Toggle::Invalidate => Some(now),
                Toggle::Revalidate => None,
            };
            Ok(Some(GraphWrite::SetInvalidAt { key, invalid_at: sets, updated_at: now }))
        },
    }
}

/// Re-validating an edge that was just invalidated leaves the graph as it was but for
/// the update time of the edge.
pub proof fn law_revalidate_undoes_invalidate(
    g: Graph,
    key: EdgeKey,
    now: Timestamp,
    later: Timestamp,
)
    requires
        g.valid_edge(key),
    ensures
        ({
            let invalid = g.after(
                Write::SetInvalidAt { key, invalid_at: Some(now), updated_at: now },
            );
            let back = invalid.after(
                Write::SetInvalidAt { key, invalid_at: None, updated_at: later },
            );
            &&& !invalid.valid_edge(key)
            &&& back == (Graph {
                edges: g.edges.insert(key, EdgeRow { updated_at: later, ..g.edges[key] }),
                ..g
            })
        }),
{
    let invalid = g.after(Write::SetInvalidAt { key, invalid_at: Some(now), updated_at: now });
    let back = invalid.after(Write::SetInvalidAt { key, invalid_at: None, updated_at: later });
    assert(back.edges =~= g.edges.insert(key, EdgeRow { updated_at: later, ..g.edges[key] }));
}

// ----- linking -----

/// What a link has read so far.
#[derive(Debug, Clone, PartialEq, Eq)]
pub enum LinkState {
    /// The first node is being read.
    First,
    /// The second node is being read.
    Second { a_name: String },
}

/// What a link does next.
#[derive(Debug, Clone, PartialEq, Eq)]
pub enum LinkNext {
    /// Run the read and come back with its rows.
    Ask { state: LinkState, query: Query },
    /// Write the link in one transaction.
    Write(GraphWrite),
}

/// The message of a node that is to be linked to itself.
pub open spec fn self_link(id: Seq<char>) -> Seq<char> {
    "link_also_known_as: a self-link on "@ + id + " is meaningless"@
}

/// The message of a node that is to be linked and does not exist.
pub open spec fn link_missing(id: Seq<char>) -> Seq<char> {
    "link_also_known_as: node "@ + id + " does not exist"@
}

/// Starts a link between two different nodes.
pub fn start_link(a_id: &str, b_id: &str) -> (r: Result<(LinkState, Query)>)
    ensures
        match r {
            Ok(start) => a_id@ != b_id@ && start.0 == LinkState::First && start.1@ == entry_request(
                SNAPSHOT_NODE@,
                "node_id"@,
                a_id@,
            ),
            Err(error) => a_id@ == b_id@ && error.is_backend(self_link(a_id@)),
        },
{
    if same_text(a_id, b_id) {
        return Err(
            MemoryError::Backend(
                concat3("link_also_known_as: a self-link on ", a_id, " is meaningless"),
            ),
        );
    }
    Ok((LinkState::First, snapshot_node_query(a_id)))
}

/// Takes the rows of the read that was asked for, and says what comes next. A missing
/// node is an error.
pub fn next_link(a_id: &str, b_id: &str, state: LinkState, rows: &Vec<Row>, now: Timestamp) -> (r:
    Result<LinkNext>)
    ensures
        match state {
            LinkState::First => match (node_read(a_id@, rows@), r) {
                (NodeRead::Node(node), Ok(LinkNext::Ask { state: LinkState::Second { a_name }, query })) => a_name@
                    == node.name && query@ == entry_request(SNAPSHOT_NODE@, "node_id"@, b_id@),
                (NodeRead::Missing, Err(error)) => error.is_backend(link_missing(a_id@)),
                (NodeRead::Malformed, Err(error)) => error.is_backend(bad_node_row(a_id@)),
                _ => false,
            },
            LinkState::Second { a_name } => match (node_read(b_id@, rows@), r) {
                (NodeRead::Node(node), Ok(LinkNext::Write(write))) => write@
                    == (Write::LinkAlsoKnownAs {
                    a: a_id@,
                    b: b_id@,
                    text: a_name@ + " is also known as "@ + node.name + "."@,
                    now,
                }),
                (NodeRead::Missing, Err(error)) => error.is_backend(link_missing(b_id@)),
                (NodeRead::Malformed, Err(error)) => error.is_backend(bad_node_row(b_id@)),
                _ => false,
            },
        },
{
    match state {
        LinkState::First => {
            match read_snapshot_node(a_id, rows) {
                Ok(Some(node)) => Ok(
                    LinkNext::Ask {
                        state: LinkState::Second { a_name: node.name },
                        query: snapshot_node_query(b_id),
                    },
                ),
                Ok(None) => Err(
                    MemoryError::Backend(
                        concat3("link_also_known_as: node ", a_id, " does not exist"),
                    ),
                ),
                Err(error) => Err(error),
            }
        },
        LinkState::Second { a_name } => {
            match read_snapshot_node(b_id, rows) {
                Ok(Some(node)) => {
                    let mut edge_text = a_name.clone();
                    edge_text.append(" is also known as ");
                    edge_text.append(node.name.as_str());
                    edge_text.append(".");
                    Ok(
                        LinkNext::Write(
                            GraphWrite::LinkAlsoKnownAs {
                                a_id: a_id.to_owned(),
                                b_id: b_id.to_owned(),
                                edge_text,
                                now,
                            },
                        ),
                    )
                },
                Ok(None) => Err(
                    MemoryError::Backend(
                        concat3("link_also_known_as: node ", b_id, " does not exist"),
                    ),
                ),
                Err(error) => Err(error),
            }
        },
    }
}

/// Linking two nodes twice is the same as linking them once.
pub proof fn law_link_is_idempotent(
    g: Graph,
    a: Seq<char>,
    b: Seq<char>,
    text: Seq<char>,
    now: Timestamp,
    other_text: Seq<char>,
    later: Timestamp,
)
    ensures
        ({
            let once = g.after(Write::LinkAlsoKnownAs { a, b, text, now });
            &&& g.joins(a, b) ==> once.linked(a, b)
            &&& once.after(Write::LinkAlsoKnownAs { a, b, text: other_text, now: later }) == once
        }),
{
    let once = g.after(Write::LinkAlsoKnownAs { a, b, text, now });
    if g.joins(a, b) {
        if !g.linked(a, b) {
            let key = EdgeKey {
                source: a,
                relationship: "also_known_as"@,
                target: b,
                valid_at: now.unix_nanos(),
            };
            assert(once.edges.contains_key(key));
            assert(once.linked(a, b));
        }
    }
}

} // verus!
