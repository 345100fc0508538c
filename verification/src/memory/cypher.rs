//! The statements of the graph database.

use crate::memory::graph::Write;
use crate::memory::types::{
    EdgeId, MemoryEdge, MemoryNode, MergeSnapshotEdge, MergeSnapshotEdgeKey, MergeSnapshotNode,
    NEIGHBOR_EXPANSION_LIMIT,
};
use crate::memory::value::{
    Parameter, Query, Request, opt_string, opt_timestamp, optional_text, optional_time, text_param,
    time_param,
};
use crate::text::{nat_text, opt_text, texts, u64_text};
use crate::timestamp::Timestamp;
use vstd::prelude::*;

verus! {

/// The node table.
pub const DDL_NODE: &'static str = "CREATE NODE TABLE IF NOT EXISTS Node(
    id STRING PRIMARY KEY,
    name STRING,
    type STRING,
    created_at TIMESTAMP,
    updated_at TIMESTAMP,
    properties STRING
)";

/// The edge table.
pub const DDL_EDGE: &'static str = "CREATE REL TABLE IF NOT EXISTS EDGE(
    FROM Node TO Node,
    relationship_name STRING,
    valid_at TIMESTAMP,
    invalid_at TIMESTAMP,
    edge_text STRING,
    created_at TIMESTAMP,
    updated_at TIMESTAMP,
    properties STRING
)";

/// Creates the skeleton node of a batch, or refreshes its time.
pub const MERGE_BATCH: &'static str = "MERGE (b:Node {id: $id})
ON CREATE SET b.name = $id, b.type = 'MessageBatch', b.created_at = $now, b.updated_at = $now
ON MATCH SET b.updated_at = $now";

/// Creates a node, or refreshes its scalar columns. A NULL properties parameter
/// keeps the stored blob.
pub const MERGE_NODE: &'static str = "MERGE (n:Node {id: $id})
ON CREATE SET n.name = $name, n.type = $type, n.created_at = $created_at, n.updated_at = $updated_at, n.properties = $properties
ON MATCH SET n.name = $name, n.updated_at = $updated_at, n.properties = coalesce($properties, n.properties)";

/// Creates an edge under its natural key, or refreshes it. A replayed edge takes
/// its original `invalid_at` again.
pub const MERGE_EDGE: &'static str = "MATCH (s:Node {id: $source_id}), (t:Node {id: $target_id})
MERGE (s)-[r:EDGE {relationship_name: $rel, valid_at: $valid_at}]->(t)
ON CREATE SET r.edge_text = $edge_text, r.invalid_at = $invalid_at, r.created_at = $created_at, r.updated_at = $updated_at, r.properties = $properties
ON MATCH SET r.edge_text = $edge_text, r.invalid_at = $invalid_at, r.updated_at = $updated_at, r.properties = coalesce($properties, r.properties)";

/// The sources of the alias edges into one alias node.
pub const ALIAS_TARGETS: &'static str = "MATCH (s:Node)-[r:EDGE]->(a:Node {id: $alias_id})
WHERE r.relationship_name IN ['known_as', 'also_known_as']
RETURN s.id, s.type";

/// The valid edges of one node, both directions, newest first; the limit is
/// appended. Provenance edges stay out.
pub const NEIGHBORS: &'static str = "MATCH (s:Node)-[r:EDGE]->(t:Node)
WHERE (s.id = $node_id OR t.id = $node_id)
  AND r.invalid_at IS NULL
  AND r.relationship_name <> 'contains'
RETURN s.id, s.name, t.id, t.name, r.relationship_name, r.edge_text, r.valid_at, r.created_at
ORDER BY r.created_at DESC
LIMIT ";

/// The stored display content of one node.
pub const NODE_CONTENT: &'static str = "MATCH (n:Node {id: $node_id})
RETURN n.name, n.properties";

/// The stored display content of every node.
pub const LIST_NODE_CONTENTS: &'static str = "MATCH (n:Node)
RETURN n.id, n.name, n.properties";

/// The type of each node and the sources of the alias edges into it, grouped by
/// node and ordered by source.
pub const NODE_RESOLUTION_INFOS: &'static str = "MATCH (n:Node)
WHERE n.id IN $node_ids
OPTIONAL MATCH (s:Node)-[r:EDGE]->(n)
WHERE r.relationship_name IN ['known_as', 'also_known_as']
RETURN n.id, n.type, s.id
ORDER BY n.id, s.id";

/// The number of alias edges between two nodes, in either direction.
pub const ARE_LINKED: &'static str = "MATCH (a:Node)-[r:EDGE]->(b:Node)
WHERE ((a.id = $a_id AND b.id = $b_id) OR (a.id = $b_id AND b.id = $a_id))
  AND r.relationship_name IN ['known_as', 'also_known_as']
RETURN count(r)";

/// The creation time and the edge degree of each node; a self-loop counts once.
pub const NODE_MERGE_STATS: &'static str = "MATCH (n:Node)
WHERE n.id IN $node_ids
OPTIONAL MATCH (n)-[r:EDGE]-()
RETURN n.id, n.created_at, count(DISTINCT r)
ORDER BY n.id";

/// Every stored column of one node.
pub const SNAPSHOT_NODE: &'static str = "MATCH (n:Node {id: $node_id})
RETURN n.name, n.type, n.created_at, n.updated_at, n.properties";

/// Every stored column of every edge of one node.
pub const SNAPSHOT_EDGES: &'static str = "MATCH (s:Node)-[r:EDGE]->(t:Node)
WHERE s.id = $node_id OR t.id = $node_id
RETURN s.id, t.id, r.relationship_name, r.valid_at, r.invalid_at, r.edge_text, r.created_at, r.updated_at, r.properties
ORDER BY r.created_at, s.id, t.id, r.relationship_name";

/// Creates an edge verbatim.
pub const CREATE_EDGE: &'static str = "MATCH (s:Node {id: $source_id}), (t:Node {id: $target_id})
CREATE (s)-[:EDGE {relationship_name: $rel, valid_at: $valid_at, invalid_at: $invalid_at, edge_text: $edge_text, created_at: $created_at, updated_at: $updated_at, properties: $properties}]->(t)";

/// Deletes an edge by its natural key.
pub const DELETE_EDGE: &'static str = "MATCH (s:Node {id: $source_id})-[r:EDGE]->(t:Node {id: $target_id})
WHERE r.relationship_name = $rel AND r.valid_at = $valid_at
DELETE r";

/// Creates a node verbatim.
pub const CREATE_NODE: &'static str = "CREATE (n:Node {id: $id, name: $name, type: $type, created_at: $created_at, updated_at: $updated_at, properties: $properties})";

/// Deletes a node and every edge touching it.
pub const DETACH_DELETE_NODE: &'static str = "MATCH (n:Node {id: $node_id}) DETACH DELETE n";

/// Links two nodes with `also_known_as`; an existing link is kept.
pub const LINK_ALSO_KNOWN_AS: &'static str = "MATCH (a:Node {id: $a_id}), (b:Node {id: $b_id})
MERGE (a)-[r:EDGE {relationship_name: 'also_known_as'}]->(b)
ON CREATE SET r.valid_at = $now, r.edge_text = $edge_text, r.created_at = $now, r.updated_at = $now";

/// Invalidates every other valid edge of a subject and relationship, and counts
/// them. The edge with the given target and `valid_at` is spared.
pub const INVALIDATE_SIBLINGS: &'static str = "MATCH (s:Node)-[r:EDGE]->(o:Node)
WHERE s.id = $subject_id AND r.relationship_name = $rel AND r.invalid_at IS NULL
  AND NOT (o.id = $target_id AND r.valid_at = $valid_at)
SET r.invalid_at = $now, r.updated_at = $now
RETURN count(r)";

/// Sets the validity of an edge by its natural key.
pub const SET_EDGE_INVALID_AT: &'static str = "MATCH (s:Node {id: $source_id})-[r:EDGE]->(t:Node {id: $target_id})
WHERE r.relationship_name = $rel AND r.valid_at = $valid_at
SET r.invalid_at = $invalid_at, r.updated_at = $updated_at";

/// The validity of an edge by its natural key.
pub const FIND_EDGE_BY_KEY: &'static str = "MATCH (s:Node {id: $source_id})-[r:EDGE]->(t:Node {id: $target_id})
WHERE r.relationship_name = $rel AND r.valid_at = $valid_at
RETURN r.invalid_at";

/// Every edge of one node with both endpoint names, valid and invalid.
pub const NODE_FACTS_EDGES: &'static str = "MATCH (s:Node)-[r:EDGE]->(t:Node)
WHERE s.id = $node_id OR t.id = $node_id
RETURN s.id, s.name, t.id, t.name, r.relationship_name, r.edge_text, r.valid_at, r.invalid_at
ORDER BY r.valid_at DESC, r.relationship_name, t.id";

/// The valid recent edges of one node for the recall expansion, newest first; the
/// limit is appended. Provenance and surface-form edges stay out.
pub const TWO_HOP_EDGES: &'static str = "MATCH (s:Node)-[r:EDGE]->(t:Node)
WHERE (s.id = $node_id OR t.id = $node_id)
  AND r.invalid_at IS NULL
  AND r.relationship_name <> 'contains'
  AND r.relationship_name <> 'known_as'
  AND (r.valid_at >= $cutoff OR r.created_at >= $cutoff)
RETURN s.id, s.name, t.id, t.name, r.relationship_name, r.edge_text, r.valid_at
ORDER BY r.created_at DESC
LIMIT ";

/// The endpoint names and the text of a valid edge by its natural key.
pub const EDGE_BY_KEY_HYDRATE: &'static str = "MATCH (s:Node {id: $source_id})-[r:EDGE]->(t:Node {id: $target_id})
WHERE r.relationship_name = $rel AND r.valid_at = $valid_at
  AND r.invalid_at IS NULL
RETURN s.name, t.name, r.edge_text";

/// Every edge of the group.
pub const LIST_ALL_EDGES: &'static str = "MATCH (s:Node)-[r:EDGE]->(t:Node)
RETURN s.id, r.relationship_name, t.id, r.valid_at, r.edge_text";

/// The valid edges of one subject and relationship.
pub const VALID_OUTGOING_EDGES: &'static str = "MATCH (s:Node {id: $subject_id})-[r:EDGE]->(o:Node)
WHERE r.relationship_name = $rel AND r.invalid_at IS NULL
RETURN o.id, r.valid_at";

/// One write on the graph.
#[derive(Debug, Clone, PartialEq, Eq)]
pub enum GraphWrite {
    CreateNode(MergeSnapshotNode),
    CreateEdge(MergeSnapshotEdge),
    DeleteEdge(MergeSnapshotEdgeKey),
    DetachDeleteNode(String),
    SetInvalidAt { key: EdgeId, invalid_at: Option<Timestamp>, updated_at: Timestamp },
    UpsertBatch { id: String, now: Timestamp },
    UpsertNode(MemoryNode),
    UpsertEdge(MemoryEdge),
    /// Spares the edge with the key.
    InvalidateSiblings { key: EdgeId, now: Timestamp },
    LinkAlsoKnownAs { a_id: String, b_id: String, edge_text: String, now: Timestamp },
}

impl View for GraphWrite {
    type V = Write;

    open spec fn view(&self) -> Write {
        match self {
            GraphWrite::CreateNode(node) => Write::CreateNode { node: node@ },
            GraphWrite::CreateEdge(edge) => Write::CreateEdge { edge: edge@ },
            GraphWrite::DeleteEdge(key) => Write::DeleteEdge { key: key@ },
            GraphWrite::DetachDeleteNode(id) => Write::DetachDeleteNode { id: id@ },
            GraphWrite::SetInvalidAt { key, invalid_at, updated_at } => Write::SetInvalidAt {
                key: key@,
                invalid_at: *invalid_at,
                updated_at: *updated_at,
            },
            GraphWrite::UpsertBatch { id, now } => Write::UpsertBatch { id: id@, now: *now },
            GraphWrite::UpsertNode(node) => Write::UpsertNode { node: node@ },
            GraphWrite::UpsertEdge(edge) => Write::UpsertEdge { edge: edge@ },
            GraphWrite::InvalidateSiblings { key, now } => Write::InvalidateSiblings {
                key: key@,
                now: *now,
            },
            GraphWrite::LinkAlsoKnownAs { a_id, b_id, edge_text, now } => Write::LinkAlsoKnownAs {
                a: a_id@,
                b: b_id@,
                text: edge_text@,
                now: *now,
            },
        }
    }
}

/// The writes, as the model sees them.
pub open spec fn writes_of(writes: Seq<GraphWrite>) -> Seq<Write> {
    writes.map_values(|write: GraphWrite| write@)
}

impl GraphWrite {
    /// The statement of the write with its parameters.
    pub open spec fn request(self) -> Request {
        match self {
            GraphWrite::CreateNode(node) => Request {
                cypher: CREATE_NODE@,
                params: seq![
                    ("id"@, text_param(node.id@)),
                    ("name"@, text_param(node.name@)),
                    ("type"@, text_param(node.kind@)),
                    ("created_at"@, time_param(node.created_at)),
                    ("updated_at"@, time_param(node.updated_at)),
                    ("properties"@, Parameter::One(optional_text(opt_text(node.properties)))),
                ],
            },
            GraphWrite::CreateEdge(edge) => Request {
                cypher: CREATE_EDGE@,
                params: seq![
                    ("source_id"@, text_param(edge.source_id@)),
                    ("target_id"@, text_param(edge.target_id@)),
                    ("rel"@, text_param(edge.relationship_name@)),
                    ("valid_at"@, time_param(edge.valid_at)),
                    ("invalid_at"@, Parameter::One(optional_time(edge.invalid_at))),
                    ("edge_text"@, text_param(edge.edge_text@)),
                    ("created_at"@, time_param(edge.created_at)),
                    ("updated_at"@, time_param(edge.updated_at)),
                    ("properties"@, Parameter::One(optional_text(opt_text(edge.properties)))),
                ],
            },
            GraphWrite::DeleteEdge(key) => Request {
                cypher: DELETE_EDGE@,
                params: seq![
                    ("source_id"@, text_param(key.source_id@)),
                    ("target_id"@, text_param(key.target_id@)),
                    ("rel"@, text_param(key.relationship_name@)),
                    ("valid_at"@, time_param(key.valid_at)),
                ],
            },
            GraphWrite::DetachDeleteNode(id) => Request {
                cypher: DETACH_DELETE_NODE@,
                params: seq![("node_id"@, text_param(id@))],
            },
            GraphWrite::SetInvalidAt { key, invalid_at, updated_at } => Request {
                cypher: SET_EDGE_INVALID_AT@,
                params: seq![
                    ("source_id"@, text_param(key.source_id@)),
                    ("target_id"@, text_param(key.target_id@)),
                    ("rel"@, text_param(key.relationship_name@)),
                    ("valid_at"@, time_param(key.valid_at)),
                    ("invalid_at"@, Parameter::One(optional_time(invalid_at))),
                    ("updated_at"@, time_param(updated_at)),
                ],
            },
            GraphWrite::UpsertBatch { id, now } => Request {
                cypher: MERGE_BATCH@,
                params: seq![("id"@, text_param(id@)), ("now"@, time_param(now))],
            },
            GraphWrite::UpsertNode(node) => Request {
                cypher: MERGE_NODE@,
                params: seq![
                    ("id"@, text_param(node.id@)),
                    ("name"@, text_param(node.name@)),
                    ("type"@, text_param(node.node_type.column())),
                    ("created_at"@, time_param(node.created_at)),
                    ("updated_at"@, time_param(node.updated_at)),
                    ("properties"@, Parameter::One(optional_text(opt_text(node.properties)))),
                ],
            },
            GraphWrite::UpsertEdge(edge) => Request {
                cypher: MERGE_EDGE@,
                params: seq![
                    ("source_id"@, text_param(edge.source_id@)),
                    ("target_id"@, text_param(edge.target_id@)),
                    ("rel"@, text_param(edge.relationship_name@)),
                    ("valid_at"@, time_param(edge.valid_at)),
                    ("invalid_at"@, Parameter::One(optional_time(edge.invalid_at))),
                    ("edge_text"@, text_param(edge.edge_text@)),
                    ("created_at"@, time_param(edge.created_at)),
                    ("updated_at"@, time_param(edge.updated_at)),
                    ("properties"@, Parameter::One(optional_text(opt_text(edge.properties)))),
                ],
            },
            GraphWrite::InvalidateSiblings { key, now } => Request {
                cypher: INVALIDATE_SIBLINGS@,
                params: seq![
                    ("subject_id"@, text_param(key.source_id@)),
                    ("rel"@, text_param(key.relationship_name@)),
                    ("target_id"@, text_param(key.target_id@)),
                    ("valid_at"@, time_param(key.valid_at)),
                    ("now"@, time_param(now)),
                ],
            },
            GraphWrite::LinkAlsoKnownAs { a_id, b_id, edge_text, now } => Request {
                cypher: LINK_ALSO_KNOWN_AS@,
                params: seq![
                    ("a_id"@, text_param(a_id@)),
                    ("b_id"@, text_param(b_id@)),
                    ("now"@, time_param(now)),
                    ("edge_text"@, text_param(edge_text@)),
                ],
            },
        }
    }

    /// The statement of the write with its parameters.
    pub fn to_query(&self) -> (r: Query)
        ensures
            r@ == self.request(),
    {
        let r = match self {
            GraphWrite::CreateNode(node) => Query::new(CREATE_NODE).with_text(
                "id",
                node.id.as_str(),
            ).with_text("name", node.name.as_str()).with_text("type", node.kind.as_str()).with_time(
                "created_at",
                node.created_at,
            ).with_time("updated_at", node.updated_at).with(
                "properties",
                opt_string(&node.properties),
            ),
            GraphWrite::CreateEdge(edge) => edge_columns(
                CREATE_EDGE,
                edge.source_id.as_str(),
                edge.target_id.as_str(),
                edge.relationship_name.as_str(),
                edge.valid_at,
            ).with("invalid_at", opt_timestamp(edge.invalid_at)).with_text(
                "edge_text",
                edge.edge_text.as_str(),
            ).with_time("created_at", edge.created_at).with_time("updated_at", edge.updated_at).with(
                "properties",
                opt_string(&edge.properties),
            ),
            GraphWrite::DeleteEdge(key) => edge_columns(
                DELETE_EDGE,
                key.source_id.as_str(),
                key.target_id.as_str(),
                key.relationship_name.as_str(),
                key.valid_at,
            ),
            GraphWrite::DetachDeleteNode(id) => Query::new(DETACH_DELETE_NODE).with_text(
                "node_id",
                id.as_str(),
            ),
            GraphWrite::SetInvalidAt { key, invalid_at, updated_at } => edge_columns(
                SET_EDGE_INVALID_AT,
                key.source_id.as_str(),
                key.target_id.as_str(),
                key.relationship_name.as_str(),
                key.valid_at,
            ).with("invalid_at", opt_timestamp(*invalid_at)).with_time("updated_at", *updated_at),
            GraphWrite::UpsertBatch { id, now } => Query::new(MERGE_BATCH).with_text(
                "id",
                id.as_str(),
            ).with_time("now", *now),
            GraphWrite::UpsertNode(node) => Query::new(MERGE_NODE).with_text(
                "id",
                node.id.as_str(),
            ).with_text("name", node.name.as_str()).with_text(
                "type",
                node.node_type.as_str(),
            ).with_time("created_at", node.created_at).with_time("updated_at", node.updated_at).with(
                "properties",
                opt_string(&node.properties),
            ),
            GraphWrite::UpsertEdge(edge) => edge_columns(
                MERGE_EDGE,
                edge.source_id.as_str(),
                edge.target_id.as_str(),
                edge.relationship_name.as_str(),
                edge.valid_at,
            ).with("invalid_at", opt_timestamp(edge.invalid_at)).with_text(
                "edge_text",
                edge.edge_text.as_str(),
            ).with_time("created_at", edge.created_at).with_time("updated_at", edge.updated_at).with(
                "properties",
                opt_string(&edge.properties),
            ),
            GraphWrite::InvalidateSiblings { key, now } => Query::new(
                INVALIDATE_SIBLINGS,
            ).with_text("subject_id", key.source_id.as_str()).with_text(
                "rel",
                key.relationship_name.as_str(),
            ).with_text("target_id", key.target_id.as_str()).with_time(
                "valid_at",
                key.valid_at,
            ).with_time("now", *now),
            GraphWrite::LinkAlsoKnownAs { a_id, b_id, edge_text, now } => Query::new(
                LINK_ALSO_KNOWN_AS,
            ).with_text("a_id", a_id.as_str()).with_text("b_id", b_id.as_str()).with_time(
                "now",
                *now,
            ).with_text("edge_text", edge_text.as_str()),
        };
        assert(r@.params =~= self.request().params);
        r
    }
}

/// A statement with the four natural-key parameters.
fn edge_columns(
    cypher: &str,
    source_id: &str,
    target_id: &str,
    relationship_name: &str,
    valid_at: Timestamp,
) -> (r: Query)
    ensures
        r@ == keyed_request(cypher@, source_id@, target_id@, relationship_name@, valid_at),
{
    let r = Query::new(cypher).with_text("source_id", source_id).with_text(
        "target_id",
        target_id,
    ).with_text("rel", relationship_name).with_time("valid_at", valid_at);
    assert(r@.params =~= keyed_request(
        cypher@,
        source_id@,
        target_id@,
        relationship_name@,
        valid_at,
    ).params);
    r
}

/// A statement with the four natural-key parameters.
pub open spec fn keyed_request(
    cypher: Seq<char>,
    source_id: Seq<char>,
    target_id: Seq<char>,
    relationship_name: Seq<char>,
    valid_at: Timestamp,
) -> Request {
    Request {
        cypher,
        params: seq![
            ("source_id"@, text_param(source_id)),
            ("target_id"@, text_param(target_id)),
            ("rel"@, text_param(relationship_name)),
            ("valid_at"@, time_param(valid_at)),
        ],
    }
}

/// A statement with one text parameter.
pub open spec fn entry_request(cypher: Seq<char>, name: Seq<char>, value: Seq<char>) -> Request {
    Request { cypher, params: seq![(name, text_param(value))] }
}

fn entry_query(cypher: &str, name: &'static str, value: &str) -> (r: Query)
    ensures
        r@ == entry_request(cypher@, name@, value@),
{
    let r = Query::new(cypher).with_text(name, value);
    assert(r@.params =~= entry_request(cypher@, name@, value@).params);
    r
}

/// Reads every stored column of a node.
pub fn snapshot_node_query(node_id: &str) -> (r: Query)
    ensures
        r@ == entry_request(SNAPSHOT_NODE@, "node_id"@, node_id@),
{
    entry_query(SNAPSHOT_NODE, "node_id", node_id)
}

/// Reads every stored column of every edge of a node.
pub fn snapshot_edges_query(node_id: &str) -> (r: Query)
    ensures
        r@ == entry_request(SNAPSHOT_EDGES@, "node_id"@, node_id@),
{
    entry_query(SNAPSHOT_EDGES, "node_id", node_id)
}

/// Reads the targets of an alias node.
pub fn alias_targets_query(alias_node_id: &str) -> (r: Query)
    ensures
        r@ == entry_request(ALIAS_TARGETS@, "alias_id"@, alias_node_id@),
{
    entry_query(ALIAS_TARGETS, "alias_id", alias_node_id)
}

/// Reads the stored display content of a node.
pub fn node_content_query(node_id: &str) -> (r: Query)
    ensures
        r@ == entry_request(NODE_CONTENT@, "node_id"@, node_id@),
{
    entry_query(NODE_CONTENT, "node_id", node_id)
}

/// Reads the stored display content of every node.
pub fn list_node_contents_query() -> (r: Query)
    ensures
        r@ == (Request { cypher: LIST_NODE_CONTENTS@, params: seq![] }),
{
    Query::new(LIST_NODE_CONTENTS)
}

/// Reads every edge of the group.
pub fn list_all_edges_query() -> (r: Query)
    ensures
        r@ == (Request { cypher: LIST_ALL_EDGES@, params: seq![] }),
{
    Query::new(LIST_ALL_EDGES)
}

/// Reads every edge of a node with both endpoint names.
pub fn node_facts_query(node_id: &str) -> (r: Query)
    ensures
        r@ == entry_request(NODE_FACTS_EDGES@, "node_id"@, node_id@),
{
    entry_query(NODE_FACTS_EDGES, "node_id", node_id)
}

/// Reads the valid neighbors of a node, at most `NEIGHBOR_EXPANSION_LIMIT`.
pub fn neighbors_query(node_id: &str) -> (r: Query)
    ensures
        r@ == entry_request(
            NEIGHBORS@ + nat_text(NEIGHBOR_EXPANSION_LIMIT as nat),
            "node_id"@,
            node_id@,
        ),
        r@.cypher == NEIGHBORS@ + nat_text(500),
{
    let limit = u64_text(NEIGHBOR_EXPANSION_LIMIT as u64);
    let cypher = NEIGHBORS.to_owned().concat(limit.as_str());
    entry_query(cypher.as_str(), "node_id", node_id)
}

/// The expansion read of one node.
pub open spec fn expansion_request(
    node_id: Seq<char>,
    cutoff: Timestamp,
    per_node_limit: nat,
) -> Request {
    Request {
        cypher: TWO_HOP_EDGES@ + nat_text(per_node_limit),
        params: seq![("node_id"@, text_param(node_id)), ("cutoff"@, time_param(cutoff))],
    }
}

/// Reads the recent valid edges of a node, at most `per_node_limit`.
pub fn expansion_query(node_id: &str, cutoff: Timestamp, per_node_limit: usize) -> (r: Query)
    ensures
        r@ == expansion_request(node_id@, cutoff, per_node_limit as nat),
{
    let limit = u64_text(per_node_limit as u64);
    let cypher = TWO_HOP_EDGES.to_owned().concat(limit.as_str());
    let r = Query::new(cypher.as_str()).with_text("node_id", node_id).with_time("cutoff", cutoff);
    assert(r@.params =~= expansion_request(node_id@, cutoff, per_node_limit as nat).params);
    r
}

/// Reads the endpoint names and the text of a valid edge.
pub fn hydrate_query(key: &EdgeId) -> (r: Query)
    ensures
        r@ == keyed_request(
            EDGE_BY_KEY_HYDRATE@,
            key.source_id@,
            key.target_id@,
            key.relationship_name@,
            key.valid_at,
        ),
{
    edge_columns(
        EDGE_BY_KEY_HYDRATE,
        key.source_id.as_str(),
        key.target_id.as_str(),
        key.relationship_name.as_str(),
        key.valid_at,
    )
}

/// Reads the validity of an edge.
pub fn find_edge_query(key: &EdgeId) -> (r: Query)
    ensures
        r@ == keyed_request(
            FIND_EDGE_BY_KEY@,
            key.source_id@,
            key.target_id@,
            key.relationship_name@,
            key.valid_at,
        ),
{
    edge_columns(
        FIND_EDGE_BY_KEY,
        key.source_id.as_str(),
        key.target_id.as_str(),
        key.relationship_name.as_str(),
        key.valid_at,
    )
}

/// A statement over a list of node identifiers.
pub open spec fn node_list_request(cypher: Seq<char>, node_ids: Seq<Seq<char>>) -> Request {
    Request { cypher, params: seq![("node_ids"@, Parameter::List(node_ids))] }
}

/// Reads the type and the alias edges of each node; nothing to read for no nodes.
pub fn node_resolution_infos_query(node_ids: &Vec<String>) -> (r: Option<Query>)
    ensures
        r is None <==> node_ids@.len() == 0,
        r matches Some(query) ==> query@ == node_list_request(
            NODE_RESOLUTION_INFOS@,
            texts(node_ids@),
        ),
{
    if node_ids.len() == 0 {
        return None;
    }
    let query = Query::new(NODE_RESOLUTION_INFOS).with_list("node_ids", node_ids);
    assert(query@.params =~= node_list_request(
        NODE_RESOLUTION_INFOS@,
        texts(node_ids@),
    ).params);
    Some(query)
}

/// Reads what the choice of a merge survivor looks at; nothing to read for no
/// nodes.
pub fn node_merge_stats_query(node_ids: &Vec<String>) -> (r: Option<Query>)
    ensures
        r is None <==> node_ids@.len() == 0,
        r matches Some(query) ==> query@ == node_list_request(NODE_MERGE_STATS@, texts(node_ids@)),
{
    if node_ids.len() == 0 {
        return None;
    }
    let query = Query::new(NODE_MERGE_STATS).with_list("node_ids", node_ids);
    assert(query@.params =~= node_list_request(NODE_MERGE_STATS@, texts(node_ids@)).params);
    Some(query)
}

/// The count of alias edges between two nodes.
pub open spec fn are_linked_request(a_id: Seq<char>, b_id: Seq<char>) -> Request {
    Request {
        cypher: ARE_LINKED@,
        params: seq![("a_id"@, text_param(a_id)), ("b_id"@, text_param(b_id))],
    }
}

/// Counts the alias edges between two nodes.
pub fn are_linked_query(a_id: &str, b_id: &str) -> (r: Query)
    ensures
        r@ == are_linked_request(a_id@, b_id@),
{
    let r = Query::new(ARE_LINKED).with_text("a_id", a_id).with_text("b_id", b_id);
    assert(r@.params =~= are_linked_request(a_id@, b_id@).params);
    r
}

/// The valid edges of one subject and relationship.
pub open spec fn valid_outgoing_request(subject: Seq<char>, relationship: Seq<char>) -> Request {
    Request {
        cypher: VALID_OUTGOING_EDGES@,
        params: seq![("subject_id"@, text_param(subject)), ("rel"@, text_param(relationship))],
    }
}

/// Reads the valid edges of one subject and relationship.
pub fn valid_outgoing_query(subject_id: &str, relationship_name: &str) -> (r: Query)
    ensures
        r@ == valid_outgoing_request(subject_id@, relationship_name@),
{
    let r = Query::new(VALID_OUTGOING_EDGES).with_text("subject_id", subject_id).with_text(
        "rel",
        relationship_name,
    );
    assert(r@.params =~= valid_outgoing_request(subject_id@, relationship_name@).params);
    r
}

} // verus!
