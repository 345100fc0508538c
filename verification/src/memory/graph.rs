//! The mathematical model of a group's graph and of the writes on it.

use crate::memory::types::{
    EdgeId, MemoryEdge, MemoryNode, MergeSnapshotEdge, MergeSnapshotEdgeKey, MergeSnapshotNode,
    NodeType,
};
use crate::text::opt_text;
use crate::timestamp::Timestamp;
use vstd::prelude::*;

verus! {

/// One stored node.
#[verifier::ext_equal]
pub struct NodeRow {
    pub id: Seq<char>,
    pub kind: Seq<char>,
    pub name: Seq<char>,
    pub created_at: Timestamp,
    pub updated_at: Timestamp,
    pub properties: Option<Seq<char>>,
}

/// The natural key of an edge. The instant counts, not the offset it is told in.
#[verifier::ext_equal]
pub struct EdgeKey {
    pub source: Seq<char>,
    pub relationship: Seq<char>,
    pub target: Seq<char>,
    pub valid_at: int,
}

impl EdgeKey {
    /// Whether the node is one of the endpoints.
    pub open spec fn touches(self, node: Seq<char>) -> bool {
        self.source == node || self.target == node
    }
}

/// One stored edge.
#[verifier::ext_equal]
pub struct EdgeRow {
    pub source: Seq<char>,
    pub target: Seq<char>,
    pub relationship: Seq<char>,
    pub valid_at: Timestamp,
    pub invalid_at: Option<Timestamp>,
    pub text: Seq<char>,
    pub created_at: Timestamp,
    pub updated_at: Timestamp,
    pub properties: Option<Seq<char>>,
}

impl EdgeRow {
    /// The natural key of the edge.
    pub open spec fn key(self) -> EdgeKey {
        EdgeKey {
            source: self.source,
            relationship: self.relationship,
            target: self.target,
            valid_at: self.valid_at.unix_nanos(),
        }
    }

    /// Whether the fact is valid now.
    pub open spec fn is_valid(self) -> bool {
        self.invalid_at is None
    }

    /// The edge with another `invalid_at` and `updated_at`.
    pub open spec fn with_validity(self, invalid_at: Option<Timestamp>, updated_at: Timestamp) -> EdgeRow {
        EdgeRow { invalid_at, updated_at, ..self }
    }
}

impl View for MergeSnapshotNode {
    type V = NodeRow;

    open spec fn view(&self) -> NodeRow {
        NodeRow {
            id: self.id@,
            kind: self.kind@,
            name: self.name@,
            created_at: self.created_at,
            updated_at: self.updated_at,
            properties: opt_text(self.properties),
        }
    }
}

impl View for MergeSnapshotEdge {
    type V = EdgeRow;

    open spec fn view(&self) -> EdgeRow {
        EdgeRow {
            source: self.source_id@,
            target: self.target_id@,
            relationship: self.relationship_name@,
            valid_at: self.valid_at,
            invalid_at: self.invalid_at,
            text: self.edge_text@,
            created_at: self.created_at,
            updated_at: self.updated_at,
            properties: opt_text(self.properties),
        }
    }
}

impl View for MemoryEdge {
    type V = EdgeRow;

    open spec fn view(&self) -> EdgeRow {
        EdgeRow {
            source: self.source_id@,
            target: self.target_id@,
            relationship: self.relationship_name@,
            valid_at: self.valid_at,
            invalid_at: self.invalid_at,
            text: self.edge_text@,
            created_at: self.created_at,
            updated_at: self.updated_at,
            properties: opt_text(self.properties),
        }
    }
}

impl View for MemoryNode {
    type V = NodeRow;

    open spec fn view(&self) -> NodeRow {
        NodeRow {
            id: self.id@,
            kind: self.node_type.column(),
            name: self.name@,
            created_at: self.created_at,
            updated_at: self.updated_at,
            properties: opt_text(self.properties),
        }
    }
}

impl View for EdgeId {
    type V = EdgeKey;

    open spec fn view(&self) -> EdgeKey {
        EdgeKey {
            source: self.source_id@,
            relationship: self.relationship_name@,
            target: self.target_id@,
            valid_at: self.valid_at.unix_nanos(),
        }
    }
}

impl View for MergeSnapshotEdgeKey {
    type V = EdgeKey;

    open spec fn view(&self) -> EdgeKey {
        EdgeKey {
            source: self.source_id@,
            relationship: self.relationship_name@,
            target: self.target_id@,
            valid_at: self.valid_at.unix_nanos(),
        }
    }
}

/// The rows of stored edges.
pub open spec fn edge_rows(edges: Seq<MergeSnapshotEdge>) -> Seq<EdgeRow> {
    edges.map_values(|edge: MergeSnapshotEdge| edge@)
}

/// The natural keys of created edges.
pub open spec fn edge_keys(keys: Seq<MergeSnapshotEdgeKey>) -> Seq<EdgeKey> {
    keys.map_values(|key: MergeSnapshotEdgeKey| key@)
}

/// A group's graph: its nodes by identifier and its edges by natural key.
#[verifier::ext_equal]
pub struct Graph {
    pub nodes: Map<Seq<char>, NodeRow>,
    pub edges: Map<EdgeKey, EdgeRow>,
}

/// One write on the graph.
pub enum Write {
    /// Creates a node verbatim.
    CreateNode { node: NodeRow },
    /// Creates an edge verbatim where both endpoints exist.
    CreateEdge { edge: EdgeRow },
    /// Deletes the edge with the natural key.
    DeleteEdge { key: EdgeKey },
    /// Deletes a node and every edge touching it.
    DetachDeleteNode { id: Seq<char> },
    /// Sets the validity of the edge with the natural key.
    SetInvalidAt { key: EdgeKey, invalid_at: Option<Timestamp>, updated_at: Timestamp },
    /// Creates the skeleton node of a batch, or refreshes it.
    UpsertBatch { id: Seq<char>, now: Timestamp },
    /// Creates a node, or refreshes its name, time and properties.
    UpsertNode { node: NodeRow },
    /// Creates an edge, or refreshes its text, validity, time and properties.
    UpsertEdge { edge: EdgeRow },
    /// Invalidates every valid edge of the subject and relationship but the one
    /// with the given target and validity instant.
    InvalidateSiblings { key: EdgeKey, now: Timestamp },
    /// Links two existing nodes with `also_known_as`, unless they are linked.
    LinkAlsoKnownAs { a: Seq<char>, b: Seq<char>, text: Seq<char>, now: Timestamp },
}

/// The new value where there is one, the old value otherwise.
pub open spec fn coalesce(new: Option<Seq<char>>, old: Option<Seq<char>>) -> Option<Seq<char>> {
    if new is Some {
        new
    } else {
        old
    }
}

/// Whether the key belongs to the same subject and relationship as the written
/// edge without being that edge.
pub open spec fn is_sibling(key: EdgeKey, written: EdgeKey) -> bool {
    &&& key.source == written.source
    &&& key.relationship == written.relationship
    &&& !(key.target == written.target && key.valid_at == written.valid_at)
}

impl Graph {
    /// Every edge lies under its own key between existing nodes, and every node
    /// under its own identifier.
    pub open spec fn well_formed(self) -> bool {
        &&& forall|k: EdgeKey| #[trigger]
            self.edges.contains_key(k) ==> self.edges[k].key() == k && self.nodes.contains_key(
                k.source,
            ) && self.nodes.contains_key(k.target)
        &&& forall|id: Seq<char>| #[trigger]
            self.nodes.contains_key(id) ==> self.nodes[id].id == id
    }

    /// Whether both nodes exist.
    pub open spec fn joins(self, source: Seq<char>, target: Seq<char>) -> bool {
        self.nodes.contains_key(source) && self.nodes.contains_key(target)
    }

    /// Whether the natural key names a valid edge.
    pub open spec fn valid_edge(self, key: EdgeKey) -> bool {
        self.edges.contains_key(key) && self.edges[key].is_valid()
    }

    /// Whether an `also_known_as` edge runs from one node to the other.
    pub open spec fn linked(self, a: Seq<char>, b: Seq<char>) -> bool {
        exists|k: EdgeKey| #[trigger]
            self.edges.contains_key(k) && k.source == a && k.target == b && k.relationship
                == "also_known_as"@
    }

    /// The edge that the upsert of `edge` leaves.
    pub open spec fn upserted_edge(self, edge: EdgeRow) -> EdgeRow {
        if self.edges.contains_key(edge.key()) {
            let stored = self.edges[edge.key()];
            EdgeRow {
                text: edge.text,
                invalid_at: edge.invalid_at,
                updated_at: edge.updated_at,
                properties: coalesce(edge.properties, stored.properties),
                ..stored
            }
        } else {
            edge
        }
    }

    /// The node that the upsert of `node` leaves.
    pub open spec fn upserted_node(self, node: NodeRow) -> NodeRow {
        if self.nodes.contains_key(node.id) {
            let stored = self.nodes[node.id];
            NodeRow {
                name: node.name,
                updated_at: node.updated_at,
                properties: coalesce(node.properties, stored.properties),
                ..stored
            }
        } else {
            node
        }
    }

    /// The skeleton node that the upsert of a batch leaves.
    pub open spec fn upserted_batch(self, id: Seq<char>, now: Timestamp) -> NodeRow {
        if self.nodes.contains_key(id) {
            NodeRow { updated_at: now, ..self.nodes[id] }
        } else {
            NodeRow {
                id,
                kind: NodeType::MessageBatch.column(),
                name: id,
                created_at: now,
                updated_at: now,
                properties: None,
            }
        }
    }

    /// The graph after one write.
    pub open spec fn after(self, write: Write) -> Graph {
        match write {
            Write::CreateNode { node } => Graph { nodes: self.nodes.insert(node.id, node), ..self },
            Write::CreateEdge { edge } => if self.joins(edge.source, edge.target) {
                Graph { edges: self.edges.insert(edge.key(), edge), ..self }
            } else {
                self
            },
            Write::DeleteEdge { key } => Graph { edges: self.edges.remove(key), ..self },
            Write::DetachDeleteNode { id } => Graph {
                nodes: self.nodes.remove(id),
                edges: self.edges.restrict(Set::new(|k: EdgeKey| !k.touches(id))),
            },
            Write::SetInvalidAt { key, invalid_at, updated_at } => if self.edges.contains_key(key) {
                Graph {
                    edges: self.edges.insert(
                        key,
                        self.edges[key].with_validity(invalid_at, updated_at),
                    ),
                    ..self
                }
            } else {
                self
            },
            Write::UpsertBatch { id, now } => Graph {
                nodes: self.nodes.insert(id, self.upserted_batch(id, now)),
                ..self
            },
            Write::UpsertNode { node } => Graph {
                nodes: self.nodes.insert(node.id, self.upserted_node(node)),
                ..self
            },
            Write::UpsertEdge { edge } => if self.joins(edge.source, edge.target) {
                Graph { edges: self.edges.insert(edge.key(), self.upserted_edge(edge)), ..self }
            } else {
                self
            },
            Write::InvalidateSiblings { key, now } => Graph {
                edges: Map::new(
                    |k: EdgeKey| self.edges.contains_key(k),
                    |k: EdgeKey|
                        if is_sibling(k, key) && self.edges[k].is_valid() {
                            self.edges[k].with_validity(Some(now), now)
                        } else {
                            self.edges[k]
                        },
                ),
                ..self
            },
            Write::LinkAlsoKnownAs { a, b, text, now } => if self.joins(a, b) && !self.linked(
                a,
                b,
            ) {
                let edge = EdgeRow {
                    source: a,
                    target: b,
                    relationship: "also_known_as"@,
                    valid_at: now,
                    invalid_at: None,
                    text,
                    created_at: now,
                    updated_at: now,
                    properties: None,
                };
                Graph { edges: self.edges.insert(edge.key(), edge), ..self }
            } else {
                self
            },
        }
    }

    /// The graph after the writes, in order.
    pub open spec fn after_all(self, writes: Seq<Write>) -> Graph
        decreases writes.len(),
    {
        if writes.len() == 0 {
            self
        } else {
            self.after_all(writes.drop_last()).after(writes.last())
        }
    }
}

/// The valid edges that a sibling invalidation for the written edge would invalidate.
pub open spec fn valid_siblings(g: Graph, written: EdgeKey) -> Set<EdgeKey> {
    Set::new(|k: EdgeKey| g.valid_edge(k) && is_sibling(k, written))
}

/// The number of edges that the sibling invalidations among the writes count, each in
/// the graph it runs on.
pub open spec fn invalidations(g: Graph, writes: Seq<Write>) -> nat
    decreases writes.len(),
{
    if writes.len() == 0 {
        0
    } else {
        let before = invalidations(g, writes.drop_last());
        match writes.last() {
            Write::InvalidateSiblings { key, .. } => before + valid_siblings(
                g.after_all(writes.drop_last()),
                key,
            ).len(),
            _ => before,
        }
    }
}

/// The invalidations of two runs are those of the first run, and those of the second on
/// the graph that the first one left.
pub proof fn lemma_invalidations_concat(g: Graph, first: Seq<Write>, second: Seq<Write>)
    ensures
        invalidations(g, first + second) == invalidations(g, first) + invalidations(
            g.after_all(first),
            second,
        ),
    decreases second.len(),
{
    if second.len() == 0 {
        assert(first + second =~= first);
    } else {
        assert((first + second).drop_last() =~= first + second.drop_last());
        lemma_invalidations_concat(g, first, second.drop_last());
        lemma_after_concat(g, first, second.drop_last());
    }
}

/// Writes in two runs are the writes of the first run, then of the second.
pub proof fn lemma_after_concat(g: Graph, first: Seq<Write>, second: Seq<Write>)
    ensures
        g.after_all(first + second) == g.after_all(first).after_all(second),
    decreases second.len(),
{
    if second.len() == 0 {
        assert(first + second =~= first);
    } else {
        assert((first + second).drop_last() =~= first + second.drop_last());
        lemma_after_concat(g, first, second.drop_last());
    }
}

/// Every write keeps the graph well-formed: edges lie under their own keys between
/// existing nodes.
pub proof fn law_writes_keep_the_graph_well_formed(g: Graph, write: Write)
    requires
        g.well_formed(),
    ensures
        g.after(write).well_formed(),
{
    let h = g.after(write);
    assert forall|k: EdgeKey| #[trigger] h.edges.contains_key(k) implies h.edges[k].key() == k
        && h.nodes.contains_key(k.source) && h.nodes.contains_key(k.target) by {
        if write is DetachDeleteNode {
            assert(g.edges.contains_key(k));
        } else if g.edges.contains_key(k) {
        }
    }
    assert forall|id: Seq<char>| #[trigger] h.nodes.contains_key(id) implies h.nodes[id].id
        == id by {
        if g.nodes.contains_key(id) {
        }
    }
}

} // verus!
