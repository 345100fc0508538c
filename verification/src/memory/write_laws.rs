//! What the writes of a batch are, and what a change by hand does.

use crate::memory::batch::{
    batch_edge_rows, batch_edge_writes, batch_node_writes, batch_writes, node_rows,
};
use crate::memory::cypher::{GraphWrite, writes_of};
use crate::memory::facts::target_missing;
use crate::memory::graph::{EdgeKey, EdgeRow, Graph, NodeRow, Write, coalesce, is_sibling};
use crate::memory::manual::{Toggle, link_missing, self_link};
use crate::memory::merge::{
    bad_edge_row, bad_node_row, loser_exists, loser_missing, survivor_gone, survivor_missing,
};
use crate::memory::types::{
    EdgeId, MemoryEdge, MemoryError, MemoryNode, MergeSnapshotEdge, MergeSnapshotEdgeKey,
    MergeSnapshotNode, NodeType,
};
use crate::text::opt_text;
use crate::timestamp::Timestamp;
use vstd::prelude::*;

verus! {

/// One more edge of a batch adds its upsert at the end, behind the invalidation of its
/// siblings where its relationship holds a single value; the edge itself is spared.
pub proof fn law_one_more_edge(
    edges: Seq<EdgeRow>,
    edge: EdgeRow,
    single_value: Seq<Seq<char>>,
    now: Timestamp,
)
    ensures
        ({
            let before = batch_edge_writes(edges, single_value, now);
            let after = batch_edge_writes(edges.push(edge), single_value, now);
            let key = EdgeKey {
                source: edge.source,
                relationship: edge.relationship,
                target: edge.target,
                valid_at: edge.valid_at.unix_nanos(),
            };
            &&& single_value.contains(edge.relationship) ==> after == before + seq![
                Write::InvalidateSiblings { key, now },
                Write::UpsertEdge { edge },
            ]
            &&& !single_value.contains(edge.relationship) ==> after == before.push(
                Write::UpsertEdge { edge },
            )
        }),
        batch_edge_writes(Seq::empty(), single_value, now).len() == 0,
{
    let more = edges.push(edge);
    assert(more.drop_last() =~= edges);
    assert(more.last() == edge);
    let before = batch_edge_writes(edges, single_value, now);
    let key = edge.key();
    assert(before.push(Write::InvalidateSiblings { key, now }).push(Write::UpsertEdge { edge })
        =~= before + seq![Write::InvalidateSiblings { key, now }, Write::UpsertEdge { edge }]);
}

/// A batch writes its skeleton node first, then each node, then the edges.
pub proof fn law_batch_order(
    id: Seq<char>,
    nodes: Seq<NodeRow>,
    edges: Seq<EdgeRow>,
    single_value: Seq<Seq<char>>,
    now: Timestamp,
)
    ensures
        ({
            let writes = batch_writes(id, nodes, edges, single_value, now);
            &&& writes[0] == (Write::UpsertBatch { id, now })
            &&& forall|i: int|
                0 <= i < nodes.len() ==> #[trigger] writes[i + 1] == (Write::UpsertNode {
                    node: nodes[i],
                })
            &&& writes.skip(1 + nodes.len() as int) == batch_edge_writes(edges, single_value, now)
            &&& batch_node_writes(id, nodes, now) == writes.take(1 + nodes.len() as int)
        }),
{
    let writes = batch_writes(id, nodes, edges, single_value, now);
    assert(batch_node_writes(id, nodes, now).len() == nodes.len() + 1);
    assert(writes.skip(1 + nodes.len() as int) =~= batch_edge_writes(edges, single_value, now));
    assert(writes.take(1 + nodes.len() as int) =~= batch_node_writes(id, nodes, now));
}

/// The rows of a batch carry the columns of its nodes and edges.
pub proof fn law_batch_rows(nodes: Seq<MemoryNode>, edges: Seq<MemoryEdge>, i: int)
    ensures
        node_rows(nodes).len() == nodes.len(),
        batch_edge_rows(edges).len() == edges.len(),
        0 <= i < nodes.len() ==> node_rows(nodes)[i] == (NodeRow {
            id: nodes[i].id@,
            kind: nodes[i].node_type.column(),
            name: nodes[i].name@,
            created_at: nodes[i].created_at,
            updated_at: nodes[i].updated_at,
            properties: opt_text(nodes[i].properties),
        }),
        0 <= i < edges.len() ==> batch_edge_rows(edges)[i] == (EdgeRow {
            source: edges[i].source_id@,
            target: edges[i].target_id@,
            relationship: edges[i].relationship_name@,
            valid_at: edges[i].valid_at,
            invalid_at: edges[i].invalid_at,
            text: edges[i].edge_text@,
            created_at: edges[i].created_at,
            updated_at: edges[i].updated_at,
            properties: opt_text(edges[i].properties),
        }),
{
}

/// The rows of a snapshot carry the columns of its node and edges, and a natural key its
/// own four.
pub proof fn law_snapshot_columns(
    node: MergeSnapshotNode,
    edge: MergeSnapshotEdge,
    created: MergeSnapshotEdgeKey,
    id: EdgeId,
)
    ensures
        node@ == (NodeRow {
            id: node.id@,
            kind: node.kind@,
            name: node.name@,
            created_at: node.created_at,
            updated_at: node.updated_at,
            properties: opt_text(node.properties),
        }),
        edge@ == (EdgeRow {
            source: edge.source_id@,
            target: edge.target_id@,
            relationship: edge.relationship_name@,
            valid_at: edge.valid_at,
            invalid_at: edge.invalid_at,
            text: edge.edge_text@,
            created_at: edge.created_at,
            updated_at: edge.updated_at,
            properties: opt_text(edge.properties),
        }),
        edge@.key() == (EdgeKey {
            source: edge.source_id@,
            relationship: edge.relationship_name@,
            target: edge.target_id@,
            valid_at: edge.valid_at.unix_nanos(),
        }),
        created@ == (EdgeKey {
            source: created.source_id@,
            relationship: created.relationship_name@,
            target: created.target_id@,
            valid_at: created.valid_at.unix_nanos(),
        }),
        id@ == (EdgeKey {
            source: id.source_id@,
            relationship: id.relationship_name@,
            target: id.target_id@,
            valid_at: id.valid_at.unix_nanos(),
        }),
{
}

/// Each write stands for itself: the model sees the same operation on the same values.
pub proof fn law_writes_as_the_model_sees_them(
    node: MergeSnapshotNode,
    edge: MergeSnapshotEdge,
    created: MergeSnapshotEdgeKey,
    new_node: MemoryNode,
    new_edge: MemoryEdge,
    key: EdgeId,
    a_id: String,
    b_id: String,
    edge_text: String,
    invalid_at: Option<Timestamp>,
    now: Timestamp,
)
    ensures
        GraphWrite::CreateNode(node)@ == (Write::CreateNode { node: node@ }),
        GraphWrite::CreateEdge(edge)@ == (Write::CreateEdge { edge: edge@ }),
        GraphWrite::DeleteEdge(created)@ == (Write::DeleteEdge { key: created@ }),
        GraphWrite::DetachDeleteNode(a_id)@ == (Write::DetachDeleteNode { id: a_id@ }),
        (GraphWrite::SetInvalidAt { key, invalid_at, updated_at: now })@ == (Write::SetInvalidAt {
            key: key@,
            invalid_at,
            updated_at: now,
        }),
        (GraphWrite::UpsertBatch { id: a_id, now })@ == (Write::UpsertBatch { id: a_id@, now }),
        GraphWrite::UpsertNode(new_node)@ == (Write::UpsertNode { node: new_node@ }),
        GraphWrite::UpsertEdge(new_edge)@ == (Write::UpsertEdge { edge: new_edge@ }),
        (GraphWrite::InvalidateSiblings { key, now })@ == (Write::InvalidateSiblings {
            key: key@,
            now,
        }),
        (GraphWrite::LinkAlsoKnownAs { a_id, b_id, edge_text, now })@ == (Write::LinkAlsoKnownAs {
            a: a_id@,
            b: b_id@,
            text: edge_text@,
            now,
        }),
{
}

/// The writes of a list are its own, one for one.
pub proof fn law_writes_of_a_list(writes: Seq<GraphWrite>)
    ensures
        writes_of(writes).len() == writes.len(),
        forall|i: int| 0 <= i < writes.len() ==> #[trigger] writes_of(writes)[i] == writes[i]@,
{
}

// ----- what a write leaves -----

/// An upserted edge has the columns of the edge, but for the times and the properties of
/// an edge that was there: it keeps its creation time, and its properties where the new
/// edge has none. Without both nodes nothing is written.
pub proof fn law_upserted_edge(g: Graph, edge: EdgeRow)
    requires
        g.well_formed(),
    ensures
        ({
            let h = g.after(Write::UpsertEdge { edge });
            let key = edge.key();
            let joined = g.nodes.contains_key(edge.source) && g.nodes.contains_key(edge.target);
            &&& h.nodes == g.nodes
            &&& !joined ==> h == g
            &&& joined ==> h.edges.contains_key(key) && h.edges[key].text == edge.text
                && h.edges[key].invalid_at == edge.invalid_at && h.edges[key].updated_at
                == edge.updated_at && h.edges[key].source == edge.source && h.edges[key].target
                == edge.target && h.edges[key].relationship == edge.relationship
            &&& joined && !g.edges.contains_key(key) ==> h.edges[key] == edge
            &&& joined && g.edges.contains_key(key) ==> h.edges[key].created_at
                == g.edges[key].created_at && (edge.properties is Some ==> h.edges[key].properties
                == edge.properties) && (edge.properties is None ==> h.edges[key].properties
                == g.edges[key].properties)
            &&& forall|k: EdgeKey|
                k != key ==> (#[trigger] h.edges.contains_key(k) <==> g.edges.contains_key(k))
            &&& forall|k: EdgeKey|
                k != key && #[trigger] g.edges.contains_key(k) ==> h.edges[k] == g.edges[k]
        }),
{
}

/// An upserted node has the name, the time and the properties of the node; one that was
/// there keeps its type, its creation time, and its properties where the new node has
/// none. The skeleton node of a batch is named by its identifier.
pub proof fn law_upserted_node(g: Graph, node: NodeRow, id: Seq<char>, now: Timestamp)
    requires
        g.well_formed(),
    ensures
        ({
            let h = g.after(Write::UpsertNode { node });
            let b = g.after(Write::UpsertBatch { id, now });
            &&& h.edges == g.edges && b.edges == g.edges
            &&& h.nodes.contains_key(node.id)
            &&& h.nodes[node.id].name == node.name && h.nodes[node.id].updated_at
                == node.updated_at && h.nodes[node.id].id == node.id
            &&& !g.nodes.contains_key(node.id) ==> h.nodes[node.id] == node
            &&& g.nodes.contains_key(node.id) ==> h.nodes[node.id].kind == g.nodes[node.id].kind
                && h.nodes[node.id].created_at == g.nodes[node.id].created_at && (
            node.properties is Some ==> h.nodes[node.id].properties == node.properties) && (
            node.properties is None ==> h.nodes[node.id].properties
                == g.nodes[node.id].properties)
            &&& forall|n: Seq<char>|
                n != node.id && #[trigger] g.nodes.contains_key(n) ==> h.nodes[n] == g.nodes[n]
            &&& b.nodes[id].updated_at == now && b.nodes[id].id == id
            &&& !g.nodes.contains_key(id) ==> b.nodes[id] == (NodeRow {
                id,
                kind: "MessageBatch"@,
                name: id,
                created_at: now,
                updated_at: now,
                properties: None,
            })
            &&& g.nodes.contains_key(id) ==> b.nodes[id] == (NodeRow {
                updated_at: now,
                ..g.nodes[id]
            })
        }),
{
}

/// Invalidating siblings ends every valid edge of the subject and relationship but the
/// one to the target at the instant, and touches no other edge.
pub proof fn law_siblings_end(g: Graph, key: EdgeKey, now: Timestamp, k: EdgeKey)
    requires
        g.edges.contains_key(k),
    ensures
        ({
            let h = g.after(Write::InvalidateSiblings { key, now });
            let sibling = k.source == key.source && k.relationship == key.relationship && !(k.target
                == key.target && k.valid_at == key.valid_at);
            &&& is_sibling(k, key) == sibling
            &&& h.edges.contains_key(k)
            &&& sibling && g.edges[k].invalid_at is None ==> h.edges[k] == (EdgeRow {
                invalid_at: Some(now),
                updated_at: now,
                ..g.edges[k]
            })
            &&& !sibling || g.edges[k].invalid_at is Some ==> h.edges[k] == g.edges[k]
        }),
{
}

/// A value that is there wins over the old one.
pub proof fn law_new_values_win(new: Seq<char>, old_value: Option<Seq<char>>)
    ensures
        coalesce(Some(new), old_value) == Some(new),
        coalesce(None, old_value) == old_value,
{
}

// ----- changes by hand -----

/// Invalidating is done where an end is set and sets it to now; re-validating is done
/// where none is and takes it away.
pub proof fn law_toggles(now: Timestamp, invalid_at: Option<Timestamp>)
    ensures
        Toggle::Invalidate.is_done(invalid_at) <==> invalid_at is Some,
        Toggle::Revalidate.is_done(invalid_at) <==> invalid_at is None,
        Toggle::Invalidate.sets(now) == Some(now),
        Toggle::Revalidate.sets(now) == None::<Timestamp>,
        Toggle::Invalidate.name() == "invalidate_edge"@,
        Toggle::Revalidate.name() == "revalidate_edge"@,
{
}

/// Each message names the node that it is about.
pub proof fn law_messages_name_the_node(id: Seq<char>, alias: Seq<char>)
    ensures
        bad_node_row(id) == "merge snapshot: unexpected node row shape for "@ + id,
        bad_edge_row(id) == "merge snapshot: unexpected edge row shape for node "@ + id,
        loser_missing(id) == "merge_nodes: loser node "@ + id
            + " does not exist (re-merging a tombstoned loser is a loud error)"@,
        survivor_missing(id) == "merge_nodes: survivor node "@ + id + " does not exist"@,
        survivor_gone(id) == "rollback_merge: survivor "@ + id
            + " no longer exists; chained-merge rollback is out of scope"@,
        loser_exists(id) == "rollback_merge: loser node "@ + id
            + " still exists; the merge did not happen or was already rolled back"@,
        self_link(id) == "link_also_known_as: a self-link on "@ + id + " is meaningless"@,
        link_missing(id) == "link_also_known_as: node "@ + id + " does not exist"@,
        target_missing(id, alias) == "node_facts: alias target "@ + id + " of alias "@ + alias
            + " does not exist"@,
{
}

/// The message of an error starts with its kind and ends with its detail.
pub proof fn law_error_messages(detail: String)
    ensures
        MemoryError::Io(detail).text() == "io error: "@ + detail@,
        MemoryError::Backend(detail).text() == "backend error: "@ + detail@,
        MemoryError::InvalidChatId(detail).text() == "invalid chat_id: "@ + detail@,
        forall|text: Seq<char>| #[trigger]
            MemoryError::Backend(detail).is_backend(text) <==> text == detail@,
{
}

/// The node types have the names of their variants in the database.
pub proof fn law_type_columns(text: Seq<char>, kind: NodeType)
    ensures
        NodeType::of_column(text) == Some(kind) <==> text == kind.column(),
        NodeType::Person.column() == "Person"@,
        NodeType::Alias.column() == "Alias"@,
        NodeType::Concept.column() == "Concept"@,
        NodeType::MessageBatch.column() == "MessageBatch"@,
{
    kind.law_column_reads_back();
}

} // verus!
