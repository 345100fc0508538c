//! The statements of the graph database, word for word: a graph that was written by them
//! is read by them, and only while the words agree.

use crate::memory::cypher::{
    ALIAS_TARGETS, ARE_LINKED, CREATE_EDGE, CREATE_NODE, DDL_EDGE, DDL_NODE, DELETE_EDGE,
    DETACH_DELETE_NODE, EDGE_BY_KEY_HYDRATE, FIND_EDGE_BY_KEY, INVALIDATE_SIBLINGS,
    LINK_ALSO_KNOWN_AS, LIST_ALL_EDGES, LIST_NODE_CONTENTS, MERGE_BATCH, MERGE_EDGE, MERGE_NODE,
    NEIGHBORS, NODE_CONTENT, NODE_FACTS_EDGES, NODE_MERGE_STATS, NODE_RESOLUTION_INFOS,
    SET_EDGE_INVALID_AT, SNAPSHOT_EDGES, SNAPSHOT_NODE, TWO_HOP_EDGES, VALID_OUTGOING_EDGES,
};
use vstd::prelude::*;

verus! {

/// The tables of the graph database.
pub proof fn law_schema()
    ensures
        DDL_NODE@ == "CREATE NODE TABLE IF NOT EXISTS Node(
    id STRING PRIMARY KEY,
    name STRING,
    type STRING,
    created_at TIMESTAMP,
    updated_at TIMESTAMP,
    properties STRING
)"@,
        DDL_EDGE@ == "CREATE REL TABLE IF NOT EXISTS EDGE(
    FROM Node TO Node,
    relationship_name STRING,
    valid_at TIMESTAMP,
    invalid_at TIMESTAMP,
    edge_text STRING,
    created_at TIMESTAMP,
    updated_at TIMESTAMP,
    properties STRING
)"@,
{
}

/// An upsert creates its row with all columns, and refreshes the others of a row that is
/// there: its key, its creation time and the type of a node stay, and so do properties
/// where there are no new ones.
pub proof fn law_upserts()
    ensures
        MERGE_BATCH@ == "MERGE (b:Node {id: $id})
ON CREATE SET b.name = $id, b.type = 'MessageBatch', b.created_at = $now, b.updated_at = $now
ON MATCH SET b.updated_at = $now"@,
        MERGE_NODE@ == "MERGE (n:Node {id: $id})
ON CREATE SET n.name = $name, n.type = $type, n.created_at = $created_at, n.updated_at = $updated_at, n.properties = $properties
ON MATCH SET n.name = $name, n.updated_at = $updated_at, n.properties = coalesce($properties, n.properties)"@,
        MERGE_EDGE@ == "MATCH (s:Node {id: $source_id}), (t:Node {id: $target_id})
MERGE (s)-[r:EDGE {relationship_name: $rel, valid_at: $valid_at}]->(t)
ON CREATE SET r.edge_text = $edge_text, r.invalid_at = $invalid_at, r.created_at = $created_at, r.updated_at = $updated_at, r.properties = $properties
ON MATCH SET r.edge_text = $edge_text, r.invalid_at = $invalid_at, r.updated_at = $updated_at, r.properties = coalesce($properties, r.properties)"@,
{
}

/// A stored row is created and deleted as it is: with every column, and by its whole key.
pub proof fn law_stored_rows()
    ensures
        CREATE_NODE@ == "CREATE (n:Node {id: $id, name: $name, type: $type, created_at: $created_at, updated_at: $updated_at, properties: $properties})"@,
        CREATE_EDGE@ == "MATCH (s:Node {id: $source_id}), (t:Node {id: $target_id})
CREATE (s)-[:EDGE {relationship_name: $rel, valid_at: $valid_at, invalid_at: $invalid_at, edge_text: $edge_text, created_at: $created_at, updated_at: $updated_at, properties: $properties}]->(t)"@,
        DELETE_EDGE@ == "MATCH (s:Node {id: $source_id})-[r:EDGE]->(t:Node {id: $target_id})
WHERE r.relationship_name = $rel AND r.valid_at = $valid_at
DELETE r"@,
        DETACH_DELETE_NODE@ == "MATCH (n:Node {id: $node_id}) DETACH DELETE n"@,
{
}

/// A change of validity addresses one edge by its whole key; siblings end but for the
/// edge that is spared, and a link is made once.
pub proof fn law_validity_writes()
    ensures
        SET_EDGE_INVALID_AT@ == "MATCH (s:Node {id: $source_id})-[r:EDGE]->(t:Node {id: $target_id})
WHERE r.relationship_name = $rel AND r.valid_at = $valid_at
SET r.invalid_at = $invalid_at, r.updated_at = $updated_at"@,
        INVALIDATE_SIBLINGS@ == "MATCH (s:Node)-[r:EDGE]->(o:Node)
WHERE s.id = $subject_id AND r.relationship_name = $rel AND r.invalid_at IS NULL
  AND NOT (o.id = $target_id AND r.valid_at = $valid_at)
SET r.invalid_at = $now, r.updated_at = $now
RETURN count(r)"@,
        LINK_ALSO_KNOWN_AS@ == "MATCH (a:Node {id: $a_id}), (b:Node {id: $b_id})
MERGE (a)-[r:EDGE {relationship_name: 'also_known_as'}]->(b)
ON CREATE SET r.valid_at = $now, r.edge_text = $edge_text, r.created_at = $now, r.updated_at = $now"@,
{
}

/// A snapshot reads every column of a node and of its edges, valid or not, in the order in
/// which they are decoded.
pub proof fn law_snapshot_reads()
    ensures
        SNAPSHOT_NODE@ == "MATCH (n:Node {id: $node_id})
RETURN n.name, n.type, n.created_at, n.updated_at, n.properties"@,
        SNAPSHOT_EDGES@ == "MATCH (s:Node)-[r:EDGE]->(t:Node)
WHERE s.id = $node_id OR t.id = $node_id
RETURN s.id, t.id, r.relationship_name, r.valid_at, r.invalid_at, r.edge_text, r.created_at, r.updated_at, r.properties
ORDER BY r.created_at, s.id, t.id, r.relationship_name"@,
{
}

/// The reads of one edge address it by its whole key; only a valid edge is hydrated.
pub proof fn law_edge_reads()
    ensures
        FIND_EDGE_BY_KEY@ == "MATCH (s:Node {id: $source_id})-[r:EDGE]->(t:Node {id: $target_id})
WHERE r.relationship_name = $rel AND r.valid_at = $valid_at
RETURN r.invalid_at"@,
        EDGE_BY_KEY_HYDRATE@ == "MATCH (s:Node {id: $source_id})-[r:EDGE]->(t:Node {id: $target_id})
WHERE r.relationship_name = $rel AND r.valid_at = $valid_at
  AND r.invalid_at IS NULL
RETURN s.name, t.name, r.edge_text"@,
        VALID_OUTGOING_EDGES@ == "MATCH (s:Node {id: $subject_id})-[r:EDGE]->(o:Node)
WHERE r.relationship_name = $rel AND r.invalid_at IS NULL
RETURN o.id, r.valid_at"@,
{
}

/// Neighbors and candidates are valid edges, newest first, without those that tell where a
/// fact came from; facts are all edges.
pub proof fn law_neighbor_reads()
    ensures
        NEIGHBORS@ == "MATCH (s:Node)-[r:EDGE]->(t:Node)
WHERE (s.id = $node_id OR t.id = $node_id)
  AND r.invalid_at IS NULL
  AND r.relationship_name <> 'contains'
RETURN s.id, s.name, t.id, t.name, r.relationship_name, r.edge_text, r.valid_at, r.created_at
ORDER BY r.created_at DESC
LIMIT "@,
        TWO_HOP_EDGES@ == "MATCH (s:Node)-[r:EDGE]->(t:Node)
WHERE (s.id = $node_id OR t.id = $node_id)
  AND r.invalid_at IS NULL
  AND r.relationship_name <> 'contains'
  AND r.relationship_name <> 'known_as'
  AND (r.valid_at >= $cutoff OR r.created_at >= $cutoff)
RETURN s.id, s.name, t.id, t.name, r.relationship_name, r.edge_text, r.valid_at
ORDER BY r.created_at DESC
LIMIT "@,
        NODE_FACTS_EDGES@ == "MATCH (s:Node)-[r:EDGE]->(t:Node)
WHERE s.id = $node_id OR t.id = $node_id
RETURN s.id, s.name, t.id, t.name, r.relationship_name, r.edge_text, r.valid_at, r.invalid_at
ORDER BY r.valid_at DESC, r.relationship_name, t.id"@,
{
}

/// An alias is resolved through the edges of both alias relationships, whichever way they
/// run where two nodes are asked about.
pub proof fn law_resolution_reads()
    ensures
        ALIAS_TARGETS@ == "MATCH (s:Node)-[r:EDGE]->(a:Node {id: $alias_id})
WHERE r.relationship_name IN ['known_as', 'also_known_as']
RETURN s.id, s.type"@,
        NODE_RESOLUTION_INFOS@ == "MATCH (n:Node)
WHERE n.id IN $node_ids
OPTIONAL MATCH (s:Node)-[r:EDGE]->(n)
WHERE r.relationship_name IN ['known_as', 'also_known_as']
RETURN n.id, n.type, s.id
ORDER BY n.id, s.id"@,
        ARE_LINKED@ == "MATCH (a:Node)-[r:EDGE]->(b:Node)
WHERE ((a.id = $a_id AND b.id = $b_id) OR (a.id = $b_id AND b.id = $a_id))
  AND r.relationship_name IN ['known_as', 'also_known_as']
RETURN count(r)"@,
        NODE_MERGE_STATS@ == "MATCH (n:Node)
WHERE n.id IN $node_ids
OPTIONAL MATCH (n)-[r:EDGE]-()
RETURN n.id, n.created_at, count(DISTINCT r)
ORDER BY n.id"@,
{
}

/// A listing covers every node or every edge.
pub proof fn law_listings()
    ensures
        NODE_CONTENT@ == "MATCH (n:Node {id: $node_id})
RETURN n.name, n.properties"@,
        LIST_NODE_CONTENTS@ == "MATCH (n:Node)
RETURN n.id, n.name, n.properties"@,
        LIST_ALL_EDGES@ == "MATCH (s:Node)-[r:EDGE]->(t:Node)
RETURN s.id, r.relationship_name, t.id, r.valid_at, r.edge_text"@,
{
}

} // verus!
