//! Which parameter of a statement carries which value.

use crate::memory::cypher::{
    ARE_LINKED, CREATE_EDGE, CREATE_NODE, DELETE_EDGE, DETACH_DELETE_NODE, GraphWrite,
    INVALIDATE_SIBLINGS, LINK_ALSO_KNOWN_AS, MERGE_BATCH, MERGE_EDGE, MERGE_NODE,
    SET_EDGE_INVALID_AT, TWO_HOP_EDGES, VALID_OUTGOING_EDGES, are_linked_request, entry_request,
    expansion_request, keyed_request, node_list_request, valid_outgoing_request,
};
use crate::memory::types::{
    EdgeId, MemoryEdge, MemoryNode, MergeSnapshotEdge, MergeSnapshotEdgeKey, MergeSnapshotNode,
};
use crate::memory::value::{
    GraphParam, GraphValue, LogicalType, Parameter, Query, Request, Value, optional_text, optional_time, text_param, time_param,
};
use crate::text::{nat_text, texts};
use crate::timestamp::Timestamp;
use vstd::prelude::*;

verus! {

/// Whether the request hands the text over under the name.
pub open spec fn gives_text(request: Request, name: Seq<char>, text: Seq<char>) -> bool {
    request.params.contains((name, Parameter::One(Value::Text(text))))
}

/// Whether the request hands the time over under the name.
pub open spec fn gives_time(request: Request, name: Seq<char>, time: Timestamp) -> bool {
    request.params.contains((name, Parameter::One(Value::Time(time))))
}

/// Whether the request hands the text over under the name, or NULL where there is none.
pub open spec fn gives_optional_text(
    request: Request,
    name: Seq<char>,
    text: Option<String>,
) -> bool {
    match text {
        Some(text) => gives_text(request, name, text@),
        None => request.params.contains(
            (name, Parameter::One(Value::Null(LogicalType::String))),
        ),
    }
}

/// Whether the request hands the time over under the name, or NULL where there is none.
pub open spec fn gives_optional_time(
    request: Request,
    name: Seq<char>,
    time: Option<Timestamp>,
) -> bool {
    match time {
        Some(time) => gives_time(request, name, time),
        None => request.params.contains(
            (name, Parameter::One(Value::Null(LogicalType::Timestamp))),
        ),
    }
}

/// Whether the request hands over the four columns of a natural key, each under its name.
pub open spec fn gives_key(
    request: Request,
    source: Seq<char>,
    relationship: Seq<char>,
    target: Seq<char>,
    valid_at: Timestamp,
) -> bool {
    &&& gives_text(request, "source_id"@, source)
    &&& gives_text(request, "rel"@, relationship)
    &&& gives_text(request, "target_id"@, target)
    &&& gives_time(request, "valid_at"@, valid_at)
}

/// A parameter is the value it is made from, and NULL where there is none.
pub proof fn law_parameters(text: Seq<char>, time: Timestamp)
    ensures
        text_param(text) == Parameter::One(Value::Text(text)),
        time_param(time) == Parameter::One(Value::Time(time)),
        optional_text(Some(text)) == Value::Text(text),
        optional_text(None) == Value::Null(LogicalType::String),
        optional_time(Some(time)) == Value::Time(time),
        optional_time(None) == Value::Null(LogicalType::Timestamp),
{
}

/// The model sees a query with its statement and its parameters, one for one.
pub proof fn law_queries(query: Query, i: int, value: GraphValue, list: Vec<String>)
    ensures
        query@.cypher == query.cypher@,
        query@.params.len() == query.params@.len(),
        0 <= i < query.params@.len() ==> query@.params[i] == (
            query.params@[i].0@,
            query.params@[i].1@,
        ),
        GraphParam::One(value)@ == Parameter::One(value@),
        GraphParam::List(list)@ == Parameter::List(texts(list@)),
{
}

/// Creating a stored node hands over each of its columns under its own name.
pub proof fn law_create_node(node: MergeSnapshotNode)
    ensures
        ({
            let request = GraphWrite::CreateNode(node).request();
            &&& request.cypher == CREATE_NODE@
            &&& request.params.len() == 6
            &&& gives_text(request, "id"@, node.id@)
            &&& gives_text(request, "name"@, node.name@)
            &&& gives_text(request, "type"@, node.kind@)
            &&& gives_time(request, "created_at"@, node.created_at)
            &&& gives_time(request, "updated_at"@, node.updated_at)
            &&& gives_optional_text(request, "properties"@, node.properties)
        }),
{
    let params = GraphWrite::CreateNode(node).request().params;
    let columns = (params[0], params[1], params[2], params[3], params[4], params[5]);
}

/// Creating a stored edge hands over each of its columns under its own name.
pub proof fn law_create_edge(edge: MergeSnapshotEdge)
    ensures
        ({
            let request = GraphWrite::CreateEdge(edge).request();
            &&& request.cypher == CREATE_EDGE@
            &&& request.params.len() == 9
            &&& gives_key(
                request,
                edge.source_id@,
                edge.relationship_name@,
                edge.target_id@,
                edge.valid_at,
            )
            &&& gives_optional_time(request, "invalid_at"@, edge.invalid_at)
            &&& gives_text(request, "edge_text"@, edge.edge_text@)
            &&& gives_time(request, "created_at"@, edge.created_at)
            &&& gives_time(request, "updated_at"@, edge.updated_at)
            &&& gives_optional_text(request, "properties"@, edge.properties)
        }),
{
    let params = GraphWrite::CreateEdge(edge).request().params;
    let first = (params[0], params[1], params[2], params[3], params[4]);
    let second = (params[5], params[6], params[7], params[8]);
}

/// Upserting a node hands over each of its columns under its own name.
pub proof fn law_upsert_node(node: MemoryNode)
    ensures
        ({
            let request = GraphWrite::UpsertNode(node).request();
            &&& request.cypher == MERGE_NODE@
            &&& request.params.len() == 6
            &&& gives_text(request, "id"@, node.id@)
            &&& gives_text(request, "name"@, node.name@)
            &&& gives_text(request, "type"@, node.node_type.column())
            &&& gives_time(request, "created_at"@, node.created_at)
            &&& gives_time(request, "updated_at"@, node.updated_at)
            &&& gives_optional_text(request, "properties"@, node.properties)
        }),
{
    let params = GraphWrite::UpsertNode(node).request().params;
    let columns = (params[0], params[1], params[2], params[3], params[4], params[5]);
}

/// Upserting an edge hands over each of its columns under its own name.
pub proof fn law_upsert_edge(edge: MemoryEdge)
    ensures
        ({
            let request = GraphWrite::UpsertEdge(edge).request();
            &&& request.cypher == MERGE_EDGE@
            &&& request.params.len() == 9
            &&& gives_key(
                request,
                edge.source_id@,
                edge.relationship_name@,
                edge.target_id@,
                edge.valid_at,
            )
            &&& gives_optional_time(request, "invalid_at"@, edge.invalid_at)
            &&& gives_text(request, "edge_text"@, edge.edge_text@)
            &&& gives_time(request, "created_at"@, edge.created_at)
            &&& gives_time(request, "updated_at"@, edge.updated_at)
            &&& gives_optional_text(request, "properties"@, edge.properties)
        }),
{
    let params = GraphWrite::UpsertEdge(edge).request().params;
    let first = (params[0], params[1], params[2], params[3], params[4]);
    let second = (params[5], params[6], params[7], params[8]);
}

/// The writes that address an edge hand over its natural key; a change of its validity
/// hands over the new one and the time of the change besides.
pub proof fn law_keyed_writes(
    created: MergeSnapshotEdgeKey,
    key: EdgeId,
    invalid_at: Option<Timestamp>,
    updated_at: Timestamp,
)
    ensures
        ({
            let delete = GraphWrite::DeleteEdge(created).request();
            let set = GraphWrite::SetInvalidAt { key, invalid_at, updated_at }.request();
            &&& delete.cypher == DELETE_EDGE@
            &&& delete.params.len() == 4
            &&& gives_key(
                delete,
                created.source_id@,
                created.relationship_name@,
                created.target_id@,
                created.valid_at,
            )
            &&& set.cypher == SET_EDGE_INVALID_AT@
            &&& set.params.len() == 6
            &&& gives_key(
                set,
                key.source_id@,
                key.relationship_name@,
                key.target_id@,
                key.valid_at,
            )
            &&& gives_optional_time(set, "invalid_at"@, invalid_at)
            &&& gives_time(set, "updated_at"@, updated_at)
        }),
{
    let delete = GraphWrite::DeleteEdge(created).request().params;
    let set = GraphWrite::SetInvalidAt { key, invalid_at, updated_at }.request().params;
    let first = (delete[0], delete[1], delete[2], delete[3]);
    let second = (set[0], set[1], set[2], set[3], set[4], set[5]);
}

/// Invalidating siblings hands over the subject, the relationship, the edge to spare and
/// the time. A link hands over both nodes, the text and the time, a batch its identifier
/// and the time, and a deletion the node.
pub proof fn law_other_writes(
    key: EdgeId,
    a_id: String,
    b_id: String,
    edge_text: String,
    now: Timestamp,
)
    ensures
        ({
            let siblings = GraphWrite::InvalidateSiblings { key, now }.request();
            let link = GraphWrite::LinkAlsoKnownAs { a_id, b_id, edge_text, now }.request();
            let batch = GraphWrite::UpsertBatch { id: a_id, now }.request();
            let delete = GraphWrite::DetachDeleteNode(a_id).request();
            &&& siblings.cypher == INVALIDATE_SIBLINGS@
            &&& siblings.params.len() == 5
            &&& gives_text(siblings, "subject_id"@, key.source_id@)
            &&& gives_text(siblings, "rel"@, key.relationship_name@)
            &&& gives_text(siblings, "target_id"@, key.target_id@)
            &&& gives_time(siblings, "valid_at"@, key.valid_at)
            &&& gives_time(siblings, "now"@, now)
            &&& link.cypher == LINK_ALSO_KNOWN_AS@
            &&& link.params.len() == 4
            &&& gives_text(link, "a_id"@, a_id@)
            &&& gives_text(link, "b_id"@, b_id@)
            &&& gives_text(link, "edge_text"@, edge_text@)
            &&& gives_time(link, "now"@, now)
            &&& batch.cypher == MERGE_BATCH@
            &&& batch.params.len() == 2
            &&& gives_text(batch, "id"@, a_id@)
            &&& gives_time(batch, "now"@, now)
            &&& delete.cypher == DETACH_DELETE_NODE@
            &&& delete.params.len() == 1
            &&& gives_text(delete, "node_id"@, a_id@)
        }),
{
    let siblings = GraphWrite::InvalidateSiblings { key, now }.request().params;
    let link = GraphWrite::LinkAlsoKnownAs { a_id, b_id, edge_text, now }.request().params;
    let batch = GraphWrite::UpsertBatch { id: a_id, now }.request().params;
    let delete = GraphWrite::DetachDeleteNode(a_id).request().params;
    let first = (siblings[0], siblings[1], siblings[2], siblings[3], siblings[4]);
    let second = (link[0], link[1], link[2], link[3]);
    let third = (batch[0], batch[1], delete[0]);
}

/// The reads hand over what they look for under its own name, and keep their statement.
pub proof fn law_reads(
    cypher: Seq<char>,
    name: Seq<char>,
    a: Seq<char>,
    b: Seq<char>,
    relationship: Seq<char>,
    time: Timestamp,
    ids: Seq<Seq<char>>,
    limit: nat,
)
    ensures
        ({
            let keyed = keyed_request(cypher, a, b, relationship, time);
            let entry = entry_request(cypher, name, a);
            let expansion = expansion_request(a, time, limit);
            let linked = are_linked_request(a, b);
            let outgoing = valid_outgoing_request(a, relationship);
            &&& keyed.cypher == cypher
            &&& keyed.params.len() == 4
            &&& gives_key(keyed, a, relationship, b, time)
            &&& entry == (Request { cypher, params: seq![(name, Parameter::One(Value::Text(a)))] })
            &&& expansion.cypher == TWO_HOP_EDGES@ + nat_text(limit)
            &&& expansion.params.len() == 2
            &&& gives_text(expansion, "node_id"@, a)
            &&& gives_time(expansion, "cutoff"@, time)
            &&& node_list_request(cypher, ids) == (Request {
                cypher,
                params: seq![("node_ids"@, Parameter::List(ids))],
            })
            &&& linked.cypher == ARE_LINKED@
            &&& linked.params.len() == 2
            &&& gives_text(linked, "a_id"@, a)
            &&& gives_text(linked, "b_id"@, b)
            &&& outgoing.cypher == VALID_OUTGOING_EDGES@
            &&& outgoing.params.len() == 2
            &&& gives_text(outgoing, "subject_id"@, a)
            &&& gives_text(outgoing, "rel"@, relationship)
        }),
{
    let keyed = keyed_request(cypher, a, b, relationship, time).params;
    let expansion = expansion_request(a, time, limit).params;
    let linked = are_linked_request(a, b).params;
    let outgoing = valid_outgoing_request(a, relationship).params;
    let first = (keyed[0], keyed[1], keyed[2], keyed[3]);
    let second = (expansion[0], expansion[1], linked[0], linked[1]);
    let third = (outgoing[0], outgoing[1]);
}

} // verus!
