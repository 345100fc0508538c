//! Writing one batch of nodes and edges.

use crate::memory::cypher::{GraphWrite, writes_of};
use crate::memory::graph::{EdgeRow, NodeRow, Write};
use crate::memory::types::{EdgeId, MemoryBatch, MemoryEdge, MemoryNode};
use crate::sequence::{lemma_total_grows, total};
use crate::text::texts;
use crate::timestamp::Timestamp;
use vstd::prelude::*;

verus! {

/// The node rows of a batch.
pub open spec fn node_rows(nodes: Seq<MemoryNode>) -> Seq<NodeRow> {
    nodes.map_values(|node: MemoryNode| node@)
}

/// The edge rows of a batch.
pub open spec fn batch_edge_rows(edges: Seq<MemoryEdge>) -> Seq<EdgeRow> {
    edges.map_values(|edge: MemoryEdge| edge@)
}

/// The writes for the edges of a batch, in order: an edge whose relationship holds
/// a single value first invalidates its siblings.
pub open spec fn batch_edge_writes(
    edges: Seq<EdgeRow>,
    single_value: Seq<Seq<char>>,
    now: Timestamp,
) -> Seq<Write>
    decreases edges.len(),
{
    if edges.len() == 0 {
        Seq::empty()
    } else {
        let edge = edges.last();
        let before = batch_edge_writes(edges.drop_last(), single_value, now);
        if single_value.contains(edge.relationship) {
            before.push(Write::InvalidateSiblings { key: edge.key(), now }).push(
                Write::UpsertEdge { edge },
            )
        } else {
            before.push(Write::UpsertEdge { edge })
        }
    }
}

/// The writes for the skeleton node and the nodes of a batch.
pub open spec fn batch_node_writes(id: Seq<char>, nodes: Seq<NodeRow>, now: Timestamp) -> Seq<
    Write,
> {
    seq![Write::UpsertBatch { id, now }] + nodes.map_values(
        |node: NodeRow| Write::UpsertNode { node },
    )
}

/// Every write of a batch: the skeleton node, the nodes, then the edges.
pub open spec fn batch_writes(
    id: Seq<char>,
    nodes: Seq<NodeRow>,
    edges: Seq<EdgeRow>,
    single_value: Seq<Seq<char>>,
    now: Timestamp,
) -> Seq<Write> {
    batch_node_writes(id, nodes, now) + batch_edge_writes(edges, single_value, now)
}

/// Whether the text is one of the list.
pub fn contains_name(list: &Vec<String>, name: &String) -> (r: bool)
    ensures
        r == texts(list@).contains(name@),
{
    let mut i: usize = 0;
    while i < list.len()
        invariant
            i <= list@.len(),
            forall|k: int| 0 <= k < i ==> (#[trigger] list@[k])@ != name@,
        decreases list@.len() - i,
    {
        if list[i] == *name {
            assert(texts(list@)[i as int] == name@);
            return true;
        }
        i += 1;
    }
    proof {
        if texts(list@).contains(name@) {
            let k = choose|k: int| 0 <= k < texts(list@).len() && texts(list@)[k] == name@;
            assert(list@[k]@ == name@);
        }
    }
    false
}

fn sibling_key(edge: &MemoryEdge) -> (r: EdgeId)
    ensures
        r@ == edge@.key(),
{
    EdgeId {
        source_id: edge.source_id.clone(),
        relationship_name: edge.relationship_name.clone(),
        target_id: edge.target_id.clone(),
        valid_at: edge.valid_at,
    }
}

/// The writes of one batch, in the order of one transaction. With an empty list of
/// single-value relationships nothing is invalidated.
pub fn write_batch(batch: MemoryBatch, single_value_predicates: &Vec<String>, now: Timestamp) -> (r:
    Vec<GraphWrite>)
    ensures
        writes_of(r@) == batch_writes(
            batch.batch_id@,
            node_rows(batch.nodes@),
            batch_edge_rows(batch.edges@),
            texts(single_value_predicates@),
            now,
        ),
{
    let MemoryBatch { batch_id, nodes, edges } = batch;
    let ghost id = batch_id@;
    let ghost nodes0 = nodes@;
    let ghost edges0 = edges@;
    let ghost single_value = texts(single_value_predicates@);
    let ghost head = seq![Write::UpsertBatch { id, now }];
    let ghost upserts = node_rows(nodes0).map_values(|node: NodeRow| Write::UpsertNode { node });
    let mut writes: Vec<GraphWrite> = Vec::new();
    writes.push(GraphWrite::UpsertBatch { id: batch_id, now });
    assert(writes_of(writes@) =~= head + upserts.take(0));
    for node in it: nodes
        invariant
            it.seq() == nodes0,
            upserts == node_rows(nodes0).map_values(|node: NodeRow| Write::UpsertNode { node }),
            writes_of(writes@) == head + upserts.take(it.index() as int),
    {
        let ghost before = writes@;
        writes.push(GraphWrite::UpsertNode(node));
        assert(writes_of(writes@) =~= writes_of(before).push(Write::UpsertNode { node: node@ }));
        assert(upserts[it.index() as int] == Write::UpsertNode { node: node@ });
        assert(upserts.take(it.index() + 1) =~= upserts.take(it.index() as int).push(
            upserts[it.index() as int],
        ));
    }
    assert(upserts.take(upserts.len() as int) =~= upserts);
    let ghost front = head + upserts;
    let ghost rows = batch_edge_rows(edges0);
    assert(writes_of(writes@) =~= front + batch_edge_writes(rows.take(0), single_value, now));
    for edge in it: edges
        invariant
            it.seq() == edges0,
            rows == batch_edge_rows(edges0),
            single_value == texts(single_value_predicates@),
            writes_of(writes@) == front + batch_edge_writes(
                rows.take(it.index() as int),
                single_value,
                now,
            ),
    {
        let ghost before = writes@;
        proof {
            let n = it.index() as int;
            assert(rows[n] == edge@);
            assert(rows.take(n + 1).drop_last() =~= rows.take(n));
        }
        if contains_name(single_value_predicates, &edge.relationship_name) {
            writes.push(GraphWrite::InvalidateSiblings { key: sibling_key(&edge), now });
            assert(writes_of(writes@) =~= writes_of(before).push(
                Write::InvalidateSiblings { key: edge@.key(), now },
            ));
        }
        let ghost middle = writes@;
        writes.push(GraphWrite::UpsertEdge(edge));
        assert(writes_of(writes@) =~= writes_of(middle).push(Write::UpsertEdge { edge: edge@ }));
        assert(writes_of(writes@) =~= front + batch_edge_writes(
            rows.take(it.index() + 1),
            single_value,
            now,
        ));
    }
    assert(rows.take(rows.len() as int) =~= rows);
    writes
}

/// The number of edges that a batch invalidated, from the counts of its sibling
/// invalidations; `None` where it does not fit in 32 bits.
pub fn total_invalidated(counts: &Vec<u32>) -> (r: Option<u32>)
    ensures
        match r {
            Some(sum) => sum == total(counts@.map_values(|n: u32| n as nat)),
            None => total(counts@.map_values(|n: u32| n as nat)) > u32::MAX,
        },
{
    let ghost values = counts@.map_values(|n: u32| n as nat);
    let mut sum: u32 = 0;
    let mut i: usize = 0;
    assert(values.take(0) =~= Seq::<nat>::empty());
    while i < counts.len()
        invariant
            i <= counts@.len(),
            values == counts@.map_values(|n: u32| n as nat),
            sum == total(values.take(i as int)),
        decreases counts@.len() - i,
    {
        proof {
            assert(values.take(i + 1).drop_last() =~= values.take(i as int));
            assert(values.take(i + 1).last() == counts@[i as int]);
        }
        match sum.checked_add(counts[i]) {
            Some(next) => {
                sum = next;
            },
            None => {
                proof {
                    lemma_total_grows(values, i + 1);
                }
                return None;
            },
        }
        i += 1;
    }
    assert(values.take(i as int) =~= values);
    Some(sum)
}

} // verus!
