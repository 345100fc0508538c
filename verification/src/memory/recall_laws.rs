//! What a two-hop expansion finds, whatever order its reads come in.

use crate::memory::edge_id::{DecodedEdgeId, decoding, edge_id_text, is_decoded};
use crate::memory::recall::{Expansion, are_decoded, hydrated, hydration};
use crate::memory::rows::CandidateRow;
use crate::memory::types::EdgeId;
use crate::memory::value::Value;
use crate::timestamp::moment_text;
use vstd::prelude::*;

verus! {

/// Taking in the edges of a node keeps what was queued and found before, in its order.
/// On the first hop both endpoints of each edge of the queried node are queued after
/// it, and no other node is; on the second hop none is. Each edge is found, under its
/// identifier, and nothing else is.
pub proof fn law_both_ends_are_queued(
    expansion: Expansion,
    node: Seq<char>,
    edges: Seq<CandidateRow>,
    first_hop: bool,
)
    requires
        expansion.queue.contains(node),
    ensures
        ({
            let after = expansion.with_edges(node, edges, first_hop);
            &&& expansion.queue.is_prefix_of(after.queue)
            &&& expansion.candidates.is_prefix_of(after.candidates)
            &&& first_hop ==> forall|i: int|
                0 <= i < edges.len() && ((#[trigger] edges[i]).source == node || edges[i].target
                    == node) ==> after.queue.contains(edges[i].source) && after.queue.contains(
                    edges[i].target,
                )
            &&& !first_hop ==> after.queue == expansion.queue
            &&& forall|n: Seq<char>| #[trigger]
                after.queue.contains(n) ==> expansion.queue.contains(n) || exists|i: int|
                    0 <= i < edges.len() && ((#[trigger] edges[i]).source == n || edges[i].target
                        == n)
            &&& forall|i: int|
                0 <= i < edges.len() ==> exists|c: int|
                    0 <= c < after.candidates.len() && (#[trigger] after.candidates[c]).edge_id
                        == (#[trigger] edges[i]).edge_id
            &&& forall|c: int|
                expansion.candidates.len() <= c < after.candidates.len() ==> exists|i: int|
                    0 <= i < edges.len() && #[trigger] edges[i]
                        == #[trigger] after.candidates[c]
        }),
    decreases edges.len(),
{
    let after = expansion.with_edges(node, edges, first_hop);
    if edges.len() > 0 {
        let front = edges.drop_last();
        let edge = edges[edges.len() - 1];
        law_both_ends_are_queued(expansion, node, front, first_hop);
        let before = expansion.with_edges(node, front, first_hop);
        assert(before.queue.is_prefix_of(after.queue));
        assert(before.candidates.is_prefix_of(after.candidates));
        assert forall|n: Seq<char>| before.queue.contains(n) implies after.queue.contains(n) by {
            let q = choose|q: int| 0 <= q < before.queue.len() && before.queue[q] == n;
            assert(after.queue[q] == n);
        }
        assert(before.queue.contains(node)) by {
            let q = choose|q: int| 0 <= q < expansion.queue.len() && expansion.queue[q] == node;
            assert(before.queue[q] == node);
        }
        if first_hop {
            assert(edge.source == node || edge.target == node ==> after.queue.contains(edge.source)
                && after.queue.contains(edge.target)) by {
                if after.queue.len() > before.queue.len() {
                    let last = after.queue[before.queue.len() as int];
                    assert(after.queue.contains(last));
                }
            }
            assert forall|i: int|
                0 <= i < edges.len() && ((#[trigger] edges[i]).source == node || edges[i].target
                    == node) implies after.queue.contains(edges[i].source)
                && after.queue.contains(edges[i].target) by {
                if i < front.len() {
                    assert(front[i] == edges[i]);
                }
            }
        }
        assert forall|n: Seq<char>| #[trigger] after.queue.contains(n) implies expansion.queue.contains(
        n) || exists|i: int|
            0 <= i < edges.len() && ((#[trigger] edges[i]).source == n || edges[i].target
                == n) by {
            if before.queue.contains(n) {
                if !expansion.queue.contains(n) {
                    let i = choose|i: int|
                        0 <= i < front.len() && ((#[trigger] front[i]).source == n
                            || front[i].target == n);
                    assert(edges[i] == front[i]);
                }
            } else {
                let q = choose|q: int| 0 <= q < after.queue.len() && after.queue[q] == n;
                if q < before.queue.len() {
                    assert(before.queue[q] == n);
                }
                assert(edges[edges.len() - 1].source == n || edges[edges.len() - 1].target == n);
            }
        }
        assert forall|i: int| 0 <= i < edges.len() implies exists|c: int|
            0 <= c < after.candidates.len() && (#[trigger] after.candidates[c]).edge_id == (
            #[trigger] edges[i]).edge_id by {
            if i < front.len() {
                assert(front[i] == edges[i]);
                let c = choose|c: int|
                    0 <= c < before.candidates.len() && (#[trigger] before.candidates[c]).edge_id
                        == front[i].edge_id;
                assert(after.candidates[c] == before.candidates[c]);
            } else if after.candidates.len() > before.candidates.len() {
                assert(after.candidates[before.candidates.len() as int].edge_id
                    == edge.edge_id);
            } else {
                let c = choose|c: int|
                    0 <= c < before.candidates.len() && (#[trigger] before.candidates[c]).edge_id
                        == edge.edge_id;
                assert(after.candidates[c].edge_id == edge.edge_id);
            }
        }
        assert forall|c: int|
            expansion.candidates.len() <= c < after.candidates.len() implies exists|i: int|
            0 <= i < edges.len() && #[trigger] edges[i] == #[trigger] after.candidates[c] by {
            if c < before.candidates.len() {
                assert(after.candidates[c] == before.candidates[c]);
                let i = choose|i: int|
                    0 <= i < front.len() && #[trigger] front[i] == before.candidates[c];
                assert(edges[i] == after.candidates[c]);
            } else {
                assert(edges[edges.len() - 1] == after.candidates[c]);
            }
        }
    }
}

/// Taking in edges in two goes is taking them in at once.
pub proof fn law_edges_come_in_order(
    expansion: Expansion,
    node: Seq<char>,
    first: Seq<CandidateRow>,
    second: Seq<CandidateRow>,
    first_hop: bool,
)
    ensures
        expansion.with_edges(node, first + second, first_hop) == expansion.with_edges(
            node,
            first,
            first_hop,
        ).with_edges(node, second, first_hop),
    decreases second.len(),
{
    if second.len() == 0 {
        assert(first + second =~= first);
    } else {
        assert((first + second).drop_last() =~= first + second.drop_last());
        law_edges_come_in_order(expansion, node, first, second.drop_last(), first_hop);
    }
}

/// The first edge under an identifier is the one that is kept.
pub proof fn law_first_edge_of_an_identifier_stays(
    expansion: Expansion,
    node: Seq<char>,
    edge: CandidateRow,
    first_hop: bool,
)
    ensures
        ({
            let after = expansion.with_edges(node, seq![edge], first_hop);
            if exists|c: int|
                0 <= c < expansion.candidates.len() && (
                #[trigger] expansion.candidates[c]).edge_id == edge.edge_id {
                after.candidates == expansion.candidates
            } else {
                after.candidates == expansion.candidates.push(edge)
            }
        }),
{
    let one = seq![edge];
    assert(one.drop_last() =~= Seq::<CandidateRow>::empty());
    assert(expansion.with_edges(node, one.drop_last(), first_hop) == expansion);
    assert(expansion.with_edges(node, one, first_hop) == expansion.with_edge(
        node,
        edge,
        first_hop,
    ));
}

/// The expansion after the reads of the first queued nodes, one after the other; the
/// nodes among the entries are the first hop.
pub open spec fn expanded(entries: Seq<Seq<char>>, reads: Seq<Seq<CandidateRow>>) -> Expansion
    decreases reads.len(),
{
    if reads.len() == 0 {
        Expansion { queue: entries, candidates: Seq::empty() }
    } else {
        let before = expanded(entries, reads.drop_last());
        let at = reads.len() - 1;
        before.with_edges(before.queue[at], reads.last(), at < entries.len())
    }
}

/// Whether each read is that of a queued node and gives edges of that node alone.
pub open spec fn reads_queue(entries: Seq<Seq<char>>, reads: Seq<Seq<CandidateRow>>) -> bool
    decreases reads.len(),
{
    reads.len() > 0 ==> {
        let front = reads.drop_last();
        let queue = expanded(entries, front).queue;
        &&& reads_queue(entries, front)
        &&& front.len() < queue.len()
        &&& forall|i: int|
            0 <= i < reads.last().len() ==> (#[trigger] reads.last()[i]).source
                == queue[front.len() as int] || reads.last()[i].target
                == queue[front.len() as int]
    }
}

/// Whether the node is an end of an edge that one of the first reads gave.
pub open spec fn is_end(reads: Seq<Seq<CandidateRow>>, node: Seq<char>) -> bool {
    exists|r: int, i: int|
        0 <= r < reads.len() && 0 <= i < reads[r].len() && ((#[trigger] reads[r][i]).source == node
            || reads[r][i].target == node)
}

/// A two-hop expansion reaches both ends of every edge of an entry: each is queued, so
/// that it is read before the expansion ends. Only ends of edges of the entries are
/// queued besides the entries, which come first.
pub proof fn law_two_hops_reach_both_ends(
    entries: Seq<Seq<char>>,
    reads: Seq<Seq<CandidateRow>>,
    node: Seq<char>,
)
    requires
        reads_queue(entries, reads),
    ensures
        entries.is_prefix_of(expanded(entries, reads).queue),
        expanded(entries, reads).queue.contains(node) <==> entries.contains(node) || is_end(
            if reads.len() <= entries.len() {
                reads
            } else {
                reads.take(entries.len() as int)
            },
            node,
        ),
    decreases reads.len(),
{
    let queue = expanded(entries, reads).queue;
    if reads.len() == 0 {
        assert(!is_end(reads, node));
    } else {
        let front = reads.drop_last();
        let at = reads.len() - 1;
        let given = reads[at];
        law_two_hops_reach_both_ends(entries, front, node);
        let before = expanded(entries, front);
        assert(reads.last() == given);
        assert(before.queue.contains(before.queue[at]));
        law_both_ends_are_queued(before, before.queue[at], given, at < entries.len());
        assert(before.queue.contains(node) ==> queue.contains(node)) by {
            if before.queue.contains(node) {
                let q = choose|q: int| 0 <= q < before.queue.len() && before.queue[q] == node;
                assert(queue[q] == node);
            }
        }
        if at < entries.len() {
            if is_end(front, node) {
                let (r, i) = choose|r: int, i: int|
                    0 <= r < front.len() && 0 <= i < front[r].len() && ((
                    #[trigger] front[r][i]).source == node || front[r][i].target == node);
                assert(reads[r][i] == front[r][i]);
            }
            if queue.contains(node) && !before.queue.contains(node) {
                let i = choose|i: int|
                    0 <= i < given.len() && ((#[trigger] given[i]).source == node
                        || given[i].target == node);
                assert(reads[at][i] == given[i]);
            }
            if is_end(reads, node) && !is_end(front, node) {
                let (r, i) = choose|r: int, i: int|
                    0 <= r < reads.len() && 0 <= i < reads[r].len() && ((
                    #[trigger] reads[r][i]).source == node || reads[r][i].target == node);
                if r < at {
                    assert(front[r][i] == reads[r][i]);
                }
                assert(given[i] == reads[r][i]);
            }
        } else {
            assert(front.take(entries.len() as int) =~= reads.take(entries.len() as int));
            if front.len() == entries.len() {
                assert(front.take(entries.len() as int) =~= front);
            }
        }
    }
}

/// Every edge that a read of a two-hop expansion gave is found, under its identifier.
pub proof fn law_two_hops_find_every_edge(
    entries: Seq<Seq<char>>,
    reads: Seq<Seq<CandidateRow>>,
    r: int,
    i: int,
)
    requires
        reads_queue(entries, reads),
        0 <= r < reads.len(),
        0 <= i < reads[r].len(),
    ensures
        exists|c: int|
            0 <= c < expanded(entries, reads).candidates.len() && (#[trigger] expanded(
                entries,
                reads,
            ).candidates[c]).edge_id == reads[r][i].edge_id,
    decreases reads.len(),
{
    let found = expanded(entries, reads).candidates;
    let front = reads.drop_last();
    let at = reads.len() - 1;
    let given = reads[at];
    let before = expanded(entries, front);
    assert(reads.last() == given);
    assert(before.queue.contains(before.queue[at]));
    law_both_ends_are_queued(before, before.queue[at], given, at < entries.len());
    if r < at {
        law_two_hops_find_every_edge(entries, front, r, i);
        let c = choose|c: int|
            0 <= c < before.candidates.len() && (#[trigger] before.candidates[c]).edge_id
                == front[r][i].edge_id;
        assert(found[c] == before.candidates[c]);
    } else {
        let c = choose|c: int|
            0 <= c < found.len() && (#[trigger] found[c]).edge_id == given[i].edge_id;
        assert(found[c].edge_id == reads[r][i].edge_id);
    }
}

/// Every edge that a two-hop expansion finds came from one of its reads.
pub proof fn law_two_hops_find_only_edges(
    entries: Seq<Seq<char>>,
    reads: Seq<Seq<CandidateRow>>,
    c: int,
)
    requires
        reads_queue(entries, reads),
        0 <= c < expanded(entries, reads).candidates.len(),
    ensures
        exists|r: int, i: int|
            0 <= r < reads.len() && 0 <= i < reads[r].len() && #[trigger] reads[r][i] == expanded(
                entries,
                reads,
            ).candidates[c],
    decreases reads.len(),
{
    let found = expanded(entries, reads).candidates;
    if reads.len() > 0 {
        let front = reads.drop_last();
        let at = reads.len() - 1;
        let given = reads[at];
        let before = expanded(entries, front);
        assert(reads.last() == given);
        assert(before.queue.contains(before.queue[at]));
        law_both_ends_are_queued(before, before.queue[at], given, at < entries.len());
        if c < before.candidates.len() {
            law_two_hops_find_only_edges(entries, front, c);
            assert(found[c] == before.candidates[c]);
            let (r, i) = choose|r: int, i: int|
                0 <= r < front.len() && 0 <= i < front[r].len() && #[trigger] front[r][i]
                    == before.candidates[c];
            assert(reads[r][i] == found[c]);
        } else {
            let i = choose|i: int| 0 <= i < given.len() && #[trigger] given[i] == found[c];
            assert(reads[at][i] == found[c]);
        }
    }
}

/// The keys to hydrate are those of the identifiers that decode: each is there, under
/// its own text, once, in the order in which the identifiers first name it.
pub proof fn law_hydration_is_complete(ids: Seq<Seq<char>>)
    ensures
        forall|i: int|
            0 <= i < ids.len() && decoding(#[trigger] ids[i]) is Ok ==> exists|k: int|
                0 <= k < hydration(ids).len() && (#[trigger] hydration(ids)[k]).encoded()
                    == decoding(ids[i])->Ok_0.encoded(),
        forall|k: int|
            0 <= k < hydration(ids).len() ==> exists|i: int|
                0 <= i < ids.len() && decoding(#[trigger] ids[i]) == Ok::<DecodedEdgeId, Seq<char>>(
                    #[trigger] hydration(ids)[k],
                ),
        forall|a: int, b: int|
            0 <= a < b < hydration(ids).len() ==> (#[trigger] hydration(ids)[a]).encoded() != (
            #[trigger] hydration(ids)[b]).encoded(),
        ids.len() > 0 ==> hydration(ids.drop_last()).is_prefix_of(hydration(ids)),
    decreases ids.len(),
{
    if ids.len() > 0 {
        let front = ids.drop_last();
        let last = ids[ids.len() - 1];
        law_hydration_is_complete(front);
        let before = hydration(front);
        let after = hydration(ids);
        assert forall|i: int| 0 <= i < ids.len() && decoding(#[trigger] ids[i]) is Ok implies exists|
            k: int,
        |
            0 <= k < after.len() && (#[trigger] after[k]).encoded() == decoding(
                ids[i],
            )->Ok_0.encoded() by {
            if i < front.len() {
                assert(front[i] == ids[i]);
                let k = choose|k: int|
                    0 <= k < before.len() && (#[trigger] before[k]).encoded() == decoding(
                        front[i],
                    )->Ok_0.encoded();
                assert(after[k] == before[k]);
            } else if after.len() > before.len() {
                assert(after[before.len() as int] == decoding(last)->Ok_0);
            } else {
                let k = choose|k: int|
                    0 <= k < before.len() && (#[trigger] before[k]).encoded() == decoding(
                        last,
                    )->Ok_0.encoded();
                assert(after[k] == before[k]);
            }
        }
        assert forall|k: int| 0 <= k < after.len() implies exists|i: int|
            0 <= i < ids.len() && decoding(#[trigger] ids[i]) == Ok::<DecodedEdgeId, Seq<char>>(
                #[trigger] after[k],
            ) by {
            if k < before.len() {
                assert(after[k] == before[k]);
                let i = choose|i: int|
                    0 <= i < front.len() && decoding(#[trigger] front[i]) == Ok::<
                        DecodedEdgeId,
                        Seq<char>,
                    >(before[k]);
                assert(ids[i] == front[i]);
            } else {
                assert(decoding(ids[ids.len() - 1]) == Ok::<DecodedEdgeId, Seq<char>>(after[k]));
            }
        }
        assert forall|a: int, b: int| 0 <= a < b < after.len() implies (
        #[trigger] after[a]).encoded() != (#[trigger] after[b]).encoded() by {
            assert(after[a] == before[a]);
            if b < before.len() {
                assert(after[b] == before[b]);
            } else {
                assert(before[a].encoded() != decoding(last)->Ok_0.encoded());
            }
        }
    }
}

/// A decoded identifier encodes to the identifier of the same four columns, so the key
/// that was decoded from an identifier has its text.
pub proof fn law_decoded_keys_encode(id: EdgeId, columns: DecodedEdgeId)
    ensures
        columns.encoded() == edge_id_text(
            columns.source,
            columns.relationship,
            columns.target,
            moment_text(columns.valid_at.0, columns.valid_at.1),
        ),
        is_decoded(id, columns) ==> id.encoded() == columns.encoded(),
{
}

/// The decoded keys are those of the identifiers, one for one.
pub proof fn law_decoded_keys(keys: Seq<EdgeId>, decoded: Seq<DecodedEdgeId>, i: int)
    requires
        are_decoded(keys, decoded),
        0 <= i < keys.len(),
    ensures
        keys.len() == decoded.len(),
        keys[i].source_id@ == decoded[i].source,
        keys[i].relationship_name@ == decoded[i].relationship,
        keys[i].target_id@ == decoded[i].target,
        (keys[i].valid_at.local_nanos(), keys[i].valid_at.offset_seconds()) == decoded[i].valid_at,
{
    assert(is_decoded(keys[i], decoded[i]));
}

/// A hydrated edge has the columns of its key, and the names and the text of the row. An
/// edge without a row, or with a row of another shape, is not hydrated.
pub proof fn law_hydrated_columns(
    key: EdgeId,
    source_name: Seq<char>,
    target_name: Seq<char>,
    text: Seq<char>,
    rest: Seq<Seq<Value>>,
    rows: Seq<Seq<Value>>,
)
    ensures
        hydrated(
            key,
            seq![
                seq![Value::Text(source_name), Value::Text(target_name), Value::Text(text)],
            ] + rest,
        ) == Some(
            (CandidateRow {
                edge_id: key.encoded(),
                source: key.source_id@,
                source_name,
                target: key.target_id@,
                target_name,
                relationship: key.relationship_name@,
                text,
                valid_at: key.valid_at,
            }),
        ),
        hydrated(key, rows) is Some <==> rows.len() > 0 && rows[0].len() >= 3 && rows[0][0] is Text
            && rows[0][1] is Text && rows[0][2] is Text,
{
    let row = seq![Value::Text(source_name), Value::Text(target_name), Value::Text(text)];
    assert((seq![row] + rest)[0] == row);
}

} // verus!
