//! What a batch leaves in the graph, and that replaying it changes nothing.

use crate::memory::batch::{batch_edge_writes, batch_node_writes, batch_writes};
use crate::memory::graph::{
    EdgeKey, EdgeRow, Graph, NodeRow, Write, coalesce, invalidations, is_sibling,
    law_writes_keep_the_graph_well_formed, lemma_after_concat, lemma_invalidations_concat,
    valid_siblings,
};
use crate::timestamp::Timestamp;
use vstd::prelude::*;

verus! {

/// Whether the natural key names a valid edge after the edges of a batch: the last
/// write that bears on the key decides.
pub open spec fn valid_after(
    g: Graph,
    edges: Seq<EdgeRow>,
    single_value: Seq<Seq<char>>,
    key: EdgeKey,
) -> bool
    decreases edges.len(),
{
    if edges.len() == 0 {
        g.valid_edge(key)
    } else {
        let edge = edges.last();
        if edge.key() == key && g.joins(edge.source, edge.target) {
            edge.is_valid()
        } else if single_value.contains(edge.relationship) && is_sibling(key, edge.key()) {
            false
        } else {
            valid_after(g, edges.drop_last(), single_value, key)
        }
    }
}

/// The graph after the edges of a batch.
pub open spec fn after_edges(
    g: Graph,
    edges: Seq<EdgeRow>,
    single_value: Seq<Seq<char>>,
    now: Timestamp,
) -> Graph {
    g.after_all(batch_edge_writes(edges, single_value, now))
}

/// The step from the edges before the last one to all of them.
proof fn lemma_after_last_edge(
    g: Graph,
    edges: Seq<EdgeRow>,
    single_value: Seq<Seq<char>>,
    now: Timestamp,
)
    requires
        edges.len() > 0,
    ensures
        ({
            let here = after_edges(g, edges.drop_last(), single_value, now);
            let edge = edges.last();
            after_edges(g, edges, single_value, now) == (if single_value.contains(
                edge.relationship,
            ) {
                here.after(Write::InvalidateSiblings { key: edge.key(), now }).after(
                    Write::UpsertEdge { edge },
                )
            } else {
                here.after(Write::UpsertEdge { edge })
            })
        }),
{
    let edge = edges.last();
    let before = batch_edge_writes(edges.drop_last(), single_value, now);
    if single_value.contains(edge.relationship) {
        let w1 = before.push(Write::InvalidateSiblings { key: edge.key(), now });
        let w2 = w1.push(Write::UpsertEdge { edge });
        assert(w1.drop_last() =~= before);
        assert(w2.drop_last() =~= w1);
        assert(g.after_all(w1) == g.after_all(before).after(w1.last()));
        assert(g.after_all(w2) == g.after_all(w1).after(w2.last()));
    } else {
        let w1 = before.push(Write::UpsertEdge { edge });
        assert(w1.drop_last() =~= before);
        assert(g.after_all(w1) == g.after_all(before).after(w1.last()));
    }
}

/// The edges of a batch leave the nodes alone.
proof fn lemma_edges_keep_nodes(
    g: Graph,
    edges: Seq<EdgeRow>,
    single_value: Seq<Seq<char>>,
    now: Timestamp,
)
    ensures
        after_edges(g, edges, single_value, now).nodes == g.nodes,
    decreases edges.len(),
{
    if edges.len() > 0 {
        lemma_after_last_edge(g, edges, single_value, now);
        lemma_edges_keep_nodes(g, edges.drop_last(), single_value, now);
    }
}

/// The validity of every edge after the edges of a batch is that of the last write
/// that bears on it.
pub proof fn law_batch_validity(
    g: Graph,
    edges: Seq<EdgeRow>,
    single_value: Seq<Seq<char>>,
    now: Timestamp,
    key: EdgeKey,
)
    ensures
        after_edges(g, edges, single_value, now).valid_edge(key) == valid_after(
            g,
            edges,
            single_value,
            key,
        ),
    decreases edges.len(),
{
    if edges.len() > 0 {
        lemma_after_last_edge(g, edges, single_value, now);
        law_batch_validity(g, edges.drop_last(), single_value, now, key);
        lemma_edges_keep_nodes(g, edges.drop_last(), single_value, now);
    }
}

/// Whether the edge at `i` is the last one of its subject and relationship.
pub open spec fn is_last_write(edges: Seq<EdgeRow>, i: int) -> bool {
    &&& 0 <= i < edges.len()
    &&& forall|j: int|
        i < j < edges.len() ==> !((#[trigger] edges[j]).source == edges[i].source
            && edges[j].relationship == edges[i].relationship)
}

/// Exactly one valid edge per subject and single-value relationship survives a
/// batch: the last one written, provided it is written as valid between existing
/// nodes.
pub proof fn law_last_single_value_write_wins(
    g: Graph,
    edges: Seq<EdgeRow>,
    single_value: Seq<Seq<char>>,
    now: Timestamp,
    i: int,
    key: EdgeKey,
)
    requires
        is_last_write(edges, i),
        single_value.contains(edges[i].relationship),
        edges[i].is_valid(),
        g.joins(edges[i].source, edges[i].target),
        key.source == edges[i].source,
        key.relationship == edges[i].relationship,
    ensures
        after_edges(g, edges, single_value, now).valid_edge(key) <==> key == edges[i].key(),
{
    law_batch_validity(g, edges, single_value, now, key);
    lemma_last_write_decides(g, edges, single_value, i, key);
}

proof fn lemma_last_write_decides(
    g: Graph,
    edges: Seq<EdgeRow>,
    single_value: Seq<Seq<char>>,
    i: int,
    key: EdgeKey,
)
    requires
        is_last_write(edges, i),
        single_value.contains(edges[i].relationship),
        edges[i].is_valid(),
        g.joins(edges[i].source, edges[i].target),
        key.source == edges[i].source,
        key.relationship == edges[i].relationship,
    ensures
        valid_after(g, edges, single_value, key) == (key == edges[i].key()),
    decreases edges.len(),
{
    if i < edges.len() - 1 {
        let front = edges.drop_last();
        assert(edges[edges.len() - 1] == edges.last());
        assert(front[i] == edges[i]);
        assert(is_last_write(front, i)) by {
            assert forall|j: int| i < j < front.len() implies !((#[trigger] front[j]).source
                == front[i].source && front[j].relationship == front[i].relationship) by {
                assert(front[j] == edges[j]);
            }
        }
        lemma_last_write_decides(g, front, single_value, i, key);
    } else {
        assert(edges[i] == edges.last());
        if key != edges[i].key() {
            if key.target == edges[i].key().target && key.valid_at == edges[i].key().valid_at {
                assert(key =~= edges[i].key());
            }
        }
    }
}

/// At most one valid edge per subject and single-value relationship survives a
/// batch that writes the pair.
pub proof fn law_at_most_one_valid(
    g: Graph,
    edges: Seq<EdgeRow>,
    single_value: Seq<Seq<char>>,
    now: Timestamp,
    i: int,
    a: EdgeKey,
    b: EdgeKey,
)
    requires
        is_last_write(edges, i),
        single_value.contains(edges[i].relationship),
        a.source == edges[i].source,
        a.relationship == edges[i].relationship,
        b.source == edges[i].source,
        b.relationship == edges[i].relationship,
        after_edges(g, edges, single_value, now).valid_edge(a),
        after_edges(g, edges, single_value, now).valid_edge(b),
    ensures
        a == b,
{
    law_batch_validity(g, edges, single_value, now, a);
    law_batch_validity(g, edges, single_value, now, b);
    lemma_valid_is_last(g, edges, single_value, i, a);
    lemma_valid_is_last(g, edges, single_value, i, b);
}

proof fn lemma_valid_is_last(
    g: Graph,
    edges: Seq<EdgeRow>,
    single_value: Seq<Seq<char>>,
    i: int,
    key: EdgeKey,
)
    requires
        is_last_write(edges, i),
        single_value.contains(edges[i].relationship),
        key.source == edges[i].source,
        key.relationship == edges[i].relationship,
        valid_after(g, edges, single_value, key),
    ensures
        key == edges[i].key(),
    decreases edges.len(),
{
    if i < edges.len() - 1 {
        let front = edges.drop_last();
        assert(edges[edges.len() - 1] == edges.last());
        assert(front[i] == edges[i]);
        assert(is_last_write(front, i)) by {
            assert forall|j: int| i < j < front.len() implies !((#[trigger] front[j]).source
                == front[i].source && front[j].relationship == front[i].relationship) by {
                assert(front[j] == edges[j]);
            }
        }
        lemma_valid_is_last(g, front, single_value, i, key);
    } else {
        assert(edges[i] == edges.last());
        if key.target == edges[i].key().target && key.valid_at == edges[i].key().valid_at {
            assert(key =~= edges[i].key());
        }
    }
}

// ----- replay -----

/// Whether a write of the batch bears on the validity of the key.
spec fn bears_on(
    g: Graph,
    edges: Seq<EdgeRow>,
    single_value: Seq<Seq<char>>,
    key: EdgeKey,
) -> bool
    decreases edges.len(),
{
    edges.len() > 0 && {
        let edge = edges.last();
        ||| edge.key() == key && g.joins(edge.source, edge.target)
        ||| single_value.contains(edge.relationship) && is_sibling(key, edge.key())
        ||| bears_on(g, edges.drop_last(), single_value, key)
    }
}

proof fn lemma_validity_of_base(
    g: Graph,
    h: Graph,
    edges: Seq<EdgeRow>,
    single_value: Seq<Seq<char>>,
    key: EdgeKey,
)
    requires
        g.nodes.dom() == h.nodes.dom(),
    ensures
        bears_on(g, edges, single_value, key) ==> valid_after(g, edges, single_value, key)
            == valid_after(h, edges, single_value, key),
        !bears_on(g, edges, single_value, key) ==> valid_after(g, edges, single_value, key)
            == g.valid_edge(key),
        !bears_on(g, edges, single_value, key) ==> valid_after(h, edges, single_value, key)
            == h.valid_edge(key),
    decreases edges.len(),
{
    if edges.len() > 0 {
        lemma_validity_of_base(g, h, edges.drop_last(), single_value, key);
        let edge = edges.last();
        assert(g.nodes.contains_key(edge.source) == g.nodes.dom().contains(edge.source));
        assert(h.nodes.contains_key(edge.source) == h.nodes.dom().contains(edge.source));
        assert(g.nodes.contains_key(edge.target) == g.nodes.dom().contains(edge.target));
        assert(h.nodes.contains_key(edge.target) == h.nodes.dom().contains(edge.target));
    }
}

/// Replaying the edges of a batch at a later time keeps the set of valid edges.
pub proof fn law_replay_keeps_valid_edges(
    g: Graph,
    edges: Seq<EdgeRow>,
    single_value: Seq<Seq<char>>,
    now: Timestamp,
    later: Timestamp,
    key: EdgeKey,
)
    ensures
        after_edges(after_edges(g, edges, single_value, now), edges, single_value, later).valid_edge(
            key,
        ) == after_edges(g, edges, single_value, now).valid_edge(key),
{
    let once = after_edges(g, edges, single_value, now);
    lemma_edges_keep_nodes(g, edges, single_value, now);
    law_batch_validity(g, edges, single_value, now, key);
    law_batch_validity(once, edges, single_value, later, key);
    lemma_validity_of_base(g, once, edges, single_value, key);
}

/// What the graph stores under a natural key.
pub open spec fn stored(g: Graph, key: EdgeKey) -> Option<EdgeRow> {
    if g.edges.contains_key(key) {
        Some(g.edges[key])
    } else {
        None
    }
}

/// The row under a key after the upserts of a batch alone.
spec fn upserts(g: Graph, row: Option<EdgeRow>, edges: Seq<EdgeRow>, key: EdgeKey) -> Option<EdgeRow>
    decreases edges.len(),
{
    if edges.len() == 0 {
        row
    } else {
        let edge = edges.last();
        let before = upserts(g, row, edges.drop_last(), key);
        if edge.key() == key && g.joins(edge.source, edge.target) {
            match before {
                Some(old) => Some(
                    EdgeRow {
                        text: edge.text,
                        invalid_at: edge.invalid_at,
                        updated_at: edge.updated_at,
                        properties: coalesce(edge.properties, old.properties),
                        ..old
                    },
                ),
                None => Some(edge),
            }
        } else {
            before
        }
    }
}

/// Whether the batch upserts an edge under the key.
spec fn upserted(g: Graph, edges: Seq<EdgeRow>, key: EdgeKey) -> bool
    decreases edges.len(),
{
    edges.len() > 0 && {
        ||| edges.last().key() == key && g.joins(edges.last().source, edges.last().target)
        ||| upserted(g, edges.drop_last(), key)
    }
}

/// The last properties that the batch writes under the key.
spec fn written_properties(g: Graph, edges: Seq<EdgeRow>, key: EdgeKey) -> Option<Seq<char>>
    decreases edges.len(),
{
    if edges.len() == 0 {
        None
    } else {
        let before = written_properties(g, edges.drop_last(), key);
        if edges.last().key() == key && g.joins(edges.last().source, edges.last().target) {
            coalesce(edges.last().properties, before)
        } else {
            before
        }
    }
}

/// The row that the upserts of a batch leave of a row that is there.
spec fn overwritten(g: Graph, row: EdgeRow, edges: Seq<EdgeRow>, key: EdgeKey) -> EdgeRow
    decreases edges.len(),
{
    if edges.len() == 0 {
        row
    } else {
        let edge = edges.last();
        if edge.key() == key && g.joins(edge.source, edge.target) {
            EdgeRow {
                text: edge.text,
                invalid_at: edge.invalid_at,
                updated_at: edge.updated_at,
                properties: coalesce(written_properties(g, edges, key), row.properties),
                ..row
            }
        } else {
            overwritten(g, row, edges.drop_last(), key)
        }
    }
}

proof fn lemma_upserts_overwrite(g: Graph, row: EdgeRow, edges: Seq<EdgeRow>, key: EdgeKey)
    ensures
        upserts(g, Some(row), edges, key) == Some(overwritten(g, row, edges, key)),
        overwritten(g, row, edges, key).properties == coalesce(
            written_properties(g, edges, key),
            row.properties,
        ),
        overwritten(g, row, edges, key) == (EdgeRow {
            text: overwritten(g, row, edges, key).text,
            invalid_at: overwritten(g, row, edges, key).invalid_at,
            updated_at: overwritten(g, row, edges, key).updated_at,
            properties: overwritten(g, row, edges, key).properties,
            ..row
        }),
    decreases edges.len(),
{
    if edges.len() > 0 {
        lemma_upserts_overwrite(g, row, edges.drop_last(), key);
    }
}

proof fn lemma_upserts_settle(g: Graph, row: Option<EdgeRow>, edges: Seq<EdgeRow>, key: EdgeKey)
    ensures
        upserted(g, edges, key) ==> (upserts(g, row, edges, key) matches Some(new) && overwritten(
            g,
            new,
            edges,
            key,
        ) == new && coalesce(written_properties(g, edges, key), new.properties) == new.properties),
        !upserted(g, edges, key) ==> upserts(g, row, edges, key) == row,
    decreases edges.len(),
{
    if edges.len() > 0 {
        lemma_upserts_settle(g, row, edges.drop_last(), key);
        if upserted(g, edges, key) {
            let new = upserts(g, row, edges, key)->0;
            if !upserted(g, edges.drop_last(), key) {
                lemma_nothing_written(g, edges.drop_last(), key);
            }
            assert(overwritten(g, new, edges, key) =~= new);
        }
    }
}

proof fn lemma_nothing_written(g: Graph, edges: Seq<EdgeRow>, key: EdgeKey)
    requires
        !upserted(g, edges, key),
    ensures
        written_properties(g, edges, key) is None,
    decreases edges.len(),
{
    if edges.len() > 0 {
        lemma_nothing_written(g, edges.drop_last(), key);
    }
}

/// Whether no two single-value edges of the batch share subject and relationship.
pub open spec fn distinct_pairs(edges: Seq<EdgeRow>, single_value: Seq<Seq<char>>) -> bool {
    forall|i: int, j: int|
        0 <= i < j < edges.len() && single_value.contains((#[trigger] edges[i]).relationship) ==> !(
        edges[i].source == (#[trigger] edges[j]).source && edges[i].relationship
            == edges[j].relationship)
}

/// Whether every sibling of a single-value edge of the batch is invalid.
spec fn siblings_invalid(g: Graph, edges: Seq<EdgeRow>, single_value: Seq<Seq<char>>) -> bool {
    forall|i: int, k: EdgeKey|
        0 <= i < edges.len() && single_value.contains((#[trigger] edges[i]).relationship)
            && #[trigger] g.edges.contains_key(k) && is_sibling(k, edges[i].key())
            ==> !g.edges[k].is_valid()
}

proof fn lemma_first_run(
    g: Graph,
    all: Seq<EdgeRow>,
    single_value: Seq<Seq<char>>,
    now: Timestamp,
    n: int,
    key: EdgeKey,
)
    requires
        distinct_pairs(all, single_value),
        0 <= n <= all.len(),
        upserted(g, all, key),
    ensures
        upserted(g, all.take(n), key) ==> stored(
            after_edges(g, all.take(n), single_value, now),
            key,
        ) == upserts(g, stored(g, key), all.take(n), key),
        single_value.contains(key.relationship) || stored(
            after_edges(g, all.take(n), single_value, now),
            key,
        ) == upserts(g, stored(g, key), all.take(n), key),
        !upserted(g, all.take(n), key) ==> stored(
            after_edges(g, all.take(n), single_value, now),
            key,
        ) == stored(g, key),
    decreases n,
{
    let edges = all.take(n);
    if n > 0 {
        let front = all.take(n - 1);
        assert(edges.drop_last() =~= front);
        lemma_first_run(g, all, single_value, now, n - 1, key);
        lemma_after_last_edge(g, edges, single_value, now);
        lemma_edges_keep_nodes(g, front, single_value, now);
        lemma_upserts_settle(g, stored(g, key), front, key);
        let here = after_edges(g, front, single_value, now);
        let edge = edges.last();
        assert(edge == all[n - 1]);
        // A sibling of this edge that the batch upserts would share its pair.
        if single_value.contains(edge.relationship) && is_sibling(key, edge.key()) {
            lemma_upserted_index(g, all, key);
            let j = choose|j: int| 0 <= j < all.len() && (#[trigger] all[j]).key() == key;
            assert(all[j].source == edge.source && all[j].relationship == edge.relationship);
            if j < n - 1 {
                assert(false);
            } else if j > n - 1 {
                assert(false);
            }
        }
    } else {
        assert(edges.len() == 0);
    }
}

proof fn lemma_upserted_index(g: Graph, edges: Seq<EdgeRow>, key: EdgeKey)
    requires
        upserted(g, edges, key),
    ensures
        exists|j: int| 0 <= j < edges.len() && (#[trigger] edges[j]).key() == key,
    decreases edges.len(),
{
    if edges.last().key() == key {
        assert(edges[edges.len() - 1].key() == key);
    } else {
        lemma_upserted_index(g, edges.drop_last(), key);
        let j = choose|j: int|
            0 <= j < edges.len() - 1 && (#[trigger] edges.drop_last()[j]).key() == key;
        assert(edges[j].key() == key);
    }
}

proof fn lemma_first_run_invalidates(
    g: Graph,
    all: Seq<EdgeRow>,
    single_value: Seq<Seq<char>>,
    now: Timestamp,
)
    requires
        distinct_pairs(all, single_value),
    ensures
        siblings_invalid(after_edges(g, all, single_value, now), all, single_value),
{
    let there = after_edges(g, all, single_value, now);
    assert forall|i: int, k: EdgeKey|
        0 <= i < all.len() && single_value.contains((#[trigger] all[i]).relationship)
            && #[trigger] there.edges.contains_key(k) && is_sibling(
            k,
            all[i].key(),
        ) implies !there.edges[k].is_valid() by {
        law_batch_validity(g, all, single_value, now, k);
        lemma_sibling_invalid(g, all, single_value, i, k);
    }
}

proof fn lemma_sibling_invalid(
    g: Graph,
    all: Seq<EdgeRow>,
    single_value: Seq<Seq<char>>,
    i: int,
    key: EdgeKey,
)
    requires
        distinct_pairs(all, single_value),
        0 <= i < all.len(),
        single_value.contains(all[i].relationship),
        is_sibling(key, all[i].key()),
    ensures
        !valid_after(g, all, single_value, key),
    decreases all.len(),
{
    let last = all.len() - 1;
    assert(all[last] == all.last());
    if i < last {
        let front = all.drop_last();
        assert(distinct_pairs(front, single_value)) by {
            assert forall|a: int, b: int|
                0 <= a < b < front.len() && single_value.contains(
                    (#[trigger] front[a]).relationship,
                ) implies !(front[a].source == (#[trigger] front[b]).source
                && front[a].relationship == front[b].relationship) by {
                assert(front[a] == all[a]);
                assert(front[b] == all[b]);
            }
        }
        assert(front[i] == all[i]);
        lemma_sibling_invalid(g, front, single_value, i, key);
        assert(!(all[i].source == all[last].source && all[i].relationship
            == all[last].relationship));
    }
}

proof fn lemma_second_run(
    g: Graph,
    all: Seq<EdgeRow>,
    single_value: Seq<Seq<char>>,
    now: Timestamp,
    n: int,
)
    requires
        distinct_pairs(all, single_value),
        siblings_invalid(g, all, single_value),
        0 <= n <= all.len(),
    ensures
        siblings_invalid(after_edges(g, all.take(n), single_value, now), all, single_value),
        forall|key: EdgeKey|
            #![trigger stored(after_edges(g, all.take(n), single_value, now), key)]
            stored(after_edges(g, all.take(n), single_value, now), key) == upserts(
                g,
                stored(g, key),
                all.take(n),
                key,
            ),
    decreases n,
{
    let edges = all.take(n);
    if n == 0 {
        assert(edges.len() == 0);
        assert(after_edges(g, edges, single_value, now) == g);
    } else {
        let front = all.take(n - 1);
        assert(edges.drop_last() =~= front);
        lemma_second_run(g, all, single_value, now, n - 1);
        lemma_after_last_edge(g, edges, single_value, now);
        lemma_edges_keep_nodes(g, front, single_value, now);
        let here = after_edges(g, front, single_value, now);
        let there = after_edges(g, edges, single_value, now);
        let edge = edges.last();
        assert(edge == all[n - 1]);
        if single_value.contains(edge.relationship) {
            let quiet = here.after(Write::InvalidateSiblings { key: edge.key(), now });
            assert(all[n - 1] == edge);
            assert(quiet.edges =~= here.edges);
            assert(quiet =~= here);
        }
        assert(there == here.after(Write::UpsertEdge { edge }));
        assert forall|i: int, k: EdgeKey|
            0 <= i < all.len() && single_value.contains((#[trigger] all[i]).relationship)
                && #[trigger] there.edges.contains_key(k) && is_sibling(
                k,
                all[i].key(),
            ) implies !there.edges[k].is_valid() by {
            if k == edge.key() && g.joins(edge.source, edge.target) {
                if i < n - 1 {
                    assert(!(all[i].source == all[n - 1].source && all[i].relationship
                        == all[n - 1].relationship));
                } else if i > n - 1 {
                    assert(!(all[n - 1].source == all[i].source && all[n - 1].relationship
                        == all[i].relationship));
                }
            } else {
                assert(here.edges.contains_key(k));
            }
        }
        assert forall|key: EdgeKey|
            #![trigger stored(there, key)]
            stored(there, key) == upserts(g, stored(g, key), edges, key) by {
            assert(stored(here, key) == upserts(g, stored(g, key), front, key));
        }
    }
}

/// Whether the batch writes an edge under the key between existing nodes.
pub open spec fn is_batch_edge(g: Graph, edges: Seq<EdgeRow>, key: EdgeKey) -> bool {
    exists|i: int|
        0 <= i < edges.len() && (#[trigger] edges[i]).key() == key && g.joins(
            edges[i].source,
            edges[i].target,
        )
}

/// Whether the graphs differ at most in edges of the batch, each with another validity
/// and update time, and invalid.
spec fn disturbed(once: Graph, changed: Graph, edges: Seq<EdgeRow>) -> bool {
    &&& changed.nodes == once.nodes
    &&& changed.edges.dom() == once.edges.dom()
    &&& forall|k: EdgeKey| #[trigger]
        once.edges.contains_key(k) ==> changed.edges[k] == once.edges[k] || (is_batch_edge(
            once,
            edges,
            k,
        ) && exists|at: Timestamp, time: Timestamp|
            changed.edges[k] == #[trigger] once.edges[k].with_validity(Some(at), time))
}

proof fn lemma_batch_edge_upserted(g: Graph, edges: Seq<EdgeRow>, key: EdgeKey)
    requires
        is_batch_edge(g, edges, key),
    ensures
        upserted(g, edges, key),
    decreases edges.len(),
{
    let i = choose|i: int|
        0 <= i < edges.len() && (#[trigger] edges[i]).key() == key && g.joins(
            edges[i].source,
            edges[i].target,
        );
    if i < edges.len() - 1 {
        let front = edges.drop_last();
        assert(front[i].key() == key);
        lemma_batch_edge_upserted(g, front, key);
    }
}

proof fn lemma_validity_is_overwritten(
    g: Graph,
    row: EdgeRow,
    edges: Seq<EdgeRow>,
    key: EdgeKey,
    at: Option<Timestamp>,
    time: Timestamp,
)
    requires
        upserted(g, edges, key),
    ensures
        overwritten(g, row.with_validity(at, time), edges, key) == overwritten(g, row, edges, key),
    decreases edges.len(),
{
    let edge = edges.last();
    if !(edge.key() == key && g.joins(edge.source, edge.target)) {
        lemma_validity_is_overwritten(g, row, edges.drop_last(), key, at, time);
    }
}

proof fn lemma_replayed_edges(
    g: Graph,
    changed: Graph,
    edges: Seq<EdgeRow>,
    single_value: Seq<Seq<char>>,
    now: Timestamp,
    later: Timestamp,
)
    requires
        distinct_pairs(edges, single_value),
        disturbed(after_edges(g, edges, single_value, now), changed, edges),
    ensures
        siblings_invalid(changed, edges, single_value),
        after_edges(changed, edges, single_value, later).edges == after_edges(
            g,
            edges,
            single_value,
            now,
        ).edges,
{
    let once = after_edges(g, edges, single_value, now);
    let twice = after_edges(changed, edges, single_value, later);
    lemma_edges_keep_nodes(g, edges, single_value, now);
    lemma_edges_keep_nodes(changed, edges, single_value, later);
    lemma_first_run_invalidates(g, edges, single_value, now);
    assert forall|k: EdgeKey| changed.edges.contains_key(k) == #[trigger] once.edges.contains_key(
        k,
    ) by {
        assert(changed.edges.dom().contains(k) == once.edges.dom().contains(k));
    }
    assert forall|i: int, k: EdgeKey|
        0 <= i < edges.len() && single_value.contains((#[trigger] edges[i]).relationship)
            && #[trigger] changed.edges.contains_key(k) && is_sibling(
            k,
            edges[i].key(),
        ) implies !changed.edges[k].is_valid() by {
        assert(once.edges.contains_key(k));
        assert(!once.edges[k].is_valid());
    }
    lemma_second_run(changed, edges, single_value, later, edges.len() as int);
    assert(edges.take(edges.len() as int) =~= edges);
    assert forall|key: EdgeKey| stored(twice, key) == stored(once, key) by {
        lemma_same_upserts(g, changed, stored(changed, key), edges, key);
        assert(once.edges.contains_key(key) == changed.edges.contains_key(key));
        if upserted(g, edges, key) {
            lemma_first_run(g, edges, single_value, now, edges.len() as int, key);
            lemma_upserts_settle(g, stored(g, key), edges, key);
            let new = stored(once, key)->0;
            let row = changed.edges[key];
            lemma_upserts_overwrite(g, row, edges, key);
            if row != new {
                let (at, time) = choose|at: Timestamp, time: Timestamp|
                    row == #[trigger] new.with_validity(Some(at), time);
                lemma_validity_is_overwritten(g, new, edges, key, Some(at), time);
            }
        } else {
            lemma_upserts_settle(g, stored(changed, key), edges, key);
            if is_batch_edge(once, edges, key) {
                let i = choose|i: int|
                    0 <= i < edges.len() && (#[trigger] edges[i]).key() == key && once.joins(
                        edges[i].source,
                        edges[i].target,
                    );
                assert(g.joins(edges[i].source, edges[i].target));
                assert(is_batch_edge(g, edges, key));
                lemma_batch_edge_upserted(g, edges, key);
            }
        }
    }
    assert forall|key: EdgeKey|
        #![trigger twice.edges.contains_key(key)]
        #![trigger once.edges.contains_key(key)]
        twice.edges.contains_key(key) == once.edges.contains_key(key) && (
        once.edges.contains_key(key) ==> twice.edges[key] == once.edges[key]) by {
        assert(stored(twice, key) == stored(once, key));
    }
    assert(twice.edges =~= once.edges);
}

/// Where every sibling is invalid already, the edges of a batch invalidate nothing.
proof fn lemma_nothing_to_invalidate(
    g: Graph,
    all: Seq<EdgeRow>,
    single_value: Seq<Seq<char>>,
    now: Timestamp,
    n: int,
)
    requires
        distinct_pairs(all, single_value),
        siblings_invalid(g, all, single_value),
        0 <= n <= all.len(),
    ensures
        invalidations(g, batch_edge_writes(all.take(n), single_value, now)) == 0,
    decreases n,
{
    let edges = all.take(n);
    if n == 0 {
        assert(edges.len() == 0);
    } else {
        let front = all.take(n - 1);
        assert(edges.drop_last() =~= front);
        lemma_nothing_to_invalidate(g, all, single_value, now, n - 1);
        lemma_second_run(g, all, single_value, now, n - 1);
        let edge = edges.last();
        assert(edge == all[n - 1]);
        let before = batch_edge_writes(front, single_value, now);
        let here = after_edges(g, front, single_value, now);
        if single_value.contains(edge.relationship) {
            let first = before.push(Write::InvalidateSiblings { key: edge.key(), now });
            let second = first.push(Write::UpsertEdge { edge });
            assert(first.drop_last() =~= before);
            assert(second.drop_last() =~= first);
            assert(valid_siblings(here, edge.key()) =~= Set::<EdgeKey>::empty()) by {
                assert forall|k: EdgeKey| !valid_siblings(here, edge.key()).contains(k) by {
                    if here.edges.contains_key(k) && is_sibling(k, all[n - 1].key()) {
                        assert(!here.edges[k].is_valid());
                    }
                }
            }
            assert(invalidations(g, first) == 0);
            assert(invalidations(g, second) == invalidations(g, first));
        } else {
            let first = before.push(Write::UpsertEdge { edge });
            assert(first.drop_last() =~= before);
        }
    }
}

/// Replaying the edges of a batch whose single-value edges have distinct subjects
/// and relationships invalidates nothing and changes nothing.
pub proof fn law_replayed_edges_change_nothing(
    g: Graph,
    edges: Seq<EdgeRow>,
    single_value: Seq<Seq<char>>,
    now: Timestamp,
    later: Timestamp,
)
    requires
        distinct_pairs(edges, single_value),
    ensures
        after_edges(after_edges(g, edges, single_value, now), edges, single_value, later)
            == after_edges(g, edges, single_value, now),
        invalidations(
            after_edges(g, edges, single_value, now),
            batch_edge_writes(edges, single_value, later),
        ) == 0,
{
    let once = after_edges(g, edges, single_value, now);
    let twice = after_edges(once, edges, single_value, later);
    lemma_edges_keep_nodes(once, edges, single_value, later);
    lemma_replayed_edges(g, once, edges, single_value, now, later);
    lemma_nothing_to_invalidate(once, edges, single_value, later, edges.len() as int);
    assert(edges.take(edges.len() as int) =~= edges);
    assert(twice =~= once);
}

proof fn lemma_same_upserts(
    g: Graph,
    h: Graph,
    row: Option<EdgeRow>,
    edges: Seq<EdgeRow>,
    key: EdgeKey,
)
    requires
        g.nodes == h.nodes,
    ensures
        upserts(g, row, edges, key) == upserts(h, row, edges, key),
    decreases edges.len(),
{
    if edges.len() > 0 {
        lemma_same_upserts(g, h, row, edges.drop_last(), key);
    }
}

// ----- whole batches -----

/// What the graph stores under a node identifier.
pub open spec fn stored_node(nodes: Map<Seq<char>, NodeRow>, id: Seq<char>) -> Option<NodeRow> {
    if nodes.contains_key(id) {
        Some(nodes[id])
    } else {
        None
    }
}

/// The row under an identifier after the node upserts of a batch.
spec fn node_upserts(row: Option<NodeRow>, nodes: Seq<NodeRow>, id: Seq<char>) -> Option<NodeRow>
    decreases nodes.len(),
{
    if nodes.len() == 0 {
        row
    } else {
        let node = nodes.last();
        let before = node_upserts(row, nodes.drop_last(), id);
        if node.id == id {
            match before {
                Some(old) => Some(
                    NodeRow {
                        name: node.name,
                        updated_at: node.updated_at,
                        properties: coalesce(node.properties, old.properties),
                        ..old
                    },
                ),
                None => Some(node),
            }
        } else {
            before
        }
    }
}

/// The last properties that the batch writes under the identifier.
spec fn node_properties(nodes: Seq<NodeRow>, id: Seq<char>) -> Option<Seq<char>>
    decreases nodes.len(),
{
    if nodes.len() == 0 {
        None
    } else if nodes.last().id == id {
        coalesce(nodes.last().properties, node_properties(nodes.drop_last(), id))
    } else {
        node_properties(nodes.drop_last(), id)
    }
}

/// Whether the batch holds a node with the identifier.
spec fn names_node(nodes: Seq<NodeRow>, id: Seq<char>) -> bool
    decreases nodes.len(),
{
    nodes.len() > 0 && (nodes.last().id == id || names_node(nodes.drop_last(), id))
}

/// The row that the node upserts of a batch leave of a row that is there.
spec fn node_overwritten(row: NodeRow, nodes: Seq<NodeRow>, id: Seq<char>) -> NodeRow
    decreases nodes.len(),
{
    if nodes.len() == 0 {
        row
    } else if nodes.last().id == id {
        NodeRow {
            name: nodes.last().name,
            updated_at: nodes.last().updated_at,
            properties: coalesce(node_properties(nodes, id), row.properties),
            ..row
        }
    } else {
        node_overwritten(row, nodes.drop_last(), id)
    }
}

proof fn lemma_node_upserts_overwrite(row: NodeRow, nodes: Seq<NodeRow>, id: Seq<char>)
    ensures
        node_upserts(Some(row), nodes, id) == Some(node_overwritten(row, nodes, id)),
        node_overwritten(row, nodes, id).properties == coalesce(
            node_properties(nodes, id),
            row.properties,
        ),
        node_overwritten(row, nodes, id) == (NodeRow {
            name: node_overwritten(row, nodes, id).name,
            updated_at: node_overwritten(row, nodes, id).updated_at,
            properties: node_overwritten(row, nodes, id).properties,
            ..row
        }),
    decreases nodes.len(),
{
    if nodes.len() > 0 {
        lemma_node_upserts_overwrite(row, nodes.drop_last(), id);
    }
}

proof fn lemma_no_node_named(nodes: Seq<NodeRow>, id: Seq<char>)
    requires
        !names_node(nodes, id),
    ensures
        node_properties(nodes, id) is None,
    decreases nodes.len(),
{
    if nodes.len() > 0 {
        lemma_no_node_named(nodes.drop_last(), id);
    }
}

proof fn lemma_node_upserts_settle(row: Option<NodeRow>, nodes: Seq<NodeRow>, id: Seq<char>)
    ensures
        names_node(nodes, id) ==> (node_upserts(row, nodes, id) matches Some(new) && forall|
            time: Timestamp,
        |
            node_overwritten(#[trigger] refreshed(new, time), nodes, id) == new),
        names_node(nodes, id) ==> coalesce(
            node_properties(nodes, id),
            node_upserts(row, nodes, id)->0.properties,
        ) == node_upserts(row, nodes, id)->0.properties,
        !names_node(nodes, id) ==> node_upserts(row, nodes, id) == row,
        !names_node(nodes, id) ==> forall|any: NodeRow|
            #[trigger] node_overwritten(any, nodes, id) == any,
    decreases nodes.len(),
{
    if nodes.len() > 0 {
        lemma_node_upserts_settle(row, nodes.drop_last(), id);
        if !names_node(nodes, id) {
            assert forall|any: NodeRow| #[trigger]
                node_overwritten(any, nodes, id) == any by {
                assert(node_overwritten(any, nodes.drop_last(), id) == any);
            }
        }
        if names_node(nodes, id) {
            let new = node_upserts(row, nodes, id)->0;
            if !names_node(nodes.drop_last(), id) {
                lemma_no_node_named(nodes.drop_last(), id);
            }
            assert forall|time: Timestamp|
                node_overwritten(#[trigger] refreshed(new, time), nodes, id) == new by {
                assert(node_overwritten(refreshed(new, time), nodes, id) =~= new);
            }
        }
    }
}

/// The row with another update time.
spec fn refreshed(row: NodeRow, time: Timestamp) -> NodeRow {
    NodeRow { updated_at: time, ..row }
}

/// The graph after the skeleton node and the nodes of a batch.
pub open spec fn after_nodes(
    g: Graph,
    id: Seq<char>,
    nodes: Seq<NodeRow>,
    now: Timestamp,
) -> Graph {
    g.after_all(batch_node_writes(id, nodes, now))
}

proof fn lemma_after_nodes(
    g: Graph,
    id: Seq<char>,
    nodes: Seq<NodeRow>,
    now: Timestamp,
)
    ensures
        after_nodes(g, id, nodes, now).edges == g.edges,
        forall|n: Seq<char>|
            #![trigger stored_node(after_nodes(g, id, nodes, now).nodes, n)]
            stored_node(after_nodes(g, id, nodes, now).nodes, n) == node_upserts(
                if n == id {
                    Some(g.upserted_batch(id, now))
                } else {
                    stored_node(g.nodes, n)
                },
                nodes,
                n,
            ),
    decreases nodes.len(),
{
    let writes = batch_node_writes(id, nodes, now);
    let skeleton = seq![Write::UpsertBatch { id, now }];
    if nodes.len() == 0 {
        assert(writes =~= skeleton);
        assert(skeleton.drop_last() =~= Seq::empty());
        assert(g.after_all(skeleton.drop_last()) == g);
        assert(g.after_all(skeleton) == g.after(skeleton.last()));
    } else {
        let front = nodes.drop_last();
        let node = nodes.last();
        lemma_after_nodes(g, id, front, now);
        assert(writes.drop_last() =~= batch_node_writes(id, front, now));
        assert(writes.last() == Write::UpsertNode { node });
        let here = after_nodes(g, id, front, now);
        let there = after_nodes(g, id, nodes, now);
        assert(there == here.after(Write::UpsertNode { node }));
        assert forall|n: Seq<char>|
            #![trigger stored_node(there.nodes, n)]
            stored_node(there.nodes, n) == node_upserts(
                if n == id {
                    Some(g.upserted_batch(id, now))
                } else {
                    stored_node(g.nodes, n)
                },
                nodes,
                n,
            ) by {
            assert(stored_node(here.nodes, n) == stored_node(
                after_nodes(g, id, front, now).nodes,
                n,
            ));
        }
    }
}

/// The skeleton node and the nodes of a batch invalidate nothing.
proof fn lemma_nodes_invalidate_nothing(
    g: Graph,
    id: Seq<char>,
    nodes: Seq<NodeRow>,
    now: Timestamp,
)
    ensures
        invalidations(g, batch_node_writes(id, nodes, now)) == 0,
    decreases nodes.len(),
{
    let writes = batch_node_writes(id, nodes, now);
    if nodes.len() == 0 {
        assert(writes.drop_last() =~= Seq::empty());
        assert(writes.last() == Write::UpsertBatch { id, now });
        assert(invalidations(g, writes.drop_last()) == 0);
    } else {
        assert(writes.drop_last() =~= batch_node_writes(id, nodes.drop_last(), now));
        assert(writes.last() == Write::UpsertNode { node: nodes.last() });
        lemma_nodes_invalidate_nothing(g, id, nodes.drop_last(), now);
    }
}

/// Whether the second graph is the first one, but for the update time of one node.
pub open spec fn same_but_refreshed(twice: Graph, once: Graph, id: Seq<char>) -> bool {
    &&& twice.edges == once.edges
    &&& twice.nodes.dom() == once.nodes.dom()
    &&& forall|n: Seq<char>| #[trigger]
        once.nodes.contains_key(n) && n != id ==> twice.nodes[n] == once.nodes[n]
    &&& twice.nodes[id] == (NodeRow { updated_at: twice.nodes[id].updated_at, ..once.nodes[id] })
}

proof fn lemma_replayed_batch(
    g: Graph,
    changed: Graph,
    id: Seq<char>,
    nodes: Seq<NodeRow>,
    edges: Seq<EdgeRow>,
    single_value: Seq<Seq<char>>,
    now: Timestamp,
    later: Timestamp,
)
    requires
        distinct_pairs(edges, single_value),
        disturbed(
            g.after_all(batch_writes(id, nodes, edges, single_value, now)),
            changed,
            edges,
        ),
    ensures
        same_but_refreshed(
            changed.after_all(batch_writes(id, nodes, edges, single_value, later)),
            g.after_all(batch_writes(id, nodes, edges, single_value, now)),
            id,
        ),
        invalidations(changed, batch_writes(id, nodes, edges, single_value, later)) == 0,
{
    let node_part = batch_node_writes(id, nodes, now);
    let edge_part = batch_edge_writes(edges, single_value, now);
    let node_again = batch_node_writes(id, nodes, later);
    let edge_again = batch_edge_writes(edges, single_value, later);
    lemma_after_concat(g, node_part, edge_part);
    let first = after_nodes(g, id, nodes, now);
    let once = after_edges(first, edges, single_value, now);
    lemma_after_concat(changed, node_again, edge_again);
    lemma_invalidations_concat(changed, node_again, edge_again);
    let second = after_nodes(changed, id, nodes, later);
    let twice = after_edges(second, edges, single_value, later);
    lemma_after_nodes(g, id, nodes, now);
    lemma_after_nodes(changed, id, nodes, later);
    lemma_edges_keep_nodes(first, edges, single_value, now);
    lemma_edges_keep_nodes(second, edges, single_value, later);
    assert forall|n: Seq<char>| n != id implies stored_node(second.nodes, n) == stored_node(
        first.nodes,
        n,
    ) by {
        let row = stored_node(g.nodes, n);
        assert(stored_node(first.nodes, n) == node_upserts(row, nodes, n));
        assert(stored_node(second.nodes, n) == node_upserts(
            stored_node(first.nodes, n),
            nodes,
            n,
        ));
        lemma_node_upserts_settle(row, nodes, n);
        if names_node(nodes, n) {
            let new = node_upserts(row, nodes, n)->0;
            lemma_node_upserts_overwrite(new, nodes, n);
            assert(refreshed(new, new.updated_at) == new);
        } else {
            lemma_node_upserts_settle(stored_node(first.nodes, n), nodes, n);
        }
    }
    assert(stored_node(first.nodes, id) is Some && stored_node(second.nodes, id) is Some
        && stored_node(second.nodes, id)->0 == (NodeRow {
        updated_at: stored_node(second.nodes, id)->0.updated_at,
        ..stored_node(first.nodes, id)->0
    })) by {
        let skeleton = g.upserted_batch(id, now);
        let row = Some(skeleton);
        assert(stored_node(first.nodes, id) == node_upserts(row, nodes, id));
        lemma_node_upserts_overwrite(skeleton, nodes, id);
        let new = node_upserts(row, nodes, id)->0;
        let again = refreshed(new, later);
        assert(changed.upserted_batch(id, later) == again);
        assert(stored_node(second.nodes, id) == node_upserts(Some(again), nodes, id));
        lemma_node_upserts_overwrite(again, nodes, id);
        lemma_node_upserts_settle(row, nodes, id);
    }
    assert forall|n: Seq<char>|
        #![trigger second.nodes.contains_key(n)]
        #![trigger first.nodes.contains_key(n)]
        second.nodes.contains_key(n) == first.nodes.contains_key(n) by {
        if n != id {
            assert(stored_node(second.nodes, n) == stored_node(first.nodes, n));
        }
    }
    assert(second.nodes.dom() =~= first.nodes.dom());
    assert forall|n: Seq<char>| #[trigger]
        once.nodes.contains_key(n) && n != id implies twice.nodes[n] == once.nodes[n] by {
        assert(stored_node(second.nodes, n) == stored_node(first.nodes, n));
    }
    lemma_replayed_edges(first, changed, edges, single_value, now, later);
    lemma_same_edges(second, changed, edges, single_value, later);
    lemma_nodes_invalidate_nothing(changed, id, nodes, later);
    assert(siblings_invalid(second, edges, single_value));
    lemma_nothing_to_invalidate(second, edges, single_value, later, edges.len() as int);
    assert(edges.take(edges.len() as int) =~= edges);
}

/// Replaying a whole batch at a later time, where its single-value edges have
/// distinct subjects and relationships, invalidates nothing and changes nothing but the
/// update time of the skeleton node.
pub proof fn law_replayed_batch_changes_nothing(
    g: Graph,
    id: Seq<char>,
    nodes: Seq<NodeRow>,
    edges: Seq<EdgeRow>,
    single_value: Seq<Seq<char>>,
    now: Timestamp,
    later: Timestamp,
)
    requires
        distinct_pairs(edges, single_value),
    ensures
        ({
            let once = g.after_all(batch_writes(id, nodes, edges, single_value, now));
            let again = batch_writes(id, nodes, edges, single_value, later);
            &&& same_but_refreshed(once.after_all(again), once, id)
            &&& invalidations(once, again) == 0
        }),
{
    let once = g.after_all(batch_writes(id, nodes, edges, single_value, now));
    lemma_replayed_batch(g, once, id, nodes, edges, single_value, now, later);
}

/// Whether every write invalidates an edge of the batch by hand.
pub open spec fn invalidate_by_hand(writes: Seq<Write>, edges: Seq<EdgeRow>) -> bool {
    forall|w: int|
        0 <= w < writes.len() ==> (#[trigger] writes[w] matches Write::SetInvalidAt {
            key,
            invalid_at: Some(_),
            ..
        } && exists|i: int| 0 <= i < edges.len() && (#[trigger] edges[i]).key() == key)
}

proof fn lemma_by_hand(once: Graph, writes: Seq<Write>, edges: Seq<EdgeRow>)
    requires
        once.well_formed(),
        invalidate_by_hand(writes, edges),
    ensures
        disturbed(once, once.after_all(writes), edges),
    decreases writes.len(),
{
    if writes.len() > 0 {
        let front = writes.drop_last();
        assert(invalidate_by_hand(front, edges)) by {
            assert forall|w: int| 0 <= w < front.len() implies (
            #[trigger] front[w] matches Write::SetInvalidAt { key, invalid_at: Some(_), .. }
                && exists|i: int| 0 <= i < edges.len() && (#[trigger] edges[i]).key() == key) by {
                assert(front[w] == writes[w]);
            }
        }
        lemma_by_hand(once, front, edges);
        let here = once.after_all(front);
        let there = once.after_all(writes);
        let last = writes[writes.len() - 1];
        assert(last == writes.last());
        assert(there == here.after(last));
        match last {
            Write::SetInvalidAt { key, invalid_at, updated_at } => {
                assert(here.edges.contains_key(key) == here.edges.dom().contains(key));
                assert(once.edges.contains_key(key) == once.edges.dom().contains(key));
                if once.edges.contains_key(key) {
                    assert(once.edges.dom() =~= there.edges.dom());
                    let at = invalid_at->0;
                    let i = choose|i: int| 0 <= i < edges.len() && (#[trigger] edges[i]).key()
                        == key;
                    assert(once.joins(edges[i].source, edges[i].target));
                    assert(is_batch_edge(once, edges, key));
                    assert(there.edges[key] == here.edges[key].with_validity(Some(at), updated_at));
                    assert(there.edges[key] =~= once.edges[key].with_validity(
                        Some(at),
                        updated_at,
                    ));
                }
            },
            _ => {},
        }
    }
}

proof fn lemma_writes_keep_well_formed(g: Graph, writes: Seq<Write>)
    requires
        g.well_formed(),
    ensures
        g.after_all(writes).well_formed(),
    decreases writes.len(),
{
    if writes.len() > 0 {
        lemma_writes_keep_well_formed(g, writes.drop_last());
        law_writes_keep_the_graph_well_formed(g.after_all(writes.drop_last()), writes.last());
    }
}

/// Replaying a whole batch after edges of it were invalidated by hand restores every
/// edge as the batch left it, invalidates nothing, and changes nothing else but the
/// update time of the skeleton node.
pub proof fn law_replay_after_invalidations(
    g: Graph,
    id: Seq<char>,
    nodes: Seq<NodeRow>,
    edges: Seq<EdgeRow>,
    single_value: Seq<Seq<char>>,
    by_hand: Seq<Write>,
    now: Timestamp,
    later: Timestamp,
)
    requires
        g.well_formed(),
        distinct_pairs(edges, single_value),
        invalidate_by_hand(by_hand, edges),
    ensures
        ({
            let once = g.after_all(batch_writes(id, nodes, edges, single_value, now));
            let changed = once.after_all(by_hand);
            let again = batch_writes(id, nodes, edges, single_value, later);
            &&& same_but_refreshed(changed.after_all(again), once, id)
            &&& invalidations(changed, again) == 0
        }),
{
    let writes = batch_writes(id, nodes, edges, single_value, now);
    let once = g.after_all(writes);
    lemma_writes_keep_well_formed(g, writes);
    lemma_by_hand(once, by_hand, edges);
    lemma_replayed_batch(
        g,
        once.after_all(by_hand),
        id,
        nodes,
        edges,
        single_value,
        now,
        later,
    );
}

/// The edges of a batch only look at which nodes exist.
proof fn lemma_same_edges(
    g: Graph,
    h: Graph,
    edges: Seq<EdgeRow>,
    single_value: Seq<Seq<char>>,
    now: Timestamp,
)
    requires
        g.edges == h.edges,
        g.nodes.dom() == h.nodes.dom(),
    ensures
        after_edges(g, edges, single_value, now).edges == after_edges(
            h,
            edges,
            single_value,
            now,
        ).edges,
    decreases edges.len(),
{
    if edges.len() > 0 {
        lemma_same_edges(g, h, edges.drop_last(), single_value, now);
        lemma_after_last_edge(g, edges, single_value, now);
        lemma_after_last_edge(h, edges, single_value, now);
        lemma_edges_keep_nodes(g, edges.drop_last(), single_value, now);
        lemma_edges_keep_nodes(h, edges.drop_last(), single_value, now);
        let edge = edges.last();
        assert(g.nodes.contains_key(edge.source) == g.nodes.dom().contains(edge.source));
        assert(h.nodes.contains_key(edge.source) == h.nodes.dom().contains(edge.source));
        assert(g.nodes.contains_key(edge.target) == g.nodes.dom().contains(edge.target));
        assert(h.nodes.contains_key(edge.target) == h.nodes.dom().contains(edge.target));
        assert(after_edges(g, edges, single_value, now).edges =~= after_edges(
            h,
            edges,
            single_value,
            now,
        ).edges);
    }
}

} // verus!
