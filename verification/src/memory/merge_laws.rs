//! What a merge leaves in the graph, and that a rollback restores it.

use crate::memory::cypher::writes_of;
use crate::memory::graph::{
    EdgeKey, EdgeRow, Graph, NodeRow, Write, edge_keys, lemma_after_concat,
};
use crate::memory::merge::{
    MergeCase, MergePlan, equivalent, is_plan, rollback_writes, seen_from,
};
use vstd::prelude::*;

verus! {

/// Whether one of the edges has the natural key.
pub open spec fn has_key(edges: Seq<EdgeRow>, key: EdgeKey) -> bool {
    exists|i: int| 0 <= i < edges.len() && (#[trigger] edges[i]).key() == key
}

/// Whether the edges are exactly the graph's edges that touch the node, each once.
pub open spec fn lists_edges(g: Graph, node: Seq<char>, edges: Seq<EdgeRow>) -> bool {
    &&& forall|i: int|
        0 <= i < edges.len() ==> g.edges.contains_key((#[trigger] edges[i]).key())
            && g.edges[edges[i].key()] == edges[i] && edges[i].key().touches(node)
    &&& forall|k: EdgeKey| #[trigger]
        g.edges.contains_key(k) && k.touches(node) ==> has_key(edges, k)
    &&& forall|i: int, j: int|
        0 <= i < j < edges.len() ==> (#[trigger] edges[i]).key() != (#[trigger] edges[j]).key()
}

/// Whether the merge runs on this graph: both nodes are there and differ, and the
/// edge lists are those of the graph.
pub open spec fn merges_in(g: Graph, case: MergeCase, edges: Seq<EdgeRow>) -> bool {
    &&& g.well_formed()
    &&& g.joins(case.loser, case.survivor)
    &&& case.loser != case.survivor
    &&& lists_edges(g, case.loser, edges)
    &&& lists_edges(g, case.survivor, case.survivor_edges)
}

/// The edges of the map but the listed ones.
pub open spec fn without(all: Map<EdgeKey, EdgeRow>, edges: Seq<EdgeRow>) -> Map<EdgeKey, EdgeRow> {
    all.restrict(Set::new(|k: EdgeKey| !has_key(edges, k)))
}

/// The listed edges by key.
pub open spec fn by_key(edges: Seq<EdgeRow>) -> Map<EdgeKey, EdgeRow>
    decreases edges.len(),
{
    if edges.len() == 0 {
        Map::empty()
    } else {
        by_key(edges.drop_last()).insert(edges.last().key(), edges.last())
    }
}

impl MergeCase {
    /// The edges that the merge creates.
    pub open spec fn repointed_all(self, moved: Seq<EdgeRow>) -> Seq<EdgeRow> {
        moved.map_values(|edge: EdgeRow| self.repointed(edge))
    }

    /// The graph after the merge: the loser and its edges are gone, and each moved
    /// edge is there under its new endpoints.
    pub open spec fn merged(self, g: Graph, edges: Seq<EdgeRow>) -> Graph {
        Graph {
            nodes: g.nodes.remove(self.loser),
            edges: without(g.edges, edges).union_prefer_right(
                by_key(self.repointed_all(self.moved(edges))),
            ),
        }
    }
}

proof fn lemma_by_key_contains(edges: Seq<EdgeRow>, key: EdgeKey)
    ensures
        by_key(edges).contains_key(key) <==> has_key(edges, key),
        by_key(edges).contains_key(key) ==> by_key(edges)[key].key() == key,
    decreases edges.len(),
{
    if edges.len() > 0 {
        lemma_by_key_contains(edges.drop_last(), key);
        if has_key(edges, key) {
            let i = choose|i: int| 0 <= i < edges.len() && (#[trigger] edges[i]).key() == key;
            if i < edges.len() - 1 {
                assert(edges.drop_last()[i].key() == key);
            }
        }
        if has_key(edges.drop_last(), key) {
            let i = choose|i: int|
                0 <= i < edges.len() - 1 && (#[trigger] edges.drop_last()[i]).key() == key;
            assert(edges[i].key() == key);
        }
        if edges.last().key() == key {
            assert(edges[edges.len() - 1].key() == key);
        }
    }
}

proof fn lemma_by_key_value(edges: Seq<EdgeRow>, i: int)
    requires
        0 <= i < edges.len(),
        forall|a: int, b: int|
            0 <= a < b < edges.len() ==> (#[trigger] edges[a]).key() != (#[trigger] edges[b]).key(),
    ensures
        by_key(edges).contains_key(edges[i].key()),
        by_key(edges)[edges[i].key()] == edges[i],
    decreases edges.len(),
{
    if i < edges.len() - 1 {
        let front = edges.drop_last();
        assert forall|a: int, b: int| 0 <= a < b < front.len() implies (#[trigger] front[a]).key()
            != (#[trigger] front[b]).key() by {
            assert(front[a] == edges[a]);
            assert(front[b] == edges[b]);
        }
        lemma_by_key_value(front, i);
        assert(edges[i].key() != edges[edges.len() - 1].key());
    }
}

proof fn lemma_moved_from(case: MergeCase, edges: Seq<EdgeRow>, j: int)
    requires
        0 <= j < case.moved(edges).len(),
    ensures
        exists|i: int| 0 <= i < edges.len() && #[trigger] edges[i] == case.moved(edges)[j],
        !case.becomes_loop(case.moved(edges)[j]),
        !case.survivor_has(case.moved(edges)[j]),
    decreases edges.len(),
{
    if edges.len() > 0 {
        let before = case.moved(edges.drop_last());
        if j < before.len() {
            lemma_moved_from(case, edges.drop_last(), j);
            let i = choose|i: int|
                0 <= i < edges.len() - 1 && #[trigger] edges.drop_last()[i] == before[j];
            assert(edges[i] == case.moved(edges)[j]);
        } else {
            assert(edges[edges.len() - 1] == case.moved(edges)[j]);
        }
    }
}

proof fn lemma_repointed_key(g: Graph, case: MergeCase, edges: Seq<EdgeRow>, e: EdgeRow)
    requires
        merges_in(g, case, edges),
        has_row(edges, e),
        !case.becomes_loop(e),
    ensures
        !case.repointed(e).key().touches(case.loser),
        case.repointed(e).key().touches(case.survivor),
        g.joins(case.repointed(e).source, case.repointed(e).target),
        !case.survivor_has(e) ==> !g.edges.contains_key(case.repointed(e).key()),
{
    let i = choose|i: int| 0 <= i < edges.len() && #[trigger] edges[i] == e;
    assert(g.edges.contains_key(edges[i].key()));
    let k = case.repointed(e).key();
    if g.edges.contains_key(k) {
        assert(has_key(case.survivor_edges, k));
        let s = choose|s: int|
            0 <= s < case.survivor_edges.len() && (#[trigger] case.survivor_edges[s]).key() == k;
        let row = case.survivor_edges[s];
        assert(equivalent(seen_from(case.survivor, row), seen_from(case.loser, e)));
        assert(case.survivor_has(e));
    }
}

/// Whether one of the rows is this one.
pub open spec fn has_row(edges: Seq<EdgeRow>, edge: EdgeRow) -> bool {
    exists|i: int| 0 <= i < edges.len() && #[trigger] edges[i] == edge
}

proof fn lemma_created_keys(g: Graph, case: MergeCase, all: Seq<EdgeRow>, n: int, key: EdgeKey)
    requires
        merges_in(g, case, all),
        0 <= n <= all.len(),
        has_key(case.repointed_all(case.moved(all.take(n))), key),
    ensures
        !key.touches(case.loser),
        !g.edges.contains_key(key),
{
    let moved = case.moved(all.take(n));
    let created = case.repointed_all(moved);
    let j = choose|j: int| 0 <= j < created.len() && (#[trigger] created[j]).key() == key;
    lemma_moved_from(case, all.take(n), j);
    let i = choose|i: int| 0 <= i < all.take(n).len() && #[trigger] all.take(n)[i] == moved[j];
    assert(all[i] == moved[j]);
    lemma_repointed_key(g, case, all, moved[j]);
}

/// The graph after the writes for the first `n` edges of the loser.
spec fn partly_merged(g: Graph, case: MergeCase, edges: Seq<EdgeRow>) -> Graph {
    Graph {
        nodes: g.nodes,
        edges: without(g.edges, edges).union_prefer_right(
            by_key(case.repointed_all(case.moved(edges))),
        ),
    }
}

proof fn lemma_edge_writes(g: Graph, case: MergeCase, all: Seq<EdgeRow>, n: int)
    requires
        merges_in(g, case, all),
        0 <= n <= all.len(),
    ensures
        g.after_all(case.edge_writes(all.take(n))) == partly_merged(g, case, all.take(n)),
    decreases n,
{
    let edges = all.take(n);
    if n == 0 {
        assert(edges.len() == 0);
        assert(without(g.edges, edges) =~= g.edges);
        assert(case.moved(edges) =~= Seq::empty());
        assert(case.repointed_all(case.moved(edges)) =~= Seq::empty());
        assert(partly_merged(g, case, edges) =~= g);
    } else {
        lemma_edge_writes(g, case, all, n - 1);
        let front = all.take(n - 1);
        assert(edges.drop_last() =~= front);
        let e = edges.last();
        assert(e == all[n - 1]);
        let before = case.moved(front);
        let here = partly_merged(g, case, front);
        let old_writes = case.edge_writes(front);
        assert forall|k: EdgeKey| has_key(edges, k) <==> has_key(front, k) || k == e.key() by {
            if has_key(edges, k) {
                let i = choose|i: int| 0 <= i < edges.len() && (#[trigger] edges[i]).key() == k;
                if i < n - 1 {
                    assert(front[i].key() == k);
                }
            }
            if has_key(front, k) {
                let i = choose|i: int| 0 <= i < front.len() && (#[trigger] front[i]).key() == k;
                assert(edges[i].key() == k);
            }
            if k == e.key() {
                assert(edges[n - 1].key() == k);
            }
        }
        let created = by_key(case.repointed_all(before));
        assert forall|k: EdgeKey| created.contains_key(k) implies !k.touches(case.loser) by {
            lemma_by_key_contains(case.repointed_all(before), k);
            lemma_created_keys(g, case, all, n - 1, k);
        }
        assert(e.key().touches(case.loser));
        if case.moves(before, e) {
            assert(has_row(all, e)) by {
                assert(all[n - 1] == e);
            }
            lemma_repointed_key(g, case, all, e);
            let row = case.repointed(e);
            let create = Write::CreateEdge { edge: row };
            let delete = Write::DeleteEdge { key: e.key() };
            let w1 = old_writes.push(create);
            let w2 = w1.push(delete);
            assert(w1.drop_last() =~= old_writes);
            assert(w2.drop_last() =~= w1);
            assert(case.edge_writes(edges) == w2);
            assert(case.moved(edges) == before.push(e));
            assert(case.repointed_all(case.moved(edges)) =~= case.repointed_all(before).push(row));
            assert(case.repointed_all(before).push(row).drop_last() =~= case.repointed_all(before));
            assert(by_key(case.repointed_all(case.moved(edges))) == created.insert(row.key(), row));
            assert(g.after_all(w1) == here.after(create));
            assert(g.after_all(w2) == here.after(create).after(delete));
            assert(here.after(create).after(delete).edges =~= partly_merged(
                g,
                case,
                edges,
            ).edges);
        } else {
            let delete = Write::DeleteEdge { key: e.key() };
            assert(old_writes.push(delete).drop_last() =~= old_writes);
            assert(case.edge_writes(edges) == old_writes.push(delete));
            assert(g.after_all(old_writes.push(delete)) == here.after(delete));
            assert(case.moved(edges) == before);
            assert(here.after(delete).edges =~= partly_merged(g, case, edges).edges);
        }
    }
}

/// Merging leaves exactly this: the loser is gone with all its edges, every edge
/// that moves is there between its new endpoints, and nothing else changed.
pub proof fn law_merge_result(g: Graph, case: MergeCase, edges: Seq<EdgeRow>)
    requires
        merges_in(g, case, edges),
    ensures
        g.after_all(case.writes(edges)) == case.merged(g, edges),
        case.merged(g, edges).well_formed(),
        forall|k: EdgeKey| #[trigger]
            case.merged(g, edges).edges.contains_key(k) ==> !k.touches(case.loser),
        forall|k: EdgeKey|
            g.edges.contains_key(k) && !k.touches(case.loser)
                ==> #[trigger] case.merged(g, edges).edges.contains_key(k)
                && case.merged(g, edges).edges[k] == g.edges[k],
{
    lemma_edge_writes(g, case, edges, edges.len() as int);
    assert(edges.take(edges.len() as int) =~= edges);
    let detach = Write::DetachDeleteNode { id: case.loser };
    assert(case.writes(edges).drop_last() =~= case.edge_writes(edges));
    let here = partly_merged(g, case, edges);
    let there = case.merged(g, edges);
    let created = case.repointed_all(case.moved(edges));
    assert forall|k: EdgeKey| #[trigger] there.edges.contains_key(k) implies !k.touches(
        case.loser,
    ) by {
        lemma_by_key_contains(created, k);
        if has_key(created, k) {
            lemma_created_keys(g, case, edges, edges.len() as int, k);
        }
    }
    assert(here.after(detach).edges =~= there.edges);
    assert forall|k: EdgeKey| g.edges.contains_key(k) && !k.touches(
        case.loser,
    ) implies #[trigger] there.edges.contains_key(k) && there.edges[k] == g.edges[k] by {
        lemma_by_key_contains(created, k);
        if has_key(created, k) {
            lemma_created_keys(g, case, edges, edges.len() as int, k);
        }
        if has_key(edges, k) {
            let i = choose|i: int| 0 <= i < edges.len() && (#[trigger] edges[i]).key() == k;
        }
    }
    assert forall|k: EdgeKey| #[trigger] there.edges.contains_key(k) implies there.edges[k].key()
        == k && there.nodes.contains_key(k.source) && there.nodes.contains_key(k.target) by {
        lemma_by_key_contains(created, k);
        if has_key(created, k) {
            let j = choose|j: int| 0 <= j < created.len() && (#[trigger] created[j]).key() == k;
            lemma_moved_from(case, edges, j);
            let i = choose|i: int|
                0 <= i < edges.len() && #[trigger] edges[i] == case.moved(edges)[j];
            assert(has_row(edges, case.moved(edges)[j]));
            lemma_repointed_key(g, case, edges, case.moved(edges)[j]);
        } else {
            assert(g.edges.contains_key(k));
        }
    }
}

/// No created edge takes the natural key of an edge that was already there, and no
/// two created edges share a key.
pub proof fn law_created_edges_are_fresh(g: Graph, case: MergeCase, edges: Seq<EdgeRow>)
    requires
        merges_in(g, case, edges),
    ensures
        forall|i: int|
            0 <= i < case.created(edges).len() ==> !g.edges.contains_key(
                #[trigger] case.created(edges)[i],
            ),
        forall|i: int, j: int|
            0 <= i < j < case.created(edges).len() ==> #[trigger] case.created(edges)[i]
                != #[trigger] case.created(edges)[j],
{
    let created = case.repointed_all(case.moved(edges));
    assert(edges.take(edges.len() as int) =~= edges);
    assert forall|i: int| 0 <= i < case.created(edges).len() implies !g.edges.contains_key(
        #[trigger] case.created(edges)[i],
    ) by {
        assert(created[i].key() == case.created(edges)[i]);
        lemma_created_keys(g, case, edges, edges.len() as int, case.created(edges)[i]);
    }
    assert forall|i: int, j: int| 0 <= i < j < case.created(edges).len() implies #[trigger] case.created(
    edges)[i] != #[trigger] case.created(edges)[j] by {
        lemma_moved_not_equivalent(case, edges, i, j);
        lemma_moved_from(case, edges, i);
        lemma_moved_from(case, edges, j);
        let a = case.moved(edges)[i];
        let b = case.moved(edges)[j];
        assert(!case.becomes_loop(a));
        assert(!case.becomes_loop(b));
        if case.repointed(a).key() == case.repointed(b).key() {
            assert(equivalent(seen_from(case.loser, a), seen_from(case.loser, b)));
        }
    }
}

proof fn lemma_moved_not_equivalent(case: MergeCase, edges: Seq<EdgeRow>, i: int, j: int)
    requires
        0 <= i < j < case.moved(edges).len(),
    ensures
        !equivalent(
            seen_from(case.loser, case.moved(edges)[i]),
            seen_from(case.loser, case.moved(edges)[j]),
        ),
    decreases edges.len(),
{
    let before = case.moved(edges.drop_last());
    if j < before.len() {
        lemma_moved_not_equivalent(case, edges.drop_last(), i, j);
    } else {
        assert(!case.already_moved(before, edges.last()));
        assert(case.moved(edges)[i] == before[i]);
    }
}

// ----- what becomes of each fact -----

/// Where the source of the loser's edge is after the merge.
pub open spec fn new_source(case: MergeCase, edge: EdgeRow) -> Seq<char> {
    if edge.source == case.loser {
        case.survivor
    } else {
        edge.source
    }
}

/// Where the target of the loser's edge is after the merge.
pub open spec fn new_target(case: MergeCase, edge: EdgeRow) -> Seq<char> {
    if edge.target == case.loser {
        case.survivor
    } else {
        edge.target
    }
}

proof fn lemma_moved_prefix(case: MergeCase, edges: Seq<EdgeRow>, i: int)
    requires
        0 <= i <= edges.len(),
    ensures
        case.moved(edges.take(i)).len() <= case.moved(edges).len(),
        forall|j: int|
            0 <= j < case.moved(edges.take(i)).len() ==> #[trigger] case.moved(edges.take(i))[j]
                == case.moved(edges)[j],
    decreases edges.len() - i,
{
    if i == edges.len() {
        assert(edges.take(i) =~= edges);
    } else {
        lemma_moved_prefix(case, edges, i + 1);
        assert(edges.take(i + 1).drop_last() =~= edges.take(i));
        let shorter = case.moved(edges.take(i));
        let longer = case.moved(edges.take(i + 1));
        assert forall|j: int| 0 <= j < shorter.len() implies #[trigger] shorter[j] == case.moved(
            edges,
        )[j] by {
            assert(longer[j] == shorter[j]);
        }
    }
}

proof fn lemma_mover_is_moved(case: MergeCase, edges: Seq<EdgeRow>, i: int) -> (j: int)
    requires
        0 <= i < edges.len(),
        case.moves(case.moved(edges.take(i)), edges[i]),
    ensures
        0 <= j < case.moved(edges).len(),
        case.moved(edges)[j] == edges[i],
{
    assert(edges.take(i + 1).drop_last() =~= edges.take(i));
    assert(edges.take(i + 1).last() == edges[i]);
    lemma_moved_prefix(case, edges, i + 1);
    let j = case.moved(edges.take(i)).len() as int;
    assert(case.moved(edges.take(i + 1))[j] == edges[i]);
    j
}

/// Each moved edge is in the merged graph under its new endpoints.
proof fn lemma_moved_row(g: Graph, case: MergeCase, edges: Seq<EdgeRow>, j: int)
    requires
        merges_in(g, case, edges),
        0 <= j < case.moved(edges).len(),
    ensures
        ({
            let row = case.repointed(case.moved(edges)[j]);
            &&& case.merged(g, edges).edges.contains_key(row.key())
            &&& case.merged(g, edges).edges[row.key()] == row
        }),
{
    let created = case.repointed_all(case.moved(edges));
    law_created_edges_are_fresh(g, case, edges);
    assert forall|a: int, b: int| 0 <= a < b < created.len() implies (#[trigger] created[a]).key()
        != (#[trigger] created[b]).key() by {
        assert(case.created(edges)[a] == created[a].key());
        assert(case.created(edges)[b] == created[b].key());
    }
    lemma_by_key_value(created, j);
    assert(created[j] == case.repointed(case.moved(edges)[j]));
}

/// No fact of the loser is lost in a merge: unless it would join the survivor to itself,
/// the merged graph has an edge between the new endpoints, of the same relationship, that
/// agrees with it in the text or in the instant.
pub proof fn law_no_fact_is_lost(
    g: Graph,
    case: MergeCase,
    node: NodeRow,
    edges: Seq<EdgeRow>,
    plan: MergePlan,
    i: int,
)
    requires
        merges_in(g, case, edges),
        is_plan(plan, case, node, edges),
        0 <= i < edges.len(),
        !(new_source(case, edges[i]) == case.survivor && new_target(case, edges[i])
            == case.survivor),
    ensures
        ({
            let h = g.after_all(writes_of(plan.writes@));
            let lost = edges[i];
            exists|k: EdgeKey|
                {
                    &&& #[trigger] h.edges.contains_key(k)
                    &&& k.source == new_source(case, lost)
                    &&& k.target == new_target(case, lost)
                    &&& k.relationship == lost.relationship
                    &&& h.edges[k].text == lost.text || k.valid_at == lost.valid_at.unix_nanos()
                }
        }),
{
    let h = g.after_all(writes_of(plan.writes@));
    let e = edges[i];
    let before = case.moved(edges.take(i));
    law_merge_result(g, case, edges);
    assert(g.edges.contains_key(e.key()) && e.key().touches(case.loser));
    assert(!case.becomes_loop(e));
    if case.survivor_has(e) {
        let s = choose|s: int|
            0 <= s < case.survivor_edges.len() && equivalent(
                seen_from(case.survivor, #[trigger] case.survivor_edges[s]),
                seen_from(case.loser, e),
            );
        let row = case.survivor_edges[s];
        assert(g.edges.contains_key(row.key()) && g.edges[row.key()] == row);
        assert(!row.key().touches(case.loser));
        assert(h.edges.contains_key(row.key()));
    } else if case.already_moved(before, e) {
        let j = choose|j: int|
            0 <= j < before.len() && equivalent(
                seen_from(case.loser, #[trigger] before[j]),
                seen_from(case.loser, e),
            );
        lemma_moved_prefix(case, edges, i);
        lemma_moved_from(case, edges, j);
        assert(case.moved(edges)[j] == before[j]);
        let m = choose|m: int| 0 <= m < edges.len() && #[trigger] edges[m] == case.moved(edges)[j];
        assert(g.edges.contains_key(edges[m].key()) && edges[m].key().touches(case.loser));
        lemma_moved_row(g, case, edges, j);
        assert(h.edges.contains_key(case.repointed(before[j]).key()));
    } else {
        let j = lemma_mover_is_moved(case, edges, i);
        lemma_moved_row(g, case, edges, j);
        assert(h.edges.contains_key(case.repointed(e).key()));
    }
}

/// A fact of the loser that agrees with no edge of the survivor, and with no earlier edge
/// of the loser, in text or instant moves to the survivor as it is: only its update time
/// is new. Agreeing counts between the same new endpoints and under one relationship.
pub proof fn law_new_facts_move(
    g: Graph,
    case: MergeCase,
    node: NodeRow,
    edges: Seq<EdgeRow>,
    plan: MergePlan,
    i: int,
)
    requires
        merges_in(g, case, edges),
        is_plan(plan, case, node, edges),
        0 <= i < edges.len(),
        !(new_source(case, edges[i]) == case.survivor && new_target(case, edges[i])
            == case.survivor),
        forall|s: int|
            0 <= s < case.survivor_edges.len() && (#[trigger] case.survivor_edges[s]).source
                == new_source(case, edges[i]) && case.survivor_edges[s].target == new_target(
                case,
                edges[i],
            ) && case.survivor_edges[s].relationship == edges[i].relationship
                ==> case.survivor_edges[s].text != edges[i].text
                && case.survivor_edges[s].valid_at.unix_nanos() != edges[i].valid_at.unix_nanos(),
        forall|j: int|
            0 <= j < i && new_source(case, #[trigger] edges[j]) == new_source(case, edges[i])
                && new_target(case, edges[j]) == new_target(case, edges[i])
                && edges[j].relationship == edges[i].relationship ==> edges[j].text
                != edges[i].text && edges[j].valid_at.unix_nanos()
                != edges[i].valid_at.unix_nanos(),
    ensures
        ({
            let h = g.after_all(writes_of(plan.writes@));
            let moved = edges[i];
            let key = EdgeKey {
                source: new_source(case, moved),
                relationship: moved.relationship,
                target: new_target(case, moved),
                valid_at: moved.valid_at.unix_nanos(),
            };
            &&& !g.edges.contains_key(key)
            &&& h.edges.contains_key(key)
            &&& h.edges[key].source == new_source(case, moved)
            &&& h.edges[key].target == new_target(case, moved)
            &&& h.edges[key].relationship == moved.relationship
            &&& h.edges[key].text == moved.text
            &&& h.edges[key].valid_at == moved.valid_at
            &&& h.edges[key].invalid_at == moved.invalid_at
            &&& h.edges[key].created_at == moved.created_at
            &&& h.edges[key].properties == moved.properties
            &&& h.edges[key].updated_at == case.now
        }),
{
    let e = edges[i];
    let before = case.moved(edges.take(i));
    law_merge_result(g, case, edges);
    assert(g.edges.contains_key(e.key()) && e.key().touches(case.loser));
    assert(!case.becomes_loop(e));
    if case.survivor_has(e) {
        let s = choose|s: int|
            0 <= s < case.survivor_edges.len() && equivalent(
                seen_from(case.survivor, #[trigger] case.survivor_edges[s]),
                seen_from(case.loser, e),
            );
        assert(case.survivor_edges[s].key().touches(case.survivor));
        assert(case.survivor_edges[s].source == new_source(case, e));
    }
    if case.already_moved(before, e) {
        let j = choose|j: int|
            0 <= j < before.len() && equivalent(
                seen_from(case.loser, #[trigger] before[j]),
                seen_from(case.loser, e),
            );
        lemma_moved_from(case, edges.take(i), j);
        let m = choose|m: int|
            0 <= m < edges.take(i).len() && #[trigger] edges.take(i)[m] == before[j];
        assert(edges[m] == before[j]);
        assert(edges[m].key().touches(case.loser));
        assert(new_source(case, edges[m]) == new_source(case, e));
    }
    let j = lemma_mover_is_moved(case, edges, i);
    lemma_moved_row(g, case, edges, j);
    law_created_edges_are_fresh(g, case, edges);
    assert(case.created(edges)[j] == case.repointed(e).key());
    assert(case.repointed(e).key() =~= (EdgeKey {
        source: new_source(case, e),
        relationship: e.relationship,
        target: new_target(case, e),
        valid_at: e.valid_at.unix_nanos(),
    }));
}

/// A merge repeats no fact: an edge that it creates agrees, between its endpoints and
/// under its relationship, with no edge of the survivor and with no other created edge,
/// neither in text nor in instant. It comes from an edge of the loser, and its natural
/// key is one of those that the snapshot lists as created, which are as many as the plan
/// counts as moved.
pub proof fn law_no_fact_is_repeated(
    g: Graph,
    case: MergeCase,
    node: NodeRow,
    edges: Seq<EdgeRow>,
    plan: MergePlan,
    key: EdgeKey,
)
    requires
        merges_in(g, case, edges),
        is_plan(plan, case, node, edges),
        g.after_all(writes_of(plan.writes@)).edges.contains_key(key),
        !g.edges.contains_key(key),
    ensures
        ({
            let h = g.after_all(writes_of(plan.writes@));
            let row = h.edges[key];
            &&& forall|s: int|
                0 <= s < case.survivor_edges.len() && (#[trigger] case.survivor_edges[s]).source
                    == key.source && case.survivor_edges[s].target == key.target
                    && case.survivor_edges[s].relationship == key.relationship
                    ==> case.survivor_edges[s].text != row.text
                    && case.survivor_edges[s].valid_at.unix_nanos() != key.valid_at
            &&& forall|k: EdgeKey| #[trigger]
                h.edges.contains_key(k) && !g.edges.contains_key(k) && k != key && k.source
                    == key.source && k.target == key.target && k.relationship == key.relationship
                    ==> h.edges[k].text != row.text && k.valid_at != key.valid_at
            &&& exists|i: int|
                {
                    &&& 0 <= i < edges.len()
                    &&& new_source(case, #[trigger] edges[i]) == key.source
                    &&& new_target(case, edges[i]) == key.target
                    &&& edges[i].relationship == key.relationship
                    &&& edges[i].text == row.text
                    &&& edges[i].valid_at.unix_nanos() == key.valid_at
                }
            &&& exists|c: int|
                0 <= c < plan.done.snapshot.created_edges@.len() && (
                #[trigger] plan.done.snapshot.created_edges@[c])@ == key
            &&& plan.done.edges_moved == plan.done.snapshot.created_edges@.len()
        }),
{
    let h = g.after_all(writes_of(plan.writes@));
    law_merge_result(g, case, edges);
    let j = lemma_created_index(g, case, edges, key);
    let from = case.moved(edges)[j];
    lemma_moved_row(g, case, edges, j);
    lemma_moved_from(case, edges, j);
    let i = choose|i: int| 0 <= i < edges.len() && #[trigger] edges[i] == from;
    assert(edges[i].key().touches(case.loser));
    assert(new_source(case, edges[i]) == key.source);
    assert forall|s: int|
        0 <= s < case.survivor_edges.len() && (#[trigger] case.survivor_edges[s]).source
            == key.source && case.survivor_edges[s].target == key.target
            && case.survivor_edges[s].relationship
            == key.relationship implies case.survivor_edges[s].text != h.edges[key].text
        && case.survivor_edges[s].valid_at.unix_nanos() != key.valid_at by {
        let x = case.survivor_edges[s];
        assert(x.key().touches(case.survivor));
        assert(!equivalent(seen_from(case.survivor, x), seen_from(case.loser, from)));
    }
    assert forall|k: EdgeKey| #[trigger]
        h.edges.contains_key(k) && !g.edges.contains_key(k) && k != key && k.source == key.source
            && k.target == key.target && k.relationship == key.relationship implies h.edges[k].text
        != h.edges[key].text && k.valid_at != key.valid_at by {
        let m = lemma_created_index(g, case, edges, k);
        lemma_moved_row(g, case, edges, m);
        lemma_moved_from(case, edges, m);
        let other = case.moved(edges)[m];
        let o = choose|o: int| 0 <= o < edges.len() && #[trigger] edges[o] == other;
        assert(edges[o].key().touches(case.loser));
        if m < j {
            lemma_moved_not_equivalent(case, edges, m, j);
        } else {
            lemma_moved_not_equivalent(case, edges, j, m);
        }
    }
    let listed = plan.done.snapshot.created_edges@;
    assert(edge_keys(listed) == case.created(edges));
    assert(edge_keys(listed).len() == listed.len());
    assert(case.created(edges).len() == case.moved(edges).len());
    assert(edge_keys(listed)[j] == listed[j]@);
    assert(plan.done.snapshot.created_edges@[j]@ == key);
}

/// An edge that only the merged graph has is one of the moved ones.
proof fn lemma_created_index(g: Graph, case: MergeCase, edges: Seq<EdgeRow>, key: EdgeKey) -> (j:
    int)
    requires
        merges_in(g, case, edges),
        case.merged(g, edges).edges.contains_key(key),
        !g.edges.contains_key(key),
    ensures
        0 <= j < case.moved(edges).len(),
        case.repointed(case.moved(edges)[j]).key() == key,
        case.created(edges)[j] == key,
{
    let created = case.repointed_all(case.moved(edges));
    lemma_by_key_contains(created, key);
    let j = choose|j: int| 0 <= j < created.len() && (#[trigger] created[j]).key() == key;
    assert(case.created(edges)[j] == key);
    j
}

/// Whether the merge would join the survivor to itself with the edge.
pub open spec fn joins_itself(case: MergeCase, edge: EdgeRow) -> bool {
    new_source(case, edge) == case.survivor && new_target(case, edge) == case.survivor
}

/// The counts of a merge: what would join the survivor to itself is counted as dropped,
/// what moves is counted as moved, and each other edge is counted as a repetition.
pub proof fn law_merge_counts(
    g: Graph,
    case: MergeCase,
    node: NodeRow,
    edges: Seq<EdgeRow>,
    plan: MergePlan,
)
    requires
        merges_in(g, case, edges),
        is_plan(plan, case, node, edges),
    ensures
        plan.done.self_loops_dropped == edges.filter(|e: EdgeRow| joins_itself(case, e)).len(),
        plan.done.edges_moved == plan.done.snapshot.created_edges@.len(),
        plan.done.edges_moved + plan.done.self_loops_dropped + plan.done.edges_deduped
            == edges.len(),
{
    assert forall|i: int| 0 <= i < edges.len() implies (#[trigger] edges[i]).source == case.loser
        || edges[i].target == case.loser by {
        assert(edges[i].key().touches(case.loser));
    }
    lemma_loops_counted(case, edges);
    assert(edge_keys(plan.done.snapshot.created_edges@).len()
        == plan.done.snapshot.created_edges@.len());
}

proof fn lemma_loops_counted(case: MergeCase, edges: Seq<EdgeRow>)
    requires
        case.loser != case.survivor,
        forall|i: int|
            0 <= i < edges.len() ==> (#[trigger] edges[i]).source == case.loser || edges[i].target
                == case.loser,
    ensures
        case.loops(edges) == edges.filter(|e: EdgeRow| joins_itself(case, e)).len(),
    decreases edges.len(),
{
    reveal(Seq::filter);
    if edges.len() > 0 {
        let front = edges.drop_last();
        assert forall|i: int| 0 <= i < front.len() implies (#[trigger] front[i]).source
            == case.loser || front[i].target == case.loser by {
            assert(front[i] == edges[i]);
        }
        lemma_loops_counted(case, front);
        let e = edges[edges.len() - 1];
        assert(case.becomes_loop(e) == joins_itself(case, e));
    }
}

// ----- rollback -----

/// The edges of the map but those with one of the keys.
pub open spec fn without_keys(all: Map<EdgeKey, EdgeRow>, keys: Seq<EdgeKey>) -> Map<
    EdgeKey,
    EdgeRow,
> {
    all.restrict(Set::new(|k: EdgeKey| !keys.contains(k)))
}

proof fn lemma_restore_edges(g: Graph, edges: Seq<EdgeRow>)
    requires
        forall|i: int|
            0 <= i < edges.len() ==> g.joins((#[trigger] edges[i]).source, edges[i].target),
    ensures
        g.after_all(edges.map_values(|edge: EdgeRow| Write::CreateEdge { edge })) == (Graph {
            nodes: g.nodes,
            edges: g.edges.union_prefer_right(by_key(edges)),
        }),
    decreases edges.len(),
{
    let writes = edges.map_values(|edge: EdgeRow| Write::CreateEdge { edge });
    if edges.len() == 0 {
        assert(g.edges.union_prefer_right(by_key(edges)) =~= g.edges);
    } else {
        let front = edges.drop_last();
        assert forall|i: int| 0 <= i < front.len() implies g.joins(
            (#[trigger] front[i]).source,
            front[i].target,
        ) by {
            assert(front[i] == edges[i]);
        }
        lemma_restore_edges(g, front);
        assert(writes.drop_last() =~= front.map_values(|edge: EdgeRow| Write::CreateEdge { edge }));
        let here = g.after_all(writes.drop_last());
        assert(edges[edges.len() - 1] == edges.last());
        assert(here.joins(edges.last().source, edges.last().target));
        assert(here.after(writes.last()).edges =~= g.edges.union_prefer_right(by_key(edges)));
    }
}

proof fn lemma_delete_keys(g: Graph, keys: Seq<EdgeKey>)
    ensures
        g.after_all(keys.map_values(|key: EdgeKey| Write::DeleteEdge { key })) == (Graph {
            nodes: g.nodes,
            edges: without_keys(g.edges, keys),
        }),
    decreases keys.len(),
{
    let writes = keys.map_values(|key: EdgeKey| Write::DeleteEdge { key });
    if keys.len() == 0 {
        assert(without_keys(g.edges, keys) =~= g.edges);
    } else {
        let front = keys.drop_last();
        lemma_delete_keys(g, front);
        assert(writes.drop_last() =~= front.map_values(|key: EdgeKey| Write::DeleteEdge { key }));
        assert forall|k: EdgeKey| keys.contains(k) <==> front.contains(k) || k == keys.last() by {
            if keys.contains(k) {
                let i = choose|i: int| 0 <= i < keys.len() && keys[i] == k;
                if i < front.len() {
                    assert(front[i] == k);
                }
            }
            if front.contains(k) {
                let i = choose|i: int| 0 <= i < front.len() && front[i] == k;
                assert(keys[i] == k);
            }
            if k == keys.last() {
                assert(keys[keys.len() - 1] == k);
            }
        }
        assert(g.after_all(writes.drop_last()).after(writes.last()).edges =~= without_keys(
            g.edges,
            keys,
        ));
    }
}

/// A rollback puts the node and its edges back and takes the created edges away,
/// whatever graph it runs on that has the other endpoints.
pub proof fn law_rollback_result(
    g: Graph,
    node: NodeRow,
    edges: Seq<EdgeRow>,
    created: Seq<EdgeKey>,
)
    requires
        forall|i: int|
            0 <= i < edges.len() ==> g.nodes.insert(node.id, node).contains_key(
                (#[trigger] edges[i]).source,
            ) && g.nodes.insert(node.id, node).contains_key(edges[i].target),
    ensures
        g.after_all(rollback_writes(node, edges, created)) == (Graph {
            nodes: g.nodes.insert(node.id, node),
            edges: without_keys(g.edges.union_prefer_right(by_key(edges)), created),
        }),
{
    let first = seq![Write::CreateNode { node }];
    let second = edges.map_values(|edge: EdgeRow| Write::CreateEdge { edge });
    let third = created.map_values(|key: EdgeKey| Write::DeleteEdge { key });
    lemma_after_concat(g, first + second, third);
    lemma_after_concat(g, first, second);
    assert(first.drop_last() =~= Seq::empty());
    assert(g.after_all(first.drop_last()) == g);
    let a = g.after_all(first);
    lemma_restore_edges(a, edges);
    lemma_delete_keys(a.after_all(second), created);
}

/// Rolling a merge back restores the graph exactly.
pub proof fn law_merge_then_rollback(g: Graph, case: MergeCase, edges: Seq<EdgeRow>)
    requires
        merges_in(g, case, edges),
    ensures
        g.after_all(case.writes(edges)).after_all(
            rollback_writes(g.nodes[case.loser], edges, case.created(edges)),
        ) == g,
{
    law_merge_result(g, case, edges);
    law_rollback_after_changes(g, case, edges, case.merged(g, edges));
    let back = g.after_all(case.writes(edges)).after_all(
        rollback_writes(g.nodes[case.loser], edges, case.created(edges)),
    );
    assert forall|k: EdgeKey| #[trigger] g.edges.contains_key(k) implies back.edges[k]
        == g.edges[k] by {
        lemma_by_key_contains(case.repointed_all(case.moved(edges)), k);
        if has_key(case.repointed_all(case.moved(edges)), k) {
            assert(edges.take(edges.len() as int) =~= edges);
            lemma_created_keys(g, case, edges, edges.len() as int, k);
        }
    }
    assert(back.edges =~= g.edges);
    assert(back.nodes =~= g.nodes);
}

/// Rolling a merge back after the merged graph changed, with no node or natural key
/// added or removed: the nodes and the natural keys are those from before the
/// merge, the loser's edges are as they were, and every other edge is as the
/// changes left it.
pub proof fn law_rollback_after_changes(
    g: Graph,
    case: MergeCase,
    edges: Seq<EdgeRow>,
    changed: Graph,
)
    requires
        merges_in(g, case, edges),
        changed.nodes == case.merged(g, edges).nodes,
        changed.edges.dom() == case.merged(g, edges).edges.dom(),
    ensures
        ({
            let back = changed.after_all(
                rollback_writes(g.nodes[case.loser], edges, case.created(edges)),
            );
            &&& back.nodes == g.nodes
            &&& back.edges.dom() == g.edges.dom()
            &&& forall|k: EdgeKey| #[trigger]
                g.edges.contains_key(k) ==> back.edges[k] == (if k.touches(case.loser) {
                    g.edges[k]
                } else {
                    changed.edges[k]
                })
        }),
{
    let node = g.nodes[case.loser];
    let created = case.created(edges);
    let rows = case.repointed_all(case.moved(edges));
    let merged = case.merged(g, edges);
    assert(node.id == case.loser);
    assert forall|i: int| 0 <= i < edges.len() implies changed.nodes.insert(
        node.id,
        node,
    ).contains_key((#[trigger] edges[i]).source) && changed.nodes.insert(
        node.id,
        node,
    ).contains_key(edges[i].target) by {
        assert(g.edges.contains_key(edges[i].key()));
    }
    law_rollback_result(changed, node, edges, created);
    law_created_edges_are_fresh(g, case, edges);
    let back = changed.after_all(rollback_writes(node, edges, created));
    assert(back.nodes =~= g.nodes);
    assert forall|k: EdgeKey| created.contains(k) <==> has_key(rows, k) by {
        if created.contains(k) {
            let i = choose|i: int| 0 <= i < created.len() && created[i] == k;
            assert(rows[i].key() == k);
        }
        if has_key(rows, k) {
            let i = choose|i: int| 0 <= i < rows.len() && (#[trigger] rows[i]).key() == k;
            assert(created[i] == k);
        }
    }
    assert forall|k: EdgeKey|
        #![trigger back.edges.contains_key(k)]
        #![trigger g.edges.contains_key(k)]
        back.edges.contains_key(k) <==> g.edges.contains_key(k) by {
        lemma_by_key_contains(edges, k);
        lemma_by_key_contains(rows, k);
        assert(merged.edges.dom().contains(k) == changed.edges.dom().contains(k));
        if created.contains(k) {
            let i = choose|i: int| 0 <= i < created.len() && created[i] == k;
            assert(!g.edges.contains_key(created[i]));
        }
        if has_key(edges, k) {
            let i = choose|i: int| 0 <= i < edges.len() && (#[trigger] edges[i]).key() == k;
        }
    }
    assert(back.edges.dom() =~= g.edges.dom());
    assert forall|k: EdgeKey| #[trigger] g.edges.contains_key(k) implies back.edges[k] == (
    if k.touches(case.loser) {
        g.edges[k]
    } else {
        changed.edges[k]
    }) by {
        lemma_by_key_contains(edges, k);
        if k.touches(case.loser) {
            assert(has_key(edges, k));
            let i = choose|i: int| 0 <= i < edges.len() && (#[trigger] edges[i]).key() == k;
            lemma_by_key_value(edges, i);
        } else if has_key(edges, k) {
            let i = choose|i: int| 0 <= i < edges.len() && (#[trigger] edges[i]).key() == k;
            assert(false);
        }
    }
}

} // verus!
