//! The course of a merge with its single-value pass, from the first write to the end.

use crate::memory::cypher::{GraphWrite, writes_of};
use crate::memory::graph::{EdgeKey, EdgeRow, Graph, NodeRow};
use crate::memory::merge::{
    MergeCase, MergeDone, MergeNext, MergeState, is_merge_of, pass_start, pass_step,
};
use crate::memory::merge_laws::{law_merge_result, merges_in};
use crate::memory::rows::Row;
use crate::memory::single_value::{
    distinct, is_ranked, law_pass_leaves_at_most_one, lemma_distinct, lists_valid, pass_graph,
    pass_runs, stale_count, stale_writes,
};
use crate::memory::types::EdgeId;
use crate::text::texts;
use vstd::prelude::*;

verus! {

/// The writes that come next.
pub open spec fn next_writes(next: MergeNext) -> Seq<GraphWrite> {
    match next {
        MergeNext::Ask { .. } => Seq::empty(),
        MergeNext::WriteAndAsk { writes, .. } => writes@,
        MergeNext::Finish { writes, .. } => writes@,
    }
}

/// Whether the decision is the step of the pass that takes the rows in the state that
/// the decision before it led to.
pub open spec fn follows(before: MergeNext, rows: Seq<Row>, after: MergeNext) -> bool {
    before matches MergeNext::WriteAndAsk { state: MergeState::Pass { done, pass }, .. }
        && pass_step(done, pass, rows, after)
}

/// Whether the decisions are those of one merge, from its first writes to its end, with
/// the rows that the reads between them gave.
pub open spec fn is_course(
    case: MergeCase,
    node: NodeRow,
    edges: Seq<EdgeRow>,
    registry: Seq<Seq<char>>,
    reads: Seq<Seq<Row>>,
    course: Seq<MergeNext>,
) -> bool {
    &&& course.len() == reads.len() + 1
    &&& pass_start(case, node, edges, registry, course[0])
    &&& forall|i: int|
        0 <= i < reads.len() ==> follows(course[i], #[trigger] reads[i], course[i + 1])
    &&& course.last() is Finish
}

/// The graph after the writes of the decisions, in order.
pub open spec fn course_graph(g: Graph, course: Seq<MergeNext>) -> Graph
    decreases course.len(),
{
    if course.len() == 0 {
        g
    } else {
        course_graph(g, course.drop_last()).after_all(writes_of(next_writes(course.last())))
    }
}

/// Whether each step ranks the valid edges that the survivor has of the relationship at
/// that time, and the writes after it are those of the step.
pub open spec fn reads_graph(
    g: Graph,
    case: MergeCase,
    registry: Seq<Seq<char>>,
    course: Seq<MergeNext>,
    steps: Seq<Seq<EdgeId>>,
) -> bool {
    &&& course.len() == steps.len() + 1
    &&& steps.len() == distinct(registry).len()
    &&& forall|i: int|
        0 <= i < steps.len() ==> {
            &&& is_ranked(#[trigger] steps[i])
            &&& lists_valid(
                course_graph(g, course.take(i + 1)),
                case.survivor,
                distinct(registry)[i],
                steps[i],
            )
            &&& writes_of(next_writes(course[i + 1])) == stale_writes(steps[i], case.now)
        }
}

/// What a merge has counted, wherever its pass stands.
spec fn counted(next: MergeNext) -> Option<MergeDone> {
    match next {
        MergeNext::WriteAndAsk { state: MergeState::Pass { done, .. }, .. } => Some(done),
        MergeNext::Finish { done, .. } => Some(done),
        _ => None,
    }
}

/// Where the pass stands after its first steps.
spec fn stands(
    next: MergeNext,
    case: MergeCase,
    node: NodeRow,
    edges: Seq<EdgeRow>,
    registry: Seq<Seq<char>>,
    taken: int,
    count: nat,
) -> bool {
    &&& counted(next) matches Some(done) && is_merge_of(done, case, node, edges)
        && done.single_value_invalidated == count
    &&& next matches MergeNext::WriteAndAsk { state: MergeState::Pass { pass, .. }, .. } ==> {
        &&& pass.next == taken
        &&& pass.invalidated == count
        &&& pass.survivor_id@ == case.survivor
        &&& pass.now == case.now
        &&& texts(pass.predicates@) == distinct(registry)
        &&& taken < distinct(registry).len()
    }
    &&& next is Finish ==> taken == distinct(registry).len()
}

proof fn lemma_course_prefix(
    g: Graph,
    case: MergeCase,
    node: NodeRow,
    edges: Seq<EdgeRow>,
    registry: Seq<Seq<char>>,
    reads: Seq<Seq<Row>>,
    course: Seq<MergeNext>,
    steps: Seq<Seq<EdgeId>>,
    n: int,
)
    requires
        is_course(case, node, edges, registry, reads, course),
        reads_graph(g, case, registry, course, steps),
        merges_in(g, case, edges),
        0 <= n <= steps.len(),
    ensures
        stands(course[n], case, node, edges, registry, n, stale_count(steps.take(n))),
        course_graph(g, course.take(n + 1)) == pass_graph(
            case.merged(g, edges),
            steps.take(n),
            case.now,
        ),
    decreases n,
{
    if n == 0 {
        assert(steps.take(0).len() == 0);
        assert(course.take(1).drop_last() =~= Seq::<MergeNext>::empty());
        assert(course.take(1).last() == course[0]);
        assert(course_graph(g, Seq::<MergeNext>::empty()) == g);
        law_merge_result(g, case, edges);
    } else {
        lemma_course_prefix(g, case, node, edges, registry, reads, course, steps, n - 1);
        let before = course[n - 1];
        let after = course[n];
        assert(follows(before, reads[n - 1], course[n - 1 + 1]));
        assert(is_ranked(steps[n - 1]));
        assert(course.take(n + 1).drop_last() =~= course.take(n));
        assert(course.take(n + 1).last() == after);
        assert(steps.take(n).drop_last() =~= steps.take(n - 1));
        assert(steps.take(n).last() == steps[n - 1]);
        assert(writes_of(next_writes(course[n - 1 + 1])) == stale_writes(steps[n - 1], case.now));
        assert(writes_of(next_writes(after)).len() == next_writes(after).len());
        assert(stale_count(steps.take(n)) == stale_count(steps.take(n - 1)) + next_writes(
            after,
        ).len());
        match before {
            MergeNext::WriteAndAsk { state: MergeState::Pass { done, pass }, .. } => {
                assert(texts(pass.predicates@).len() == pass.predicates@.len());
                assert(pass.next < pass.predicates.len());
            },
            _ => {},
        }
    }
}

/// A merge with a registry ends with the loser gone and, for each single-value
/// relationship of the registry, only the first in rank of the survivor's edges valid,
/// the moved ones counted in. It changes no other edge beyond the merge itself. It
/// reports the counts of its plan, and as invalidated all but one edge of each step.
pub proof fn law_merge_with_registry(
    g: Graph,
    case: MergeCase,
    node: NodeRow,
    edges: Seq<EdgeRow>,
    registry: Seq<Seq<char>>,
    reads: Seq<Seq<Row>>,
    course: Seq<MergeNext>,
    steps: Seq<Seq<EdgeId>>,
)
    requires
        merges_in(g, case, edges),
        is_course(case, node, edges, registry, reads, course),
        reads_graph(g, case, registry, course, steps),
    ensures
        ({
            let merged = case.merged(g, edges);
            let h = course_graph(g, course);
            &&& !h.nodes.contains_key(case.loser)
            &&& h.nodes == merged.nodes
            &&& h.edges.dom() == merged.edges.dom()
            &&& forall|k: EdgeKey| #[trigger] h.edges.contains_key(k) ==> !k.touches(case.loser)
            &&& forall|i: int, k: EdgeKey|
                0 <= i < steps.len() && k.source == case.survivor && k.relationship
                    == #[trigger] distinct(registry)[i] ==> (#[trigger] h.valid_edge(k)
                    <==> steps[i].len() > 0 && k == steps[i][0]@)
            &&& forall|k: EdgeKey| #[trigger]
                merged.edges.contains_key(k) && !(k.source == case.survivor && registry.contains(
                    k.relationship,
                )) ==> h.edges[k] == merged.edges[k]
            &&& course.last() matches MergeNext::Finish { done, .. } && is_merge_of(
                done,
                case,
                node,
                edges,
            ) && done.single_value_invalidated == stale_count(steps)
        }),
{
    let n = steps.len() as int;
    let merged = case.merged(g, edges);
    let names = distinct(registry);
    let h = course_graph(g, course);
    lemma_course_prefix(g, case, node, edges, registry, reads, course, steps, n);
    assert(course.take(n + 1) =~= course);
    assert(steps.take(n) =~= steps);
    assert(pass_runs(merged, case.survivor, names, steps, case.now)) by {
        assert forall|i: int| 0 <= i < steps.len() implies lists_valid(
            pass_graph(merged, #[trigger] steps.take(i), case.now),
            case.survivor,
            names[i],
            steps[i],
        ) && is_ranked(steps[i]) by {
            lemma_course_prefix(g, case, node, edges, registry, reads, course, steps, i);
            assert(is_ranked(steps[i]));
        }
    }
    lemma_distinct(registry);
    law_pass_leaves_at_most_one(merged, case.survivor, names, steps, case.now);
    law_merge_result(g, case, edges);
    assert forall|k: EdgeKey| #[trigger] h.edges.contains_key(k) implies !k.touches(
        case.loser,
    ) by {
        assert(h.edges.dom().contains(k));
        assert(merged.edges.contains_key(k));
    }
    assert forall|k: EdgeKey| #[trigger]
        merged.edges.contains_key(k) && !(k.source == case.survivor && registry.contains(
            k.relationship,
        )) implies h.edges[k] == merged.edges[k] by {
        assert(names.contains(k.relationship) <==> registry.contains(k.relationship));
    }
}

} // verus!
