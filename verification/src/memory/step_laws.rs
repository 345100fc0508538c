//! What the stepwise operations read, in which order, and what they end with.

use crate::memory::cypher::{
    GraphWrite, NODE_FACTS_EDGES, SNAPSHOT_EDGES, SNAPSHOT_NODE, VALID_OUTGOING_EDGES, writes_of,
};
use crate::memory::facts::{FactsNext, FactsState, fact_rows, facts_of, facts_step};
use crate::memory::graph::{EdgeRow, NodeRow, Write, edge_keys, edge_rows};
use crate::memory::merge::{
    MergeCase, MergeDone, MergeNext, MergePlan, MergeState, invalidates_stale, is_merge_of, is_plan,
    merge_step, pass_start, pass_step, ranks_rows,
};
use crate::memory::merge_course::next_writes;
use crate::memory::rows::{
    Row, alias_targets_of, all_edges_decode, columns, snapshot_edges_of, snapshot_node_of, table,
};
use crate::memory::single_value::{
    SingleValuePass, are_targets, distinct, lemma_distinct, stale_writes, targets_decode,
};
use crate::memory::single_value_laws::{
    law_all_but_the_first_are_invalidated, law_first_in_rank_is_newest, law_targets_of_rows,
};
use crate::memory::types::{EdgeId, MemoryError, Result};
use crate::memory::value::{Parameter, Query, Request, Value};
use crate::timestamp::Timestamp;
use vstd::prelude::*;

verus! {

/// The statement with one text under the given name.
pub open spec fn asks(query: Query, cypher: Seq<char>, name: Seq<char>, text: Seq<char>) -> bool {
    query@ == (Request { cypher, params: seq![(name, Parameter::One(Value::Text(text)))] })
}

/// A fact listing enters at the only target of the alias, and at the alias itself where
/// it has none or several. It reads the name of that node and then its edges, and lists
/// the facts under the identifier and the name.
pub proof fn law_facts_of_the_entry(
    alias: String,
    targets_read: Seq<Row>,
    named: FactsState,
    name_query: Query,
    name_read: Seq<Row>,
    listed: FactsState,
    edges_query: Query,
    edges_read: Seq<Row>,
    end: FactsNext,
)
    requires
        facts_step(
            (FactsState::Targets { alias_node_id: alias }),
            targets_read,
            Ok((FactsNext::Ask { state: named, query: name_query })),
        ),
        facts_step(
            named,
            name_read,
            Ok((FactsNext::Ask { state: listed, query: edges_query })),
        ),
        facts_step(listed, edges_read, Ok(end)),
    ensures
        ({
            let targets = alias_targets_of(table(targets_read));
            let entry = if targets.len() == 1 {
                targets[0].node
            } else {
                alias@
            };
            &&& asks(name_query, SNAPSHOT_NODE@, "node_id"@, entry)
            &&& asks(edges_query, NODE_FACTS_EDGES@, "node_id"@, entry)
            &&& name_read.len() > 0 && snapshot_node_of(entry, columns(name_read[0])) is Some
            &&& end matches FactsNext::Done(Some(facts)) && facts.node_id@ == entry
                && facts.node_name@ == snapshot_node_of(entry, columns(name_read[0]))->0.name
                && fact_rows(facts.edges@) == facts_of(entry, table(edges_read))
        }),
{
}

/// A name without an alias node lists nothing; a target that does not exist is an error.
pub proof fn law_facts_of_missing_nodes(alias: String, node: String, r: Result<FactsNext>)
    ensures
        facts_step((FactsState::AliasName { alias_node_id: alias }), Seq::empty(), r)
            <==> r == Ok::<FactsNext, MemoryError>(FactsNext::Done(None)),
        facts_step(
            (FactsState::TargetName { node_id: node, alias_node_id: alias }),
            Seq::empty(),
            r,
        ) <==> (r matches Err(error) && error.is_backend(
            "node_facts: alias target "@ + node@ + " of alias "@ + alias@ + " does not exist"@,
        )),
{
}

/// A merge reads the loser, the survivor, the edges of the loser and those of the
/// survivor, and plans from what these four reads gave: the loser as it was stored, its
/// edges, and the survivor's edges.
pub proof fn law_merge_reads(
    loser: Seq<char>,
    survivor: Seq<char>,
    registry: Seq<Seq<char>>,
    now: Timestamp,
    states: (MergeState, MergeState, MergeState),
    queries: (Query, Query, Query),
    reads: (Seq<Row>, Seq<Row>, Seq<Row>, Seq<Row>),
    next: MergeNext,
)
    requires
        merge_step(
            loser,
            survivor,
            registry,
            MergeState::Loser,
            reads.0,
            now,
            Ok((MergeNext::Ask { state: states.0, query: queries.0 })),
        ),
        merge_step(
            loser,
            survivor,
            registry,
            states.0,
            reads.1,
            now,
            Ok((MergeNext::Ask { state: states.1, query: queries.1 })),
        ),
        merge_step(
            loser,
            survivor,
            registry,
            states.1,
            reads.2,
            now,
            Ok((MergeNext::Ask { state: states.2, query: queries.2 })),
        ),
        merge_step(loser, survivor, registry, states.2, reads.3, now, Ok(next)),
    ensures
        asks(queries.0, SNAPSHOT_NODE@, "node_id"@, survivor),
        asks(queries.1, SNAPSHOT_EDGES@, "node_id"@, loser),
        asks(queries.2, SNAPSHOT_EDGES@, "node_id"@, survivor),
        reads.0.len() > 0 && snapshot_node_of(loser, columns(reads.0[0])) is Some,
        reads.1.len() > 0 && snapshot_node_of(survivor, columns(reads.1[0])) is Some,
        all_edges_decode(table(reads.2)),
        all_edges_decode(table(reads.3)),
        pass_start(
            (MergeCase {
                loser,
                survivor,
                survivor_edges: snapshot_edges_of(table(reads.3)),
                now,
            }),
            snapshot_node_of(loser, columns(reads.0[0]))->0,
            snapshot_edges_of(table(reads.2)),
            registry,
            next,
        ),
{
}

/// A missing node or a row of an unexpected shape stops a merge before any write.
pub proof fn law_merge_refusals(
    loser: Seq<char>,
    survivor: Seq<char>,
    registry: Seq<Seq<char>>,
    state: MergeState,
    rows: Seq<Row>,
    now: Timestamp,
    r: Result<MergeNext>,
)
    requires
        merge_step(loser, survivor, registry, state, rows, now, r),
        state is Loser || state is Survivor || state is LoserEdges || state is SurvivorEdges,
    ensures
        state is Loser || state is Survivor ==> (r is Err <==> rows.len() == 0
            || snapshot_node_of(loser, columns(rows[0])) is None),
        state is LoserEdges || state is SurvivorEdges ==> (r is Err <==> !all_edges_decode(
            table(rows),
        )),
        state is Loser || state is Survivor || state is LoserEdges ==> (r matches Ok(next)
            ==> next is Ask),
{
    assert(snapshot_node_of(loser, columns(rows[0])) is None <==> snapshot_node_of(
        survivor,
        columns(rows[0]),
    ) is None);
}

/// What stops a merge is told: which node is missing, or whose row has an unexpected
/// shape.
pub proof fn law_merge_errors(
    loser: Seq<char>,
    survivor: Seq<char>,
    registry: Seq<Seq<char>>,
    state: MergeState,
    rows: Seq<Row>,
    now: Timestamp,
    error: MemoryError,
)
    requires
        merge_step(loser, survivor, registry, state, rows, now, Err(error)),
    ensures
        state is Loser && rows.len() == 0 ==> error.is_backend(
            "merge_nodes: loser node "@ + loser
                + " does not exist (re-merging a tombstoned loser is a loud error)"@,
        ),
        state is Survivor && rows.len() == 0 ==> error.is_backend(
            "merge_nodes: survivor node "@ + survivor + " does not exist"@,
        ),
        state is Loser && rows.len() > 0 ==> error.is_backend(
            "merge snapshot: unexpected node row shape for "@ + loser,
        ),
        state is Survivor && rows.len() > 0 ==> error.is_backend(
            "merge snapshot: unexpected node row shape for "@ + survivor,
        ),
        state is LoserEdges ==> error.is_backend(
            "merge snapshot: unexpected edge row shape for node "@ + loser,
        ),
        state is SurvivorEdges ==> error.is_backend(
            "merge snapshot: unexpected edge row shape for node "@ + survivor,
        ),
        state matches MergeState::Pass { pass, .. } ==> !targets_decode(table(rows))
            && error.is_backend(
            "merge single-value pass: unexpected edge row shape for survivor "@
                + pass.survivor_id@,
        ),
{
}

/// The writes of the plan come first. The pass then reads the valid edges of the survivor
/// under the first relationship of the registry; without a registry the merge is done.
pub proof fn law_pass_starts(
    case: MergeCase,
    node: NodeRow,
    edges: Seq<EdgeRow>,
    registry: Seq<Seq<char>>,
    next: MergeNext,
)
    requires
        pass_start(case, node, edges, registry, next),
    ensures
        registry.len() == 0 ==> (next matches MergeNext::Finish { writes, done } && writes_of(
            writes@,
        ) == case.writes(edges) && is_merge_of(done, case, node, edges)
            && done.single_value_invalidated == 0),
        registry.len() > 0 ==> (next matches MergeNext::WriteAndAsk { writes, state, query }
            && writes_of(writes@) == case.writes(edges) && query@ == (Request {
            cypher: VALID_OUTGOING_EDGES@,
            params: seq![
                ("subject_id"@, Parameter::One(Value::Text(case.survivor))),
                ("rel"@, Parameter::One(Value::Text(registry[0]))),
            ],
        }) && (state matches MergeState::Pass { done, pass } && is_merge_of(
            done,
            case,
            node,
            edges,
        ) && pass.now == case.now && pass.survivor_id@ == case.survivor && pass.next == 0
            && pass.invalidated == 0)),
{
    lemma_distinct(registry);
    if registry.len() > 0 {
        assert(registry.contains(registry[0]));
        assert(distinct(registry).contains(registry[0]));
        lemma_first_stays_first(registry);
    } else {
        assert(distinct(registry).len() == 0);
    }
}

proof fn lemma_first_stays_first(list: Seq<Seq<char>>)
    requires
        list.len() > 0,
    ensures
        distinct(list).len() > 0,
        distinct(list)[0] == list[0],
    decreases list.len(),
{
    if list.len() > 1 {
        lemma_first_stays_first(list.drop_last());
    } else {
        assert(list.drop_last() =~= Seq::empty());
        assert(distinct(list.drop_last()).len() == 0);
    }
}

/// A step of the pass goes on to the next relationship, under the same survivor, and ends
/// with the last one. It adds its writes to what the merge counts and changes no other
/// count and nothing of the snapshot.
pub proof fn law_pass_goes_on(
    done: MergeDone,
    pass: SingleValuePass,
    rows: Seq<Row>,
    next: MergeNext,
)
    requires
        pass_step(done, pass, rows, next),
    ensures
        next matches MergeNext::WriteAndAsk { writes, state, query } ==> {
            &&& pass.next + 1 < pass.predicates@.len()
            &&& query@ == (Request {
                cypher: VALID_OUTGOING_EDGES@,
                params: seq![
                    ("subject_id"@, Parameter::One(Value::Text(pass.survivor_id@))),
                    ("rel"@, Parameter::One(Value::Text(pass.predicates@[pass.next + 1]@))),
                ],
            })
            &&& state matches MergeState::Pass { done: more, pass: later }
                && more.single_value_invalidated == pass.invalidated + writes@.len()
                && later.invalidated == pass.invalidated + writes@.len() && later.next == pass.next
                + 1 && later.survivor_id == pass.survivor_id && later.predicates
                == pass.predicates && later.now == pass.now && more.snapshot == done.snapshot
                && more.edges_moved == done.edges_moved && more.edges_deduped
                == done.edges_deduped && more.self_loops_dropped == done.self_loops_dropped
        },
        next matches MergeNext::Finish { writes, done: end } ==> {
            &&& pass.next + 1 == pass.predicates@.len()
            &&& end.single_value_invalidated == pass.invalidated + writes@.len()
            &&& end.snapshot == done.snapshot && end.edges_moved == done.edges_moved
            &&& end.edges_deduped == done.edges_deduped && end.self_loops_dropped
                == done.self_loops_dropped
        },
        !(next is Ask),
        invalidates_stale(next_writes(next), pass, rows),
{
    assert(pass.next + 1 < pass.predicates@.len() ==> pass.next + 1 < pass.predicates.len());
}

/// What a step of the pass invalidates: of the edges that the rows name, each from the
/// survivor under the relationship of the step, all but one, and no later one than that.
pub proof fn law_pass_keeps_the_newest(
    writes: Seq<GraphWrite>,
    pass: SingleValuePass,
    rows: Seq<Row>,
)
    requires
        invalidates_stale(writes, pass, rows),
        rows.len() > 0,
    ensures
        writes.len() == rows.len() - 1,
        exists|first: EdgeId|
            {
                &&& #[trigger] is_named(first, pass, rows)
                &&& forall|i: int|
                    0 <= i < writes.len() ==> {
                        &&& (#[trigger] writes_of(writes)[i]) matches Write::SetInvalidAt {
                            key,
                            invalid_at,
                            updated_at,
                        } && invalid_at == Some(pass.now) && updated_at == pass.now && key.source
                            == pass.survivor_id@ && key.relationship
                            == pass.predicates@[pass.next as int]@ && key.valid_at
                            <= first.valid_at.unix_nanos() && exists|edge: EdgeId| #[trigger]
                            is_named(edge, pass, rows) && edge@ == key
                    }
            },
{
    let ranked = choose|ranked: Seq<EdgeId>| #[trigger]
        ranks_rows(ranked, pass, rows) && writes_of(writes) == stale_writes(ranked, pass.now);
    let subject = pass.survivor_id@;
    let relationship = pass.predicates@[pass.next as int]@;
    let edges = choose|edges: Seq<EdgeId>| #[trigger]
        are_targets(edges, subject, relationship, table(rows)) && ranked.to_multiset()
            == edges.to_multiset();
    edges.to_multiset_ensures();
    ranked.to_multiset_ensures();
    assert(table(rows).len() == rows.len());
    assert(ranked.len() == rows.len());
    assert forall|i: int| 0 <= i < ranked.len() implies is_named(
        #[trigger] ranked[i],
        pass,
        rows,
    ) by {
        assert(ranked.contains(ranked[i]));
        assert(ranked.to_multiset().contains(ranked[i]));
        assert(edges.contains(ranked[i]));
        let j = choose|j: int| 0 <= j < edges.len() && edges[j] == ranked[i];
        law_targets_of_rows(edges, subject, relationship, table(rows), j);
        assert(table(rows)[j] == columns(rows[j]));
    }
    assert(writes_of(writes).len() == writes.len());
    assert(is_named(ranked[0], pass, rows));
    assert forall|i: int| 0 <= i < writes.len() implies {
        &&& (#[trigger] writes_of(writes)[i]) matches Write::SetInvalidAt {
            key,
            invalid_at,
            updated_at,
        } && invalid_at == Some(pass.now) && updated_at == pass.now && key.source
            == pass.survivor_id@ && key.relationship == pass.predicates@[pass.next as int]@
            && key.valid_at <= ranked[0].valid_at.unix_nanos() && exists|edge: EdgeId| #[trigger]
            is_named(edge, pass, rows) && edge@ == key
    } by {
        law_all_but_the_first_are_invalidated(ranked, pass.now, i + 1);
        law_first_in_rank_is_newest(ranked, i + 1);
        assert(is_named(ranked[i + 1], pass, rows));
    }
}

/// Whether the edge is one that the rows of the pass name: from the survivor, under the
/// relationship of the step, to the target and at the time of one of the rows.
pub open spec fn is_named(edge: EdgeId, pass: SingleValuePass, rows: Seq<Row>) -> bool {
    &&& edge.source_id@ == pass.survivor_id@
    &&& edge.relationship_name@ == pass.predicates@[pass.next as int]@
    &&& exists|j: int|
        0 <= j < rows.len() && #[trigger] columns(rows[j]).len() >= 2 && columns(rows[j])[0]
            == Value::Text(edge.target_id@) && columns(rows[j])[1] == Value::Time(edge.valid_at)
}

/// A plan has invalidated nothing yet: that is for the pass.
pub proof fn law_plan_invalidates_nothing(
    plan: MergePlan,
    case: MergeCase,
    node: NodeRow,
    edges: Seq<EdgeRow>,
)
    requires
        is_plan(plan, case, node, edges),
    ensures
        plan.done.single_value_invalidated == 0,
        writes_of(plan.writes@) == case.writes(edges),
        is_merge_of(plan.done, case, node, edges),
        writes_of(plan.writes@).last() == (Write::DetachDeleteNode { id: case.loser }),
{
}

/// The snapshot of a merge is what a rollback needs: the survivor, the loser as it was,
/// all its edges, and the keys of the edges that the merge created.
pub proof fn law_snapshot_holds_the_loser(
    done: MergeDone,
    case: MergeCase,
    node: NodeRow,
    edges: Seq<EdgeRow>,
)
    requires
        is_merge_of(done, case, node, edges),
    ensures
        done.snapshot.version == 1,
        done.snapshot.survivor_id@ == case.survivor,
        done.snapshot.node@ == node,
        edge_rows(done.snapshot.edges@) == edges,
        edge_keys(done.snapshot.created_edges@) == case.created(edges),
        done.edges_moved == done.snapshot.created_edges@.len(),
        forall|i: int|
            0 <= i < done.snapshot.created_edges@.len() ==> (
            #[trigger] done.snapshot.created_edges@[i]).valid_at == case.moved(edges)[i].valid_at,
        done.edges_moved + done.self_loops_dropped + done.edges_deduped == edges.len(),
{
    assert(edge_keys(done.snapshot.created_edges@).len() == done.snapshot.created_edges@.len());
}

} // verus!
