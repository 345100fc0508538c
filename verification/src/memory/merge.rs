//! Merging one node into another, and rolling a merge back.

use crate::memory::cypher::{
    GraphWrite, SNAPSHOT_EDGES, SNAPSHOT_NODE, entry_request, snapshot_edges_query,
    snapshot_node_query, valid_outgoing_request, writes_of,
};
use crate::memory::graph::{EdgeKey, EdgeRow, NodeRow, Write, edge_keys, edge_rows};
use crate::memory::rows::{
    Row, all_edges_decode, columns, read_snapshot_edges, read_snapshot_node, snapshot_edges_of,
    snapshot_node_of, table,
};
use crate::memory::single_value::{
    SingleValuePass, are_targets, distinct, is_ranked, stale_writes, targets_decode,
};
use crate::memory::types::{
    EdgeId, MemoryError, MergeSnapshot, MergeSnapshotEdge, MergeSnapshotEdgeKey, MergeSnapshotNode,
    Result,
};
use crate::memory::value::Query;
use crate::text::{concat3, same_text, texts};
use crate::timestamp::Timestamp;
use vstd::prelude::*;

verus! {

/// The layout version of the snapshots that a merge takes.
pub const SNAPSHOT_VERSION: u32 = 1;

/// One endpoint's view of an edge.
#[derive(Debug, Clone, PartialEq, Eq)]
pub struct EndpointEdge {
    /// Whether the endpoint is the source of the edge.
    pub outgoing: bool,
    pub other_id: String,
    pub relationship_name: String,
    pub edge_text: String,
    pub valid_at: Timestamp,
}

/// One endpoint's view of an edge, as the model sees it.
#[verifier::ext_equal]
pub struct EndpointRow {
    pub outgoing: bool,
    pub other: Seq<char>,
    pub relationship: Seq<char>,
    pub text: Seq<char>,
    pub valid_at: int,
}

impl View for EndpointEdge {
    type V = EndpointRow;

    open spec fn view(&self) -> EndpointRow {
        EndpointRow {
            outgoing: self.outgoing,
            other: self.other_id@,
            relationship: self.relationship_name@,
            text: self.edge_text@,
            valid_at: self.valid_at.unix_nanos(),
        }
    }
}

/// The view of an edge from one of its endpoints.
pub open spec fn seen_from(node: Seq<char>, edge: EdgeRow) -> EndpointRow {
    EndpointRow {
        outgoing: edge.source == node,
        other: if edge.source == node {
            edge.target
        } else {
            edge.source
        },
        relationship: edge.relationship,
        text: edge.text,
        valid_at: edge.valid_at.unix_nanos(),
    }
}

/// Two views are equivalent when direction, other endpoint and relationship agree
/// and either the text or the validity instant agrees.
pub open spec fn equivalent(a: EndpointRow, b: EndpointRow) -> bool {
    &&& a.outgoing == b.outgoing
    &&& a.other == b.other
    &&& a.relationship == b.relationship
    &&& a.text == b.text || a.valid_at == b.valid_at
}

impl EndpointEdge {
    /// The view of `edge` from `node_id`, one of its endpoints.
    pub fn from_endpoint(node_id: &str, edge: &MergeSnapshotEdge) -> (r: EndpointEdge)
        ensures
            r@ == seen_from(node_id@, edge@),
    {
        let outgoing = same_text(edge.source_id.as_str(), node_id);
        let other_id = if outgoing {
            edge.target_id.clone()
        } else {
            edge.source_id.clone()
        };
        EndpointEdge {
            outgoing,
            other_id,
            relationship_name: edge.relationship_name.clone(),
            edge_text: edge.edge_text.clone(),
            valid_at: edge.valid_at,
        }
    }
}

/// Whether the two views are equivalent. A full natural-key match counts: a
/// re-pointed edge must never take the key of an edge that is already there.
pub fn edges_equivalent(a: &EndpointEdge, b: &EndpointEdge) -> (r: bool)
    ensures
        r == equivalent(a@, b@),
        r <==> a.outgoing == b.outgoing && a.other_id@ == b.other_id@ && a.relationship_name@
            == b.relationship_name@ && (a.edge_text@ == b.edge_text@ || a.valid_at.unix_nanos()
            == b.valid_at.unix_nanos()),
{
    a.outgoing == b.outgoing && a.other_id == b.other_id && a.relationship_name
        == b.relationship_name && (a.edge_text == b.edge_text || a.valid_at.same_instant(
        &b.valid_at,
    ))
}

/// What a merge works on: both nodes, the edges that the survivor already has, and
/// the time of the merge.
pub struct MergeCase {
    pub loser: Seq<char>,
    pub survivor: Seq<char>,
    pub survivor_edges: Seq<EdgeRow>,
    pub now: Timestamp,
}

impl MergeCase {
    /// Whether the loser's edge would become a self-loop on the survivor.
    pub open spec fn becomes_loop(self, edge: EdgeRow) -> bool {
        let other = seen_from(self.loser, edge).other;
        other == self.survivor || other == self.loser
    }

    /// Whether an edge of the survivor is equivalent to the loser's edge.
    pub open spec fn survivor_has(self, edge: EdgeRow) -> bool {
        exists|i: int|
            0 <= i < self.survivor_edges.len() && equivalent(
                seen_from(self.survivor, #[trigger] self.survivor_edges[i]),
                seen_from(self.loser, edge),
            )
    }

    /// Whether one of the moved edges is equivalent to the loser's edge.
    pub open spec fn already_moved(self, moved: Seq<EdgeRow>, edge: EdgeRow) -> bool {
        exists|i: int|
            0 <= i < moved.len() && equivalent(
                seen_from(self.loser, #[trigger] moved[i]),
                seen_from(self.loser, edge),
            )
    }

    /// Whether the loser's edge moves, given the edges moved before it.
    pub open spec fn moves(self, moved: Seq<EdgeRow>, edge: EdgeRow) -> bool {
        !self.becomes_loop(edge) && !self.survivor_has(edge) && !self.already_moved(moved, edge)
    }

    /// The loser's edges that move to the survivor, in order.
    pub open spec fn moved(self, edges: Seq<EdgeRow>) -> Seq<EdgeRow>
        decreases edges.len(),
    {
        if edges.len() == 0 {
            Seq::empty()
        } else {
            let before = self.moved(edges.drop_last());
            if self.moves(before, edges.last()) {
                before.push(edges.last())
            } else {
                before
            }
        }
    }

    /// The edge with the loser replaced by the survivor. It keeps its creation time.
    pub open spec fn repointed(self, edge: EdgeRow) -> EdgeRow {
        let view = seen_from(self.loser, edge);
        EdgeRow {
            source: if view.outgoing {
                self.survivor
            } else {
                view.other
            },
            target: if view.outgoing {
                view.other
            } else {
                self.survivor
            },
            updated_at: self.now,
            ..edge
        }
    }

    /// The natural keys of the edges that the merge creates.
    pub open spec fn created(self, edges: Seq<EdgeRow>) -> Seq<EdgeKey> {
        self.moved(edges).map_values(|edge: EdgeRow| self.repointed(edge).key())
    }

    /// The number of edges that would become self-loops.
    pub open spec fn loops(self, edges: Seq<EdgeRow>) -> nat
        decreases edges.len(),
    {
        if edges.len() == 0 {
            0
        } else {
            self.loops(edges.drop_last()) + if self.becomes_loop(edges.last()) {
                1nat
            } else {
                0nat
            }
        }
    }

    /// The writes for the loser's edges: a moving edge is created anew, and every
    /// edge of the loser is deleted.
    pub open spec fn edge_writes(self, edges: Seq<EdgeRow>) -> Seq<Write>
        decreases edges.len(),
    {
        if edges.len() == 0 {
            Seq::empty()
        } else {
            let edge = edges.last();
            let before = self.edge_writes(edges.drop_last());
            if self.moves(self.moved(edges.drop_last()), edge) {
                before.push(Write::CreateEdge { edge: self.repointed(edge) }).push(
                    Write::DeleteEdge { key: edge.key() },
                )
            } else {
                before.push(Write::DeleteEdge { key: edge.key() })
            }
        }
    }

    /// Every write of the merge: the edges, then the loser itself.
    pub open spec fn writes(self, edges: Seq<EdgeRow>) -> Seq<Write> {
        self.edge_writes(edges).push(Write::DetachDeleteNode { id: self.loser })
    }
}

/// The counts of one merge, with the snapshot that rolls it back.
#[derive(Debug, Clone, PartialEq, Eq)]
pub struct MergeDone {
    pub snapshot: MergeSnapshot,
    pub edges_moved: u32,
    pub self_loops_dropped: u32,
    pub edges_deduped: u32,
    /// The edges that the single-value pass has invalidated.
    pub single_value_invalidated: u32,
}

/// The writes of one merge, and what they come to.
#[derive(Debug, Clone, PartialEq, Eq)]
pub struct MergePlan {
    pub writes: Vec<GraphWrite>,
    pub done: MergeDone,
}

/// Whether the snapshot and the counts are those of merging the node with these edges.
/// Each created edge is told in the offset of the edge that moved.
pub open spec fn is_merge_of(
    done: MergeDone,
    case: MergeCase,
    node: NodeRow,
    edges: Seq<EdgeRow>,
) -> bool {
    &&& done.snapshot.version == SNAPSHOT_VERSION
    &&& done.snapshot.survivor_id@ == case.survivor
    &&& done.snapshot.node@ == node
    &&& edge_rows(done.snapshot.edges@) == edges
    &&& edge_keys(done.snapshot.created_edges@) == case.created(edges)
    &&& forall|i: int|
        0 <= i < case.moved(edges).len() ==> (
        #[trigger] done.snapshot.created_edges@[i]).valid_at == case.moved(edges)[i].valid_at
    &&& done.edges_moved == case.moved(edges).len()
    &&& done.self_loops_dropped == case.loops(edges)
    &&& done.edges_moved + done.self_loops_dropped + done.edges_deduped == edges.len()
}

/// Whether the plan is that of merging the node with these edges.
pub open spec fn is_plan(
    plan: MergePlan,
    case: MergeCase,
    node: NodeRow,
    edges: Seq<EdgeRow>,
) -> bool {
    &&& writes_of(plan.writes@) == case.writes(edges)
    &&& is_merge_of(plan.done, case, node, edges)
    &&& plan.done.single_value_invalidated == 0
}

fn any_equivalent(existing: &Vec<EndpointEdge>, view: &EndpointEdge) -> (r: bool)
    ensures
        r == exists|i: int| 0 <= i < existing@.len() && equivalent(#[trigger] existing@[i]@, view@),
{
    let mut i: usize = 0;
    while i < existing.len()
        invariant
            i <= existing@.len(),
            forall|k: int| 0 <= k < i ==> !equivalent(#[trigger] existing@[k]@, view@),
        decreases existing@.len() - i,
    {
        if edges_equivalent(&existing[i], view) {
            return true;
        }
        i += 1;
    }
    false
}

fn edge_key(edge: &MergeSnapshotEdge) -> (r: MergeSnapshotEdgeKey)
    ensures
        r@ == edge@.key(),
        r.valid_at == edge.valid_at,
{
    MergeSnapshotEdgeKey {
        source_id: edge.source_id.clone(),
        relationship_name: edge.relationship_name.clone(),
        target_id: edge.target_id.clone(),
        valid_at: edge.valid_at,
    }
}

fn clone_opt(value: &Option<String>) -> (r: Option<String>)
    ensures
        r == *value,
{
    match value {
        Some(text) => Some(text.clone()),
        None => None,
    }
}

fn repoint(
    view: &EndpointEdge,
    edge: &MergeSnapshotEdge,
    survivor_id: &str,
    now: Timestamp,
    Ghost(case): Ghost<MergeCase>,
) -> (r: MergeSnapshotEdge)
    requires
        view@ == seen_from(case.loser, edge@),
        survivor_id@ == case.survivor,
        now == case.now,
    ensures
        r@ == case.repointed(edge@),
{
    MergeSnapshotEdge {
        source_id: if view.outgoing {
            survivor_id.to_owned()
        } else {
            view.other_id.clone()
        },
        target_id: if view.outgoing {
            view.other_id.clone()
        } else {
            survivor_id.to_owned()
        },
        relationship_name: edge.relationship_name.clone(),
        valid_at: edge.valid_at,
        invalid_at: edge.invalid_at,
        edge_text: edge.edge_text.clone(),
        created_at: edge.created_at,
        updated_at: now,
        properties: clone_opt(&edge.properties),
    }
}

proof fn lemma_moved_and_loops(case: MergeCase, edges: Seq<EdgeRow>)
    ensures
        case.moved(edges).len() + case.loops(edges) <= edges.len(),
    decreases edges.len(),
{
    if edges.len() > 0 {
        lemma_moved_and_loops(case, edges.drop_last());
    }
}

/// Plans the merge of the node with its edges into the survivor.
pub fn plan_merge(
    survivor_id: &str,
    node: MergeSnapshotNode,
    loser_edges: Vec<MergeSnapshotEdge>,
    survivor_edges: &Vec<MergeSnapshotEdge>,
    now: Timestamp,
) -> (r: MergePlan)
    requires
        loser_edges@.len() <= u32::MAX,
    ensures
        is_plan(
            r,
            (MergeCase {
                loser: node.id@,
                survivor: survivor_id@,
                survivor_edges: edge_rows(survivor_edges@),
                now,
            }),
            node@,
            edge_rows(loser_edges@),
        ),
{
    let loser_id = node.id.clone();
    let ghost case = MergeCase {
        loser: node.id@,
        survivor: survivor_id@,
        survivor_edges: edge_rows(survivor_edges@),
        now,
    };
    let ghost all = edge_rows(loser_edges@);
    let mut existing: Vec<EndpointEdge> = Vec::new();
    let mut s: usize = 0;
    while s < survivor_edges.len()
        invariant
            s <= survivor_edges@.len(),
            case.survivor == survivor_id@,
            case.survivor_edges == edge_rows(survivor_edges@),
            existing@.len() == s,
            forall|k: int|
                0 <= k < s ==> (#[trigger] existing@[k])@ == seen_from(
                    case.survivor,
                    case.survivor_edges[k],
                ),
        decreases survivor_edges@.len() - s,
    {
        existing.push(EndpointEdge::from_endpoint(survivor_id, &survivor_edges[s]));
        s += 1;
    }
    let mut writes: Vec<GraphWrite> = Vec::new();
    let mut created_edges: Vec<MergeSnapshotEdgeKey> = Vec::new();
    let mut moved: u32 = 0;
    let mut self_loops_dropped: u32 = 0;
    let mut deduped: u32 = 0;
    assert(all.take(0) =~= Seq::<EdgeRow>::empty());
    assert(writes_of(writes@) =~= Seq::<Write>::empty());
    assert(edge_keys(created_edges@) =~= case.created(all.take(0)));
    let mut i: usize = 0;
    while i < loser_edges.len()
        invariant
            i <= loser_edges@.len() <= u32::MAX,
            all == edge_rows(loser_edges@),
            case.loser == loser_id@,
            case.survivor == survivor_id@,
            case.now == now,
            existing@.len() == case.survivor_edges.len() + case.moved(all.take(i as int)).len(),
            forall|k: int|
                0 <= k < case.survivor_edges.len() ==> (#[trigger] existing@[k])@ == seen_from(
                    case.survivor,
                    case.survivor_edges[k],
                ),
            forall|k: int|
                case.survivor_edges.len() <= k < existing@.len() ==> (#[trigger] existing@[k])@
                    == seen_from(
                    case.loser,
                    case.moved(all.take(i as int))[k - case.survivor_edges.len()],
                ),
            writes_of(writes@) == case.edge_writes(all.take(i as int)),
            edge_keys(created_edges@) == case.created(all.take(i as int)),
            created_edges@.len() == case.moved(all.take(i as int)).len(),
            forall|k: int|
                0 <= k < created_edges@.len() ==> (#[trigger] created_edges@[k]).valid_at
                    == case.moved(all.take(i as int))[k].valid_at,
            moved == case.moved(all.take(i as int)).len(),
            self_loops_dropped == case.loops(all.take(i as int)),
            moved + self_loops_dropped + deduped == i,
        decreases loser_edges@.len() - i,
    {
        let edge = &loser_edges[i];
        let view = EndpointEdge::from_endpoint(loser_id.as_str(), edge);
        let ghost prefix = all.take(i as int);
        let ghost before = case.moved(prefix);
        let ghost old_writes = writes@;
        proof {
            assert(all.take(i + 1).drop_last() =~= prefix);
            assert(all.take(i + 1).last() == edge@);
        }
        let is_loop = same_text(view.other_id.as_str(), survivor_id) || view.other_id == loser_id;
        if is_loop {
            writes.push(GraphWrite::DeleteEdge(edge_key(edge)));
            self_loops_dropped += 1;
            assert(writes_of(writes@) =~= writes_of(old_writes).push(
                Write::DeleteEdge { key: edge@.key() },
            ));
        } else {
            let known = any_equivalent(&existing, &view);
            proof {
                let n = case.survivor_edges.len();
                if known {
                    let k = choose|k: int|
                        0 <= k < existing@.len() && equivalent(#[trigger] existing@[k]@, view@);
                    if k < n {
                        assert(equivalent(
                            seen_from(case.survivor, case.survivor_edges[k]),
                            seen_from(case.loser, edge@),
                        ));
                        assert(case.survivor_has(edge@));
                    } else {
                        assert(equivalent(
                            seen_from(case.loser, before[k - n]),
                            seen_from(case.loser, edge@),
                        ));
                        assert(case.already_moved(before, edge@));
                    }
                } else {
                    if case.survivor_has(edge@) {
                        let k = choose|k: int|
                            0 <= k < n && equivalent(
                                seen_from(case.survivor, #[trigger] case.survivor_edges[k]),
                                seen_from(case.loser, edge@),
                            );
                        assert(equivalent(existing@[k]@, view@));
                    }
                    if case.already_moved(before, edge@) {
                        let k = choose|k: int|
                            0 <= k < before.len() && equivalent(
                                seen_from(case.loser, #[trigger] before[k]),
                                seen_from(case.loser, edge@),
                            );
                        assert(equivalent(existing@[k + n]@, view@));
                    }
                }
                assert(known == !case.moves(before, edge@));
            }
            if known {
                writes.push(GraphWrite::DeleteEdge(edge_key(edge)));
                deduped += 1;
                assert(writes_of(writes@) =~= writes_of(old_writes).push(
                    Write::DeleteEdge { key: edge@.key() },
                ));
            } else {
                let moved_edge = repoint(&view, edge, survivor_id, now, Ghost(case));
                let ghost old_keys = created_edges@;
                created_edges.push(edge_key(&moved_edge));
                writes.push(GraphWrite::CreateEdge(moved_edge));
                writes.push(GraphWrite::DeleteEdge(edge_key(edge)));
                existing.push(view);
                proof {
                    lemma_moved_and_loops(case, all.take(i + 1));
                    assert(case.moved(all.take(i + 1)) == before.push(edge@));
                    assert(writes_of(writes@) =~= writes_of(old_writes).push(
                        Write::CreateEdge { edge: case.repointed(edge@) },
                    ).push(Write::DeleteEdge { key: edge@.key() }));
                    assert(edge_keys(created_edges@) =~= edge_keys(old_keys).push(
                        case.repointed(edge@).key(),
                    ));
                    assert(case.created(all.take(i + 1)) =~= case.created(prefix).push(
                        case.repointed(edge@).key(),
                    ));
                }
                moved += 1;
            }
        }
        i += 1;
    }
    assert(all.take(i as int) =~= all);
    let ghost old_writes = writes@;
    writes.push(GraphWrite::DetachDeleteNode(loser_id));
    assert(writes_of(writes@) =~= writes_of(old_writes).push(
        Write::DetachDeleteNode { id: case.loser },
    ));
    MergePlan {
        writes,
        done: MergeDone {
            snapshot: MergeSnapshot {
                version: SNAPSHOT_VERSION,
                survivor_id: survivor_id.to_owned(),
                node,
                edges: loser_edges,
                created_edges,
            },
            edges_moved: moved,
            self_loops_dropped,
            edges_deduped: deduped,
            single_value_invalidated: 0,
        },
    }
}

// ----- the course of a merge -----

/// Where a merge stands.
#[derive(Debug, Clone, PartialEq, Eq)]
pub enum MergeState {
    /// The loser node is being read.
    Loser,
    /// The survivor node is being read.
    Survivor { node: MergeSnapshotNode },
    /// The edges of the loser are being read.
    LoserEdges { node: MergeSnapshotNode },
    /// The edges of the survivor are being read.
    SurvivorEdges { node: MergeSnapshotNode, loser_edges: Vec<MergeSnapshotEdge> },
    /// The loser is merged, and the valid edges of one single-value relationship are
    /// being read.
    Pass { done: MergeDone, pass: SingleValuePass },
}

/// What a merge does next.
#[derive(Debug, Clone, PartialEq, Eq)]
pub enum MergeNext {
    /// Run the read and come back with its rows. No transaction is open yet.
    Ask { state: MergeState, query: Query },
    /// Run the writes, then the read, and come back with its rows. All writes of a merge
    /// and the reads between them run in one transaction, which the first writes open.
    WriteAndAsk { writes: Vec<GraphWrite>, state: MergeState, query: Query },
    /// Run the writes in the transaction, and commit it: the merge is done.
    Finish { writes: Vec<GraphWrite>, done: MergeDone },
}

/// Starts a merge: a node cannot merge into itself; the loser is read first.
pub fn start_merge(loser_id: &str, survivor_id: &str) -> (r: Result<(MergeState, Query)>)
    ensures
        match r {
            Ok(start) => loser_id@ != survivor_id@ && start.0 == MergeState::Loser && start.1@
                == entry_request(SNAPSHOT_NODE@, "node_id"@, loser_id@),
            Err(error) => loser_id@ == survivor_id@ && error.is_backend(
                "merge_nodes: loser and survivor are the same node ("@ + loser_id@ + ")"@,
            ),
        },
{
    if same_text(loser_id, survivor_id) {
        return Err(
            MemoryError::Backend(
                concat3("merge_nodes: loser and survivor are the same node (", loser_id, ")"),
            ),
        );
    }
    Ok((MergeState::Loser, snapshot_node_query(loser_id)))
}

/// The message of a node that a snapshot read found in an unexpected shape.
pub open spec fn bad_node_row(node_id: Seq<char>) -> Seq<char> {
    "merge snapshot: unexpected node row shape for "@ + node_id
}

/// The message of an edge that a snapshot read found in an unexpected shape.
pub open spec fn bad_edge_row(node_id: Seq<char>) -> Seq<char> {
    "merge snapshot: unexpected edge row shape for node "@ + node_id
}

/// The message of a loser that does not exist.
pub open spec fn loser_missing(loser_id: Seq<char>) -> Seq<char> {
    "merge_nodes: loser node "@ + loser_id
        + " does not exist (re-merging a tombstoned loser is a loud error)"@
}

/// The message of a survivor that does not exist.
pub open spec fn survivor_missing(survivor_id: Seq<char>) -> Seq<char> {
    "merge_nodes: survivor node "@ + survivor_id + " does not exist"@
}

/// What a node read says: missing, malformed, or the node.
pub enum NodeRead {
    Missing,
    Malformed,
    Node(NodeRow),
}

/// What the rows of a node read say.
pub open spec fn node_read(node_id: Seq<char>, rows: Seq<Row>) -> NodeRead {
    if rows.len() == 0 {
        NodeRead::Missing
    } else {
        match snapshot_node_of(node_id, columns(rows[0])) {
            Some(node) => NodeRead::Node(node),
            None => NodeRead::Malformed,
        }
    }
}

/// Whether the edges are those that the rows of the pass name, in rank order.
pub open spec fn ranks_rows(ranked: Seq<EdgeId>, pass: SingleValuePass, rows: Seq<Row>) -> bool {
    is_ranked(ranked) && exists|edges: Seq<EdgeId>| #[trigger]
        are_targets(
            edges,
            pass.survivor_id@,
            pass.predicates@[pass.next as int]@,
            table(rows),
        ) && ranked.to_multiset() == edges.to_multiset()
}

/// Whether the writes invalidate every edge that the rows of the pass name, but the first
/// in rank.
pub open spec fn invalidates_stale(
    writes: Seq<GraphWrite>,
    pass: SingleValuePass,
    rows: Seq<Row>,
) -> bool {
    exists|ranked: Seq<EdgeId>| #[trigger]
        ranks_rows(ranked, pass, rows) && writes_of(writes) == stale_writes(ranked, pass.now)
}

/// The step from the last read of the plan: its writes come first, then the reads of the
/// single-value pass, where it has any.
pub open spec fn pass_start(
    case: MergeCase,
    node: NodeRow,
    edges: Seq<EdgeRow>,
    registry: Seq<Seq<char>>,
    next: MergeNext,
) -> bool {
    match next {
        MergeNext::WriteAndAsk { writes, state: MergeState::Pass { done, pass }, query } => {
            &&& distinct(registry).len() > 0
            &&& writes_of(writes@) == case.writes(edges)
            &&& is_merge_of(done, case, node, edges)
            &&& done.single_value_invalidated == 0
            &&& pass.survivor_id@ == case.survivor
            &&& texts(pass.predicates@) == distinct(registry)
            &&& pass.next == 0
            &&& pass.invalidated == 0
            &&& pass.now == case.now
            &&& query@ == valid_outgoing_request(case.survivor, distinct(registry)[0])
        },
        MergeNext::Finish { writes, done } => {
            &&& distinct(registry).len() == 0
            &&& writes_of(writes@) == case.writes(edges)
            &&& is_merge_of(done, case, node, edges)
            &&& done.single_value_invalidated == 0
        },
        _ => false,
    }
}

/// The step from one read of the single-value pass to the next, or to the end. The merge
/// counts what the pass has invalidated.
pub open spec fn pass_step(
    done: MergeDone,
    pass: SingleValuePass,
    rows: Seq<Row>,
    next: MergeNext,
) -> bool {
    match next {
        MergeNext::WriteAndAsk { writes, state, query } => {
            let counted = (pass.invalidated + writes@.len()) as u32;
            &&& pass.next + 1 < pass.predicates@.len()
            &&& invalidates_stale(writes@, pass, rows)
            &&& pass.invalidated + writes@.len() <= u32::MAX
            &&& state == (MergeState::Pass {
                done: MergeDone { single_value_invalidated: counted, ..done },
                pass: SingleValuePass {
                    next: (pass.next + 1) as usize,
                    invalidated: counted,
                    ..pass
                },
            })
            &&& query@ == valid_outgoing_request(
                pass.survivor_id@,
                pass.predicates@[pass.next + 1]@,
            )
        },
        MergeNext::Finish { writes, done: end } => {
            &&& pass.next + 1 == pass.predicates@.len()
            &&& invalidates_stale(writes@, pass, rows)
            &&& pass.invalidated + writes@.len() <= u32::MAX
            &&& end == (MergeDone {
                single_value_invalidated: (pass.invalidated + writes@.len()) as u32,
                ..done
            })
        },
        _ => false,
    }
}

/// The step from one read to the next: what the rows of each read lead to.
pub open spec fn merge_step(
    loser_id: Seq<char>,
    survivor_id: Seq<char>,
    registry: Seq<Seq<char>>,
    state: MergeState,
    rows: Seq<Row>,
    now: Timestamp,
    r: Result<MergeNext>,
) -> bool {
    match state {
        MergeState::Loser => match (node_read(loser_id, rows), r) {
            (NodeRead::Node(found), Ok(MergeNext::Ask { state, query })) => state
                matches MergeState::Survivor { node } && node@ == found && query@ == entry_request(
                SNAPSHOT_NODE@,
                "node_id"@,
                survivor_id,
            ),
            (NodeRead::Missing, Err(error)) => error.is_backend(loser_missing(loser_id)),
            (NodeRead::Malformed, Err(error)) => error.is_backend(bad_node_row(loser_id)),
            _ => false,
        },
        MergeState::Survivor { node } => match (node_read(survivor_id, rows), r) {
            (NodeRead::Node(_), Ok(MergeNext::Ask { state, query })) => state
                == (MergeState::LoserEdges { node }) && query@ == entry_request(
                SNAPSHOT_EDGES@,
                "node_id"@,
                loser_id,
            ),
            (NodeRead::Missing, Err(error)) => error.is_backend(survivor_missing(survivor_id)),
            (NodeRead::Malformed, Err(error)) => error.is_backend(bad_node_row(survivor_id)),
            _ => false,
        },
        MergeState::LoserEdges { node } => if all_edges_decode(table(rows)) {
            match r {
                Ok(MergeNext::Ask { state: MergeState::SurvivorEdges { node: kept, loser_edges }, query }) => kept
                    == node && edge_rows(loser_edges@) == snapshot_edges_of(table(rows)) && query@
                    == entry_request(SNAPSHOT_EDGES@, "node_id"@, survivor_id),
                _ => false,
            }
        } else {
            r matches Err(error) && error.is_backend(bad_edge_row(loser_id))
        },
        MergeState::SurvivorEdges { node, loser_edges } => if all_edges_decode(table(rows)) {
            r matches Ok(next) && pass_start(
                (MergeCase {
                    loser: node.id@,
                    survivor: survivor_id,
                    survivor_edges: snapshot_edges_of(table(rows)),
                    now,
                }),
                node@,
                edge_rows(loser_edges@),
                registry,
                next,
            )
        } else {
            r matches Err(error) && error.is_backend(bad_edge_row(survivor_id))
        },
        MergeState::Pass { done, pass } => if targets_decode(table(rows)) {
            r matches Ok(next) && pass_step(done, pass, rows, next)
        } else {
            r matches Err(error) && error.is_backend(
                "merge single-value pass: unexpected edge row shape for survivor "@
                    + pass.survivor_id@,
            )
        },
    }
}

/// Whether a read is due in the state, and the edges read so far can be counted in 32
/// bits.
pub open spec fn is_asking(state: MergeState) -> bool {
    match state {
        MergeState::SurvivorEdges { loser_edges, .. } => loser_edges@.len() <= u32::MAX,
        MergeState::Pass { pass, .. } => pass.next < pass.predicates@.len(),
        _ => true,
    }
}

/// Whether that many rows can be counted in 32 bits, on top of what the state counts.
pub open spec fn countable(state: MergeState, rows: nat) -> bool {
    match state {
        MergeState::Pass { pass, .. } => pass.invalidated + rows <= u32::MAX,
        _ => rows <= u32::MAX,
    }
}

/// Goes on with the pass after the writes: to its next read, or to the end.
fn go_on(writes: Vec<GraphWrite>, done: MergeDone, pass: SingleValuePass) -> (r: MergeNext)
    ensures
        match r {
            MergeNext::WriteAndAsk { writes: w, state, query } => {
                &&& pass.next < pass.predicates@.len()
                &&& w == writes
                &&& state == (MergeState::Pass { done, pass })
                &&& query@ == valid_outgoing_request(
                    pass.survivor_id@,
                    pass.predicates@[pass.next as int]@,
                )
            },
            MergeNext::Finish { writes: w, done: end } => {
                &&& pass.next >= pass.predicates@.len()
                &&& w == writes
                &&& end == done
            },
            MergeNext::Ask { .. } => false,
        },
{
    match pass.query() {
        Some(query) => MergeNext::WriteAndAsk {
            writes,
            state: MergeState::Pass { done, pass },
            query,
        },
        None => MergeNext::Finish { writes, done },
    }
}

/// Takes the rows of the read that was asked for, and says what comes next: first the
/// reads of both nodes and their edges, then the writes of the plan, and then the reads
/// and writes of the single-value pass over the survivor.
pub fn next_merge(
    loser_id: &str,
    survivor_id: &str,
    single_value_predicates: &Vec<String>,
    state: MergeState,
    rows: &Vec<Row>,
    now: Timestamp,
) -> (r: Result<MergeNext>)
    requires
        is_asking(state),
        countable(state, rows@.len()),
    ensures
        merge_step(
            loser_id@,
            survivor_id@,
            texts(single_value_predicates@),
            state,
            rows@,
            now,
            r,
        ),
        r matches Ok(MergeNext::Ask { state, .. }) ==> is_asking(state),
        r matches Ok(MergeNext::WriteAndAsk { state, .. }) ==> is_asking(state),
{
    match state {
        MergeState::Loser => {
            match read_snapshot_node(loser_id, rows) {
                Ok(Some(node)) => Ok(
                    MergeNext::Ask {
                        state: MergeState::Survivor { node },
                        query: snapshot_node_query(survivor_id),
                    },
                ),
                Ok(None) => Err(
                    MemoryError::Backend(
                        concat3(
                            "merge_nodes: loser node ",
                            loser_id,
                            " does not exist (re-merging a tombstoned loser is a loud error)",
                        ),
                    ),
                ),
                Err(error) => Err(error),
            }
        },
        MergeState::Survivor { node } => {
            match read_snapshot_node(survivor_id, rows) {
                Ok(Some(_)) => Ok(
                    MergeNext::Ask {
                        state: MergeState::LoserEdges { node },
                        query: snapshot_edges_query(loser_id),
                    },
                ),
                Ok(None) => Err(
                    MemoryError::Backend(
                        concat3("merge_nodes: survivor node ", survivor_id, " does not exist"),
                    ),
                ),
                Err(error) => Err(error),
            }
        },
        MergeState::LoserEdges { node } => {
            match read_snapshot_edges(loser_id, rows) {
                Ok(loser_edges) => {
                    assert(edge_rows(loser_edges@).len() == table(rows@).len());
                    Ok(
                        MergeNext::Ask {
                            state: MergeState::SurvivorEdges { node, loser_edges },
                            query: snapshot_edges_query(survivor_id),
                        },
                    )
                },
                Err(error) => Err(error),
            }
        },
        MergeState::SurvivorEdges { node, loser_edges } => {
            match read_snapshot_edges(survivor_id, rows) {
                Ok(survivor_edges) => {
                    let ghost case = MergeCase {
                        loser: node.id@,
                        survivor: survivor_id@,
                        survivor_edges: edge_rows(survivor_edges@),
                        now,
                    };
                    let ghost row = node@;
                    let ghost edges = edge_rows(loser_edges@);
                    let plan = plan_merge(survivor_id, node, loser_edges, &survivor_edges, now);
                    let pass = SingleValuePass::start(survivor_id, single_value_predicates, now);
                    assert(texts(pass.predicates@).len() == pass.predicates@.len());
                    assert(pass.predicates@.len() > 0 ==> texts(pass.predicates@)[0]
                        == pass.predicates@[0]@);
                    let next = go_on(plan.writes, plan.done, pass);
                    assert(pass_start(case, row, edges, texts(single_value_predicates@), next));
                    Ok(next)
                },
                Err(error) => Err(error),
            }
        },
        MergeState::Pass { done, pass } => {
            let ghost before = pass;
            let ghost so_far = done;
            assert(before.next < before.predicates.len());
            let mut pass = pass;
            match pass.accept(rows) {
                Ok(step) => {
                    assert(ranks_rows(step.ranked@, before, rows@));
                    let done = MergeDone {
                        snapshot: done.snapshot,
                        edges_moved: done.edges_moved,
                        self_loops_dropped: done.self_loops_dropped,
                        edges_deduped: done.edges_deduped,
                        single_value_invalidated: pass.invalidated,
                    };
                    assert(invalidates_stale(step.writes@, before, rows@));
                    let next = go_on(step.writes, done, pass);
                    assert(pass_step(so_far, before, rows@, next));
                    Ok(next)
                },
                Err(error) => Err(error),
            }
        },
    }
}

// ----- rolling back -----

/// The writes that roll a merge back: the loser, its edges as they were, and then
/// the created edges go.
pub open spec fn rollback_writes(
    node: NodeRow,
    edges: Seq<EdgeRow>,
    created: Seq<EdgeKey>,
) -> Seq<Write> {
    seq![Write::CreateNode { node }] + edges.map_values(
        |edge: EdgeRow| Write::CreateEdge { edge },
    ) + created.map_values(|key: EdgeKey| Write::DeleteEdge { key })
}

/// The writes that roll the merge of the snapshot back.
pub fn plan_rollback(snapshot: MergeSnapshot) -> (r: Vec<GraphWrite>)
    ensures
        writes_of(r@) == rollback_writes(
            snapshot.node@,
            edge_rows(snapshot.edges@),
            edge_keys(snapshot.created_edges@),
        ),
{
    let MergeSnapshot { version: _, survivor_id: _, node, edges, created_edges } = snapshot;
    let ghost edges0 = edges@;
    let ghost keys0 = created_edges@;
    let ghost head = seq![Write::CreateNode { node: node@ }];
    let mut writes: Vec<GraphWrite> = Vec::new();
    writes.push(GraphWrite::CreateNode(node));
    assert(writes_of(writes@) =~= head);
    let ghost restored = edge_rows(edges0).map_values(|edge: EdgeRow| Write::CreateEdge { edge });
    for edge in it: edges
        invariant
            it.seq() == edges0,
            restored == edge_rows(edges0).map_values(|edge: EdgeRow| Write::CreateEdge { edge }),
            writes_of(writes@) == head + restored.take(it.index() as int),
    {
        let ghost before = writes@;
        writes.push(GraphWrite::CreateEdge(edge));
        assert(writes_of(writes@) =~= writes_of(before).push(Write::CreateEdge { edge: edge@ }));
        assert(restored[it.index() as int] == Write::CreateEdge { edge: edge@ });
        assert(restored.take(it.index() + 1) =~= restored.take(it.index() as int).push(
            restored[it.index() as int],
        ));
    }
    assert(restored.take(restored.len() as int) =~= restored);
    let ghost dropped = edge_keys(keys0).map_values(|key: EdgeKey| Write::DeleteEdge { key });
    for key in it: created_edges
        invariant
            it.seq() == keys0,
            dropped == edge_keys(keys0).map_values(|key: EdgeKey| Write::DeleteEdge { key }),
            writes_of(writes@) == head + restored + dropped.take(it.index() as int),
    {
        let ghost before = writes@;
        writes.push(GraphWrite::DeleteEdge(key));
        assert(writes_of(writes@) =~= writes_of(before).push(Write::DeleteEdge { key: key@ }));
        assert(dropped[it.index() as int] == Write::DeleteEdge { key: key@ });
        assert(dropped.take(it.index() + 1) =~= dropped.take(it.index() as int).push(
            dropped[it.index() as int],
        ));
    }
    assert(dropped.take(dropped.len() as int) =~= dropped);
    writes
}

/// What a rollback has checked so far.
#[derive(Debug, Clone, Copy, PartialEq, Eq, Structural)]
pub enum RollbackState {
    /// The survivor is being read.
    Survivor,
    /// The loser is being read.
    Loser,
}

/// What a rollback does next.
#[derive(Debug, Clone, PartialEq, Eq)]
pub enum RollbackNext {
    /// Run the read and come back with its rows.
    Ask { state: RollbackState, query: Query },
    /// Write `plan_rollback` of the snapshot in one transaction.
    Write,
}

/// The message of a survivor that a later merge removed.
pub open spec fn survivor_gone(survivor_id: Seq<char>) -> Seq<char> {
    "rollback_merge: survivor "@ + survivor_id
        + " no longer exists; chained-merge rollback is out of scope"@
}

/// The message of a loser that is still there.
pub open spec fn loser_exists(loser_id: Seq<char>) -> Seq<char> {
    "rollback_merge: loser node "@ + loser_id
        + " still exists; the merge did not happen or was already rolled back"@
}

/// The first read of a rollback: the survivor.
pub fn start_rollback(snapshot: &MergeSnapshot) -> (r: (RollbackState, Query))
    ensures
        r.0 == RollbackState::Survivor,
        r.1@ == entry_request(SNAPSHOT_NODE@, "node_id"@, snapshot.survivor_id@),
{
    (RollbackState::Survivor, snapshot_node_query(snapshot.survivor_id.as_str()))
}

/// Takes the rows of the read that was asked for, and says what comes next. A
/// rollback needs its survivor, and needs its loser gone.
pub fn next_rollback(snapshot: &MergeSnapshot, state: RollbackState, rows: &Vec<Row>) -> (r: Result<
    RollbackNext,
>)
    ensures
        match state {
            RollbackState::Survivor => match (node_read(snapshot.survivor_id@, rows@), r) {
                (NodeRead::Node(_), Ok(RollbackNext::Ask { state, query })) => state
                    == RollbackState::Loser && query@ == entry_request(
                    SNAPSHOT_NODE@,
                    "node_id"@,
                    snapshot.node.id@,
                ),
                (NodeRead::Missing, Err(error)) => error.is_backend(
                    survivor_gone(snapshot.survivor_id@),
                ),
                (NodeRead::Malformed, Err(error)) => error.is_backend(
                    bad_node_row(snapshot.survivor_id@),
                ),
                _ => false,
            },
            RollbackState::Loser => match (node_read(snapshot.node.id@, rows@), r) {
                (NodeRead::Missing, Ok(next)) => next == RollbackNext::Write,
                (NodeRead::Node(_), Err(error)) => error.is_backend(
                    loser_exists(snapshot.node.id@),
                ),
                (NodeRead::Malformed, Err(error)) => error.is_backend(
                    bad_node_row(snapshot.node.id@),
                ),
                _ => false,
            },
        },
{
    match state {
        RollbackState::Survivor => {
            match read_snapshot_node(snapshot.survivor_id.as_str(), rows) {
                Ok(Some(_)) => Ok(
                    RollbackNext::Ask {
                        state: RollbackState::Loser,
                        query: snapshot_node_query(snapshot.node.id.as_str()),
                    },
                ),
                Ok(None) => Err(
                    MemoryError::Backend(
                        concat3(
                            "rollback_merge: survivor ",
                            snapshot.survivor_id.as_str(),
                            " no longer exists; chained-merge rollback is out of scope",
                        ),
                    ),
                ),
                Err(error) => Err(error),
            }
        },
        RollbackState::Loser => {
            match read_snapshot_node(snapshot.node.id.as_str(), rows) {
                Ok(None) => Ok(RollbackNext::Write),
                Ok(Some(_)) => Err(
                    MemoryError::Backend(
                        concat3(
                            "rollback_merge: loser node ",
                            snapshot.node.id.as_str(),
                            " still exists; the merge did not happen or was already rolled back",
                        ),
                    ),
                ),
                Err(error) => Err(error),
            }
        },
    }
}

/// The error of a snapshot that does not parse.
pub fn malformed_snapshot(detail: &str) -> (r: MemoryError)
    ensures
        r.is_backend("rollback_merge: malformed snapshot: "@ + detail@),
{
    MemoryError::Backend("rollback_merge: malformed snapshot: ".to_owned().concat(detail))
}

/// The error of a snapshot that does not serialize.
pub fn unserializable_snapshot(detail: &str) -> (r: MemoryError)
    ensures
        r.is_backend("merge snapshot serialization failed: "@ + detail@),
{
    MemoryError::Backend("merge snapshot serialization failed: ".to_owned().concat(detail))
}

} // verus!
