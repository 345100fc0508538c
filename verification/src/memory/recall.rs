//! The recall reads: the two-hop expansion and the hydration of known edges.

use crate::memory::cypher::{expansion_query, expansion_request};
use crate::memory::edge_id::{DecodedEdgeId, decoding, edge_id_text, is_decoded};
use crate::memory::recall_laws::law_both_ends_are_queued;
use crate::memory::rows::{
    CandidateRow, Row, candidate_edge, candidate_row, candidate_rows, columns, expansions_of,
    read_expansion_edges, table, text_at, text_column,
};
use crate::memory::types::{CandidateEdge, EdgeId, RECALL_TIME_WINDOW_DAYS};
use crate::memory::value::{Query, Value};
use crate::text::{same_text, texts};
use crate::timestamp::{MIN_LOCAL_NANOS, NANOS_PER_DAY, Timestamp, moment_text};
use vstd::hash_set::StringHashSet;
use vstd::prelude::*;

verus! {

/// The nodes to query, entries first, and the candidates found so far.
#[verifier::ext_equal]
pub struct Expansion {
    pub queue: Seq<Seq<char>>,
    pub candidates: Seq<CandidateRow>,
}

/// The endpoint of the edge that is not the node.
pub open spec fn other_end(node: Seq<char>, edge: CandidateRow) -> Seq<char> {
    if edge.source == node {
        edge.target
    } else {
        edge.source
    }
}

/// Whether one of the candidates has the edge identifier.
pub open spec fn has_candidate(candidates: Seq<CandidateRow>, edge_id: Seq<char>) -> bool {
    exists|i: int| 0 <= i < candidates.len() && (#[trigger] candidates[i]).edge_id == edge_id
}

impl Expansion {
    /// The expansion after one edge of the node: on the first hop its other end is
    /// queued once, and the edge is a candidate once.
    pub open spec fn with_edge(
        self,
        node: Seq<char>,
        edge: CandidateRow,
        first_hop: bool,
    ) -> Expansion {
        Expansion {
            queue: if first_hop && !self.queue.contains(other_end(node, edge)) {
                self.queue.push(other_end(node, edge))
            } else {
                self.queue
            },
            candidates: if has_candidate(self.candidates, edge.edge_id) {
                self.candidates
            } else {
                self.candidates.push(edge)
            },
        }
    }

    /// The expansion after the edges of the node.
    pub open spec fn with_edges(
        self,
        node: Seq<char>,
        edges: Seq<CandidateRow>,
        first_hop: bool,
    ) -> Expansion
        decreases edges.len(),
    {
        if edges.len() == 0 {
            self
        } else {
            self.with_edges(node, edges.drop_last(), first_hop).with_edge(
                node,
                edges.last(),
                first_hop,
            )
        }
    }

    /// Whether no candidate occurs twice and every queued node past the first
    /// `entries` is new.
    pub open spec fn distinct(self, entries: int) -> bool {
        &&& forall|i: int, j: int|
            0 <= i < j < self.candidates.len() ==> (#[trigger] self.candidates[i]).edge_id != (
            #[trigger] self.candidates[j]).edge_id
        &&& forall|i: int, j: int|
            0 <= i < j < self.queue.len() && entries <= j ==> #[trigger] self.queue[i]
                != #[trigger] self.queue[j]
    }
}

/// Taking in the edges of a node keeps the candidates and the new nodes distinct.
pub proof fn law_expansion_stays_distinct(
    expansion: Expansion,
    entries: int,
    node: Seq<char>,
    edges: Seq<CandidateRow>,
    first_hop: bool,
)
    requires
        expansion.distinct(entries),
        0 <= entries <= expansion.queue.len(),
    ensures
        expansion.with_edges(node, edges, first_hop).distinct(entries),
        entries <= expansion.with_edges(node, edges, first_hop).queue.len(),
    decreases edges.len(),
{
    if edges.len() > 0 {
        law_expansion_stays_distinct(expansion, entries, node, edges.drop_last(), first_hop);
        let before = expansion.with_edges(node, edges.drop_last(), first_hop);
        let after = expansion.with_edges(node, edges, first_hop);
        assert forall|i: int, j: int| 0 <= i < j < after.candidates.len() implies (
        #[trigger] after.candidates[i]).edge_id != (#[trigger] after.candidates[j]).edge_id by {
            if j == before.candidates.len() {
                assert(before.candidates[i].edge_id != edges.last().edge_id);
            }
        }
        assert forall|i: int, j: int| 0 <= i < j < after.queue.len() && entries <= j implies
            #[trigger] after.queue[i] != #[trigger] after.queue[j] by {
            if j == before.queue.len() {
                assert(before.queue.contains(before.queue[i]));
            }
        }
    }
}

/// The course of a two-hop expansion: the entries are queried first, then the nodes
/// next to them.
pub struct TwoHop {
    queue: Vec<String>,
    entries: usize,
    next: usize,
    candidates: Vec<CandidateEdge>,
    cutoff: Timestamp,
    per_node_limit: usize,
    seen_nodes: StringHashSet,
    seen_edges: StringHashSet,
}

impl View for TwoHop {
    type V = Expansion;

    closed spec fn view(&self) -> Expansion {
        Expansion {
            queue: texts(self.queue@),
            candidates: candidate_rows(self.candidates@),
        }
    }
}

impl TwoHop {
    /// The number of entry nodes.
    pub closed spec fn entry_count(self) -> int {
        self.entries as int
    }

    /// The number of nodes queried so far.
    pub closed spec fn queried(self) -> int {
        self.next as int
    }

    /// The start of the recall window.
    pub closed spec fn window_start(self) -> Timestamp {
        self.cutoff
    }

    /// The most edges that one node contributes.
    pub closed spec fn limit(self) -> nat {
        self.per_node_limit as nat
    }

    /// The lookup sets hold exactly the queued nodes and the candidates, and nothing
    /// occurs twice.
    pub closed spec fn well_formed(self) -> bool {
        &&& self.entries <= self.queue@.len()
        &&& self.next <= self.queue@.len()
        &&& self@.distinct(self.entries as int)
        &&& forall|n: Seq<char>| self.seen_nodes@.contains(n) <==> texts(self.queue@).contains(n)
        &&& forall|id: Seq<char>|
            self.seen_edges@.contains(id) <==> has_candidate(
                candidate_rows(self.candidates@),
                id,
            )
    }

    /// Starts the expansion of the entry nodes at the given time. There is nothing to
    /// expand for no entries.
    pub fn start(entry_node_ids: &Vec<String>, now: Timestamp, per_node_limit: usize) -> (r: Option<
        TwoHop,
    >)
        requires
            entry_node_ids@.len() > 0 ==> now.local_nanos() - RECALL_TIME_WINDOW_DAYS
                * NANOS_PER_DAY >= MIN_LOCAL_NANOS,
        ensures
            r is None <==> entry_node_ids@.len() == 0,
            r matches Some(run) ==> {
                &&& run.well_formed()
                &&& run@ == (Expansion { queue: texts(entry_node_ids@), candidates: Seq::empty() })
                &&& run.entry_count() == entry_node_ids@.len()
                &&& run.queried() == 0
                &&& run.limit() == per_node_limit
                &&& run.window_start().unix_nanos() == now.unix_nanos() - RECALL_TIME_WINDOW_DAYS
                    * NANOS_PER_DAY
                &&& run.window_start().unix_nanos() == now.unix_nanos() - 90 * 86_400_000_000_000
                &&& run.window_start().offset_seconds() == now.offset_seconds()
            },
    {
        if entry_node_ids.len() == 0 {
            return None;
        }
        let cutoff = now.minus_days(RECALL_TIME_WINDOW_DAYS).unwrap();
        let mut queue: Vec<String> = Vec::new();
        let mut seen_nodes = StringHashSet::new();
        let mut i: usize = 0;
        while i < entry_node_ids.len()
            invariant
                i <= entry_node_ids@.len(),
                queue@ == entry_node_ids@.take(i as int),
                forall|n: Seq<char>| seen_nodes@.contains(n) <==> texts(queue@).contains(n),
            decreases entry_node_ids@.len() - i,
        {
            let ghost before = queue@;
            let ghost id = entry_node_ids@[i as int]@;
            queue.push(entry_node_ids[i].clone());
            let _ = seen_nodes.insert(entry_node_ids[i].clone());
            assert(texts(queue@) =~= texts(before).push(id));
            assert forall|n: Seq<char>| seen_nodes@.contains(n) <==> texts(queue@).contains(
                n,
            ) by {
                lemma_contains_push(texts(before), id, n);
            }
            i += 1;
        }
        assert(queue@ =~= entry_node_ids@);
        let entries: usize = queue.len();
        let r = TwoHop {
            queue,
            entries,
            next: 0,
            candidates: Vec::new(),
            cutoff,
            per_node_limit,
            seen_nodes,
            seen_edges: StringHashSet::new(),
        };
        assert(r@.candidates =~= Seq::empty());
        Some(r)
    }

    /// The next read; `None` at the end of the expansion.
    pub fn query(&self) -> (r: Option<Query>)
        requires
            self.well_formed(),
        ensures
            r is Some <==> self.queried() < self@.queue.len(),
            r matches Some(query) ==> query@ == expansion_request(
                self@.queue[self.queried()],
                self.window_start(),
                self.limit(),
            ),
    {
        if self.next < self.queue.len() {
            Some(
                expansion_query(
                    self.queue[self.next].as_str(),
                    self.cutoff,
                    self.per_node_limit,
                ),
            )
        } else {
            None
        }
    }

    /// Takes in the rows of the read: on the first hop new neighbors are queued; an
    /// edge becomes a candidate where it is new.
    pub fn accept(&mut self, rows: &Vec<Row>)
        requires
            old(self).well_formed(),
            old(self).queried() < old(self)@.queue.len(),
        ensures
            final(self).well_formed(),
            final(self)@ == old(self)@.with_edges(
                old(self)@.queue[old(self).queried()],
                expansions_of(table(rows@)),
                old(self).queried() < old(self).entry_count(),
            ),
            old(self).queried() < old(self).entry_count() ==> ({
                let node = old(self)@.queue[old(self).queried()];
                let edges = expansions_of(table(rows@));
                forall|i: int|
                    0 <= i < edges.len() && ((#[trigger] edges[i]).source == node
                        || edges[i].target == node) ==> final(self)@.queue.contains(
                        edges[i].source,
                    ) && final(self)@.queue.contains(edges[i].target)
            }),
            old(self).queried() >= old(self).entry_count() ==> final(self)@.queue
                == old(self)@.queue,
            final(self).queried() == old(self).queried() + 1,
            final(self).entry_count() == old(self).entry_count(),
            final(self).window_start() == old(self).window_start(),
            final(self).limit() == old(self).limit(),
    {
        let edges = read_expansion_edges(rows);
        let first_hop = self.next < self.entries;
        let node = self.queue[self.next].clone();
        let ghost start = self@;
        let ghost found = candidate_rows(edges@);
        let ghost given = edges@;
        let ghost at = self.next;
        assert(node@ == start.queue[at as int]);
        assert(start.with_edges(node@, found.take(0), first_hop) == start);
        for edge in it: edges
            invariant
                it.seq() == given,
                found == candidate_rows(given),
                self.well_formed(),
                self@ == start.with_edges(node@, found.take(it.index() as int), first_hop),
                self.next == at,
                at < self.queue@.len(),
                self.entries == old(self).entries,
                self.cutoff == old(self).cutoff,
                self.per_node_limit == old(self).per_node_limit,
        {
            let ghost n = it.index() as int;
            let ghost before = self@;
            proof {
                assert(found[n] == edge@);
                assert(found.take(n + 1).drop_last() =~= found.take(n));
                assert(before.distinct(self.entries as int));
            }
            if first_hop {
                let other = if same_text(edge.source_id.as_str(), node.as_str()) {
                    edge.target_id.clone()
                } else {
                    edge.source_id.clone()
                };
                if self.seen_nodes.insert(other.clone()) {
                    let ghost queued = self.queue@;
                    self.queue.push(other);
                    assert(texts(self.queue@) =~= texts(queued).push(other@));
                    assert forall|m: Seq<char>| self.seen_nodes@.contains(m) <==> texts(
                        self.queue@,
                    ).contains(m) by {
                        lemma_contains_push(texts(queued), other@, m);
                    }
                } else {
                    assert forall|m: Seq<char>| self.seen_nodes@.contains(m) <==> texts(
                        self.queue@,
                    ).contains(m) by {}
                }
            }
            if self.seen_edges.insert(edge.edge_id.clone()) {
                let ghost kept_before = self.candidates@;
                let ghost id = edge.edge_id@;
                self.candidates.push(edge);
                assert(candidate_rows(self.candidates@) =~= candidate_rows(kept_before).push(
                    edge@,
                ));
                assert forall|m: Seq<char>| self.seen_edges@.contains(m) <==> has_candidate(
                    candidate_rows(self.candidates@),
                    m,
                ) by {
                    lemma_has_candidate_push(candidate_rows(kept_before), edge@, m);
                }
            }
            proof {
                assert(self@ =~= before.with_edge(node@, edge@, first_hop));
                law_expansion_stays_distinct(
                    before,
                    self.entries as int,
                    node@,
                    seq![edge@],
                    first_hop,
                );
                assert(seq![edge@].drop_last() =~= Seq::empty());
                assert(before.with_edges(node@, seq![edge@].drop_last(), first_hop) == before);
                assert(before.with_edges(node@, seq![edge@], first_hop) == before.with_edge(
                    node@,
                    edge@,
                    first_hop,
                ));
            }
        }
        proof {
            assert(found.take(found.len() as int) =~= found);
            assert(start.queue.contains(start.queue[at as int]));
            law_both_ends_are_queued(start, node@, found, first_hop);
        }
        assert(self.next < self.queue.len());
        self.next = self.next + 1;
    }

    /// The candidates of the expansion.
    pub fn finish(self) -> (r: Vec<CandidateEdge>)
        ensures
            candidate_rows(r@) == self@.candidates,
    {
        self.candidates
    }
}

proof fn lemma_contains_push(s: Seq<Seq<char>>, a: Seq<char>, b: Seq<char>)
    ensures
        s.push(a).contains(b) <==> s.contains(b) || a == b,
{
    if s.contains(b) {
        let i = choose|i: int| 0 <= i < s.len() && s[i] == b;
        assert(s.push(a)[i] == b);
    }
    if a == b {
        assert(s.push(a)[s.len() as int] == b);
    }
    if s.push(a).contains(b) {
        let i = choose|i: int| 0 <= i < s.push(a).len() && s.push(a)[i] == b;
        if i < s.len() {
            assert(s[i] == b);
        }
    }
}

proof fn lemma_has_candidate_push(s: Seq<CandidateRow>, a: CandidateRow, id: Seq<char>)
    ensures
        has_candidate(s.push(a), id) <==> has_candidate(s, id) || a.edge_id == id,
{
    if has_candidate(s, id) {
        let i = choose|i: int| 0 <= i < s.len() && (#[trigger] s[i]).edge_id == id;
        assert(s.push(a)[i].edge_id == id);
    }
    if a.edge_id == id {
        assert(s.push(a)[s.len() as int].edge_id == id);
    }
    if has_candidate(s.push(a), id) {
        let i = choose|i: int|
            0 <= i < s.push(a).len() && (#[trigger] s.push(a)[i]).edge_id == id;
        if i < s.len() {
            assert(s[i].edge_id == id);
        }
    }
}

// ----- hydration -----

impl DecodedEdgeId {
    /// The identifier that the decoded columns encode to.
    pub open spec fn encoded(self) -> Seq<char> {
        edge_id_text(
            self.source,
            self.relationship,
            self.target,
            moment_text(self.valid_at.0, self.valid_at.1),
        )
    }
}

/// Whether one of the keys encodes to the text.
pub open spec fn has_key_text(keys: Seq<DecodedEdgeId>, text: Seq<char>) -> bool {
    exists|i: int| 0 <= i < keys.len() && (#[trigger] keys[i]).encoded() == text
}

/// The keys to hydrate: the identifiers that decode, each key once.
pub open spec fn hydration(ids: Seq<Seq<char>>) -> Seq<DecodedEdgeId>
    decreases ids.len(),
{
    if ids.len() == 0 {
        Seq::empty()
    } else {
        let before = hydration(ids.drop_last());
        match decoding(ids.last()) {
            Ok(key) => if has_key_text(before, key.encoded()) {
                before
            } else {
                before.push(key)
            },
            Err(_) => before,
        }
    }
}

/// Whether the keys are the decoded ones, in order.
pub open spec fn are_decoded(keys: Seq<EdgeId>, decoded: Seq<DecodedEdgeId>) -> bool {
    &&& keys.len() == decoded.len()
    &&& forall|i: int| 0 <= i < keys.len() ==> is_decoded(#[trigger] keys[i], decoded[i])
}

/// The keys to hydrate. A malformed identifier is skipped, a repeated one counts
/// once.
pub fn hydration_keys(edge_ids: &Vec<String>) -> (r: Vec<EdgeId>)
    ensures
        are_decoded(r@, hydration(texts(edge_ids@))),
{
    let ghost all = texts(edge_ids@);
    let mut keys: Vec<EdgeId> = Vec::new();
    let mut seen = StringHashSet::new();
    let mut i: usize = 0;
    assert(hydration(all.take(0)).len() == 0);
    while i < edge_ids.len()
        invariant
            i <= edge_ids@.len(),
            all == texts(edge_ids@),
            are_decoded(keys@, hydration(all.take(i as int))),
            forall|t: Seq<char>|
                seen@.contains(t) <==> has_key_text(hydration(all.take(i as int)), t),
        decreases edge_ids@.len() - i,
    {
        let ghost before = hydration(all.take(i as int));
        proof {
            assert(all.take(i + 1).drop_last() =~= all.take(i as int));
            assert(all.take(i + 1).last() == edge_ids@[i as int]@);
        }
        match EdgeId::decode(edge_ids[i].as_str()) {
            Ok(key) => {
                let ghost decoded = decoding(edge_ids@[i as int]@)->Ok_0;
                let text = key.encode();
                assert(text@ == decoded.encoded());
                if seen.insert(text) {
                    keys.push(key);
                    proof {
                        assert(hydration(all.take(i + 1)) == before.push(decoded));
                        assert forall|t: Seq<char>| seen@.contains(t) <==> has_key_text(
                            before.push(decoded),
                            t,
                        ) by {
                            lemma_has_key_push(before, decoded, t);
                        }
                    }
                }
            },
            Err(_) => {},
        }
        i += 1;
    }
    assert(all.take(i as int) =~= all);
    keys
}

proof fn lemma_has_key_push(s: Seq<DecodedEdgeId>, a: DecodedEdgeId, t: Seq<char>)
    ensures
        has_key_text(s.push(a), t) <==> has_key_text(s, t) || a.encoded() == t,
{
    if has_key_text(s, t) {
        let i = choose|i: int| 0 <= i < s.len() && (#[trigger] s[i]).encoded() == t;
        assert(s.push(a)[i].encoded() == t);
    }
    if a.encoded() == t {
        assert(s.push(a)[s.len() as int].encoded() == t);
    }
    if has_key_text(s.push(a), t) {
        let i = choose|i: int| 0 <= i < s.push(a).len() && (#[trigger] s.push(a)[i]).encoded() == t;
        if i < s.len() {
            assert(s[i].encoded() == t);
        }
    }
}

/// The candidate that the rows of a hydration read give: none where the edge is gone
/// or the row has an unexpected shape.
pub open spec fn hydrated(key: EdgeId, rows: Seq<Seq<Value>>) -> Option<CandidateRow> {
    if rows.len() == 0 {
        None
    } else {
        match (text_column(rows[0], 0), text_column(rows[0], 1), text_column(rows[0], 2)) {
            (Some(source_name), Some(target_name), Some(text)) => Some(
                candidate_row(
                    key.source_id@,
                    source_name,
                    key.target_id@,
                    target_name,
                    key.relationship_name@,
                    text,
                    key.valid_at,
                ),
            ),
            _ => None,
        }
    }
}

/// The candidate that the rows of a hydration read give.
pub fn hydrate(key: &EdgeId, rows: &Vec<Row>) -> (r: Option<CandidateEdge>)
    ensures
        match r {
            Some(edge) => hydrated(*key, table(rows@)) == Some(edge@),
            None => hydrated(*key, table(rows@)) is None,
        },
{
    if rows.len() == 0 {
        return None;
    }
    let row = &rows[0];
    assert(table(rows@)[0] == columns(*row));
    match (text_at(row, 0), text_at(row, 1), text_at(row, 2)) {
        (Some(source_name), Some(target_name), Some(edge_text)) => Some(
            candidate_edge(
                key.source_id.clone(),
                source_name,
                key.target_id.clone(),
                target_name,
                key.relationship_name.clone(),
                edge_text,
                key.valid_at,
            ),
        ),
        _ => None,
    }
}

} // verus!
