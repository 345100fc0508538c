//! The single-value pass of a merge: of the survivor's valid edges of one
//! relationship, the newest stays.

use crate::memory::batch::contains_name;
use crate::memory::cypher::{GraphWrite, valid_outgoing_query, valid_outgoing_request, writes_of};
use crate::memory::graph::{EdgeKey, Graph, Write};
use crate::memory::rows::{Row, columns, table, text_at, text_column, time_at, time_column};
use crate::memory::types::{EdgeId, MemoryError, Result};
use crate::memory::value::{Query, Value};
use crate::text::{
    comes_before, lemma_text_order_total, lemma_text_order_transitive, text_less, texts,
};
use crate::timestamp::Timestamp;
use vstd::prelude::*;
use vstd::seq_lib::to_multiset_insert;

verus! {

/// Whether `a` ranks before `b`: the newer edge first, and of two edges of one
/// instant the one with the smaller identifier.
pub open spec fn ranks_before(a: EdgeId, b: EdgeId) -> bool {
    ||| a.valid_at.unix_nanos() > b.valid_at.unix_nanos()
    ||| a.valid_at.unix_nanos() == b.valid_at.unix_nanos() && text_less(a.encoded(), b.encoded())
}

/// Whether no edge ranks before an earlier one.
pub open spec fn is_ranked(edges: Seq<EdgeId>) -> bool {
    forall|i: int, j: int|
        0 <= i < j < edges.len() ==> !ranks_before(#[trigger] edges[j], #[trigger] edges[i])
}

/// Ranking is a strict order.
pub proof fn lemma_rank_order(a: EdgeId, b: EdgeId, c: EdgeId)
    ensures
        !(ranks_before(a, b) && ranks_before(b, a)),
        ranks_before(a, b) && ranks_before(b, c) ==> ranks_before(a, c),
{
    lemma_text_order_total(a.encoded(), b.encoded());
    lemma_text_order_total(b.encoded(), a.encoded());
    if text_less(a.encoded(), b.encoded()) && text_less(b.encoded(), c.encoded()) {
        lemma_text_order_transitive(a.encoded(), b.encoded(), c.encoded());
    }
}

/// The edges in rank order.
pub fn rank_edges(edges: Vec<EdgeId>) -> (r: Vec<EdgeId>)
    ensures
        is_ranked(r@),
        r@.to_multiset() == edges@.to_multiset(),
        r@.len() == edges@.len(),
        forall|i: int, j: int|
            0 <= i < j < r@.len() ==> (#[trigger] r@[i]).valid_at.unix_nanos() >= (
            #[trigger] r@[j]).valid_at.unix_nanos(),
{
    let ghost all = edges@;
    let mut ranked: Vec<EdgeId> = Vec::new();
    let mut ids: Vec<String> = Vec::new();
    assert(ranked@ =~= all.take(0));
    for edge in it: edges
        invariant
            it.seq() == all,
            is_ranked(ranked@),
            ranked@.to_multiset() == all.take(it.index() as int).to_multiset(),
            ranked@.len() == it.index(),
            ids@.len() == ranked@.len(),
            forall|k: int| 0 <= k < ids@.len() ==> (#[trigger] ids@[k])@ == ranked@[k].encoded(),
    {
        let id = edge.encode();
        let ghost n = it.index() as int;
        let mut at: usize = 0;
        while at < ranked.len() && !(edge.valid_at.later_than(&ranked[at].valid_at) || (
        edge.valid_at.same_instant(&ranked[at].valid_at) && comes_before(
            id.as_str(),
            ids[at].as_str(),
        )))
            invariant
                at <= ranked@.len(),
                ids@.len() == ranked@.len(),
                id@ == edge.encoded(),
                forall|k: int|
                    0 <= k < ids@.len() ==> (#[trigger] ids@[k])@ == ranked@[k].encoded(),
                forall|k: int| 0 <= k < at ==> !ranks_before(edge, #[trigger] ranked@[k]),
            decreases ranked@.len() - at,
        {
            at += 1;
        }
        let ghost before = ranked@;
        proof {
            to_multiset_insert(before, at as int, edge);
            assert(all.take(n + 1) =~= all.take(n).push(all[n]));
            vstd::seq_lib::to_multiset_build(all.take(n), all[n]);
            if at < before.len() {
                assert(ranks_before(edge, before[at as int]));
                assert forall|k: int| at <= k < before.len() implies !ranks_before(
                    #[trigger] before[k],
                    edge,
                ) by {
                    lemma_rank_order(before[k], edge, before[at as int]);
                    if k == at {
                        lemma_rank_order(edge, before[k], edge);
                    }
                }
            }
        }
        ranked.insert(at, edge);
        ids.insert(at, id);
        proof {
            assert forall|i: int, j: int| 0 <= i < j < ranked@.len() implies !ranks_before(
                #[trigger] ranked@[j],
                #[trigger] ranked@[i],
            ) by {
                let a = if i < at {
                    i
                } else {
                    i - 1
                };
                let b = if j < at {
                    j
                } else {
                    j - 1
                };
                if i != at && j != at {
                    assert(ranked@[i] == before[a]);
                    assert(ranked@[j] == before[b]);
                } else if i == at {
                    assert(ranked@[j] == before[j - 1]);
                } else {
                    assert(ranked@[i] == before[i]);
                }
            }
        }
    }
    assert(all.take(all.len() as int) =~= all);
    assert forall|i: int, j: int| 0 <= i < j < ranked@.len() implies (
    #[trigger] ranked@[i]).valid_at.unix_nanos() >= (
    #[trigger] ranked@[j]).valid_at.unix_nanos() by {
        assert(!ranks_before(ranked@[j], ranked@[i]));
    }
    ranked
}

/// The writes that invalidate every edge but the first in rank.
pub open spec fn stale_writes(ranked: Seq<EdgeId>, now: Timestamp) -> Seq<Write> {
    if ranked.len() == 0 {
        Seq::empty()
    } else {
        ranked.skip(1).map_values(
            |edge: EdgeId|
                Write::SetInvalidAt { key: edge@, invalid_at: Some(now), updated_at: now },
        )
    }
}

fn clone_key(edge: &EdgeId) -> (r: EdgeId)
    ensures
        r == *edge,
{
    EdgeId {
        source_id: edge.source_id.clone(),
        relationship_name: edge.relationship_name.clone(),
        target_id: edge.target_id.clone(),
        valid_at: edge.valid_at,
    }
}

/// The writes that invalidate every edge but the first in rank.
pub fn invalidate_stale(ranked: &Vec<EdgeId>, now: Timestamp) -> (r: Vec<GraphWrite>)
    ensures
        writes_of(r@) == stale_writes(ranked@, now),
        r@.len() == (if ranked@.len() == 0 {
            0
        } else {
            ranked@.len() - 1
        }),
{
    let mut writes: Vec<GraphWrite> = Vec::new();
    let ghost expected = stale_writes(ranked@, now);
    assert(writes_of(writes@) =~= expected.take(0));
    let mut i: usize = 1;
    while i < ranked.len()
        invariant
            1 <= i,
            ranked@.len() == 0 || i <= ranked@.len(),
            ranked@.len() == 0 ==> i == 1,
            expected == stale_writes(ranked@, now),
            writes@.len() == i - 1,
            writes_of(writes@) == expected.take(i - 1),
        decreases ranked@.len() - i,
    {
        let ghost before = writes@;
        let key = clone_key(&ranked[i]);
        writes.push(GraphWrite::SetInvalidAt { key, invalid_at: Some(now), updated_at: now });
        assert(writes_of(writes@) =~= writes_of(before).push(expected[i - 1]));
        i += 1;
    }
    assert(expected.take(expected.len() as int) =~= expected);
    writes
}

/// Whether every row names a target and its validity time.
pub open spec fn targets_decode(rows: Seq<Seq<Value>>) -> bool {
    forall|i: int|
        0 <= i < rows.len() ==> text_column(#[trigger] rows[i], 0) is Some && time_column(
            rows[i],
            1,
        ) is Some
}

/// Whether the edges are those of the rows.
pub open spec fn are_targets(
    edges: Seq<EdgeId>,
    subject: Seq<char>,
    relationship: Seq<char>,
    rows: Seq<Seq<Value>>,
) -> bool {
    &&& edges.len() == rows.len()
    &&& forall|i: int|
        0 <= i < rows.len() ==> {
            &&& (#[trigger] edges[i]).source_id@ == subject
            &&& edges[i].relationship_name@ == relationship
            &&& Some(edges[i].target_id@) == text_column(rows[i], 0)
            &&& Some(edges[i].valid_at) == time_column(rows[i], 1)
        }
}

/// The valid edges of one subject and relationship. A row of an unexpected shape is
/// an error: the pass must not skip an edge it cannot address.
pub fn read_valid_targets(subject_id: &str, relationship_name: &str, rows: &Vec<Row>) -> (r: Result<
    Vec<EdgeId>,
>)
    ensures
        match r {
            Ok(edges) => targets_decode(table(rows@)) && are_targets(
                edges@,
                subject_id@,
                relationship_name@,
                table(rows@),
            ),
            Err(error) => !targets_decode(table(rows@)) && error.is_backend(
                "merge single-value pass: unexpected edge row shape for survivor "@ + subject_id@,
            ),
        },
{
    let mut edges: Vec<EdgeId> = Vec::new();
    let ghost all = table(rows@);
    let mut i: usize = 0;
    while i < rows.len()
        invariant
            i <= rows@.len(),
            all == table(rows@),
            are_targets(edges@, subject_id@, relationship_name@, all.take(i as int)),
            forall|k: int|
                0 <= k < i ==> text_column(#[trigger] all[k], 0) is Some && time_column(
                    all[k],
                    1,
                ) is Some,
        decreases rows@.len() - i,
    {
        let row = &rows[i];
        assert(all[i as int] == columns(*row));
        match (text_at(row, 0), time_at(row, 1)) {
            (Some(target_id), Some(valid_at)) => {
                let ghost before = edges@;
                edges.push(
                    EdgeId {
                        source_id: subject_id.to_owned(),
                        relationship_name: relationship_name.to_owned(),
                        target_id,
                        valid_at,
                    },
                );
                proof {
                    let longer = all.take(i + 1);
                    assert forall|k: int| 0 <= k < longer.len() implies {
                        &&& (#[trigger] edges@[k]).source_id@ == subject_id@
                        &&& edges@[k].relationship_name@ == relationship_name@
                        &&& Some(edges@[k].target_id@) == text_column(longer[k], 0)
                        &&& Some(edges@[k].valid_at) == time_column(longer[k], 1)
                    } by {
                        if k < i {
                            assert(edges@[k] == before[k]);
                            assert(all.take(i as int)[k] == all[k]);
                        }
                    }
                }
            },
            _ => {
                return Err(
                    MemoryError::Backend(
                        "merge single-value pass: unexpected edge row shape for survivor ".to_owned().concat(
                        subject_id),
                    ),
                );
            },
        }
        i += 1;
    }
    assert(all.take(i as int) =~= all);
    Ok(edges)
}

/// The texts without repetitions, in the order of their first occurrence.
pub open spec fn distinct(list: Seq<Seq<char>>) -> Seq<Seq<char>>
    decreases list.len(),
{
    if list.len() == 0 {
        Seq::empty()
    } else {
        let before = distinct(list.drop_last());
        if before.contains(list.last()) {
            before
        } else {
            before.push(list.last())
        }
    }
}

/// The texts without repetitions.
pub fn distinct_names(list: &Vec<String>) -> (r: Vec<String>)
    ensures
        texts(r@) == distinct(texts(list@)),
{
    let mut out: Vec<String> = Vec::new();
    let ghost all = texts(list@);
    assert(texts(out@) =~= distinct(all.take(0)));
    let mut i: usize = 0;
    while i < list.len()
        invariant
            i <= list@.len(),
            all == texts(list@),
            texts(out@) == distinct(all.take(i as int)),
        decreases list@.len() - i,
    {
        let ghost before = out@;
        assert(all.take(i + 1).drop_last() =~= all.take(i as int));
        if !contains_name(&out, &list[i]) {
            out.push(list[i].clone());
            assert(texts(out@) =~= texts(before).push(list@[i as int]@));
        }
        i += 1;
    }
    assert(all.take(i as int) =~= all);
    out
}

/// The course of the single-value pass over one survivor.
#[derive(Debug, Clone, PartialEq, Eq)]
pub struct SingleValuePass {
    pub survivor_id: String,
    /// The relationships to look at, each once.
    pub predicates: Vec<String>,
    /// The relationship that is next.
    pub next: usize,
    /// The edges invalidated so far.
    pub invalidated: u32,
    pub now: Timestamp,
}

/// The decision of one step of the pass.
#[derive(Debug, Clone, PartialEq, Eq)]
pub struct PassStep {
    /// The valid edges in rank order; the first one stays.
    pub ranked: Vec<EdgeId>,
    pub writes: Vec<GraphWrite>,
}

impl SingleValuePass {
    /// Starts the pass. A repeated relationship is looked at once.
    pub fn start(survivor_id: &str, single_value_predicates: &Vec<String>, now: Timestamp) -> (r:
        SingleValuePass)
        ensures
            r.survivor_id@ == survivor_id@,
            texts(r.predicates@) == distinct(texts(single_value_predicates@)),
            r.next == 0,
            r.invalidated == 0,
            r.now == now,
    {
        SingleValuePass {
            survivor_id: survivor_id.to_owned(),
            predicates: distinct_names(single_value_predicates),
            next: 0,
            invalidated: 0,
            now,
        }
    }

    /// The next read; `None` at the end of the pass.
    pub fn query(&self) -> (r: Option<Query>)
        ensures
            r is Some <==> self.next < self.predicates@.len(),
            r matches Some(query) ==> query@ == valid_outgoing_request(
                self.survivor_id@,
                self.predicates@[self.next as int]@,
            ),
    {
        if self.next < self.predicates.len() {
            Some(
                valid_outgoing_query(
                    self.survivor_id.as_str(),
                    self.predicates[self.next].as_str(),
                ),
            )
        } else {
            None
        }
    }

    /// Takes the rows of the read and decides which edges go.
    pub fn accept(&mut self, rows: &Vec<Row>) -> (r: Result<PassStep>)
        requires
            old(self).next < old(self).predicates@.len(),
            old(self).invalidated + rows@.len() <= u32::MAX,
        ensures
            match r {
                Ok(step) => {
                    &&& targets_decode(table(rows@))
                    &&& exists|edges: Seq<EdgeId>| #[trigger]
                        are_targets(
                            edges,
                            old(self).survivor_id@,
                            old(self).predicates@[old(self).next as int]@,
                            table(rows@),
                        ) && step.ranked@.to_multiset() == edges.to_multiset()
                    &&& is_ranked(step.ranked@)
                    &&& writes_of(step.writes@) == stale_writes(step.ranked@, old(self).now)
                    &&& *final(self) == (SingleValuePass {
                        next: (old(self).next + 1) as usize,
                        invalidated: (old(self).invalidated + step.writes@.len()) as u32,
                        ..*old(self)
                    })
                    &&& old(self).invalidated + step.writes@.len() <= u32::MAX
                },
                Err(error) => {
                    &&& !targets_decode(table(rows@))
                    &&& error.is_backend(
                        "merge single-value pass: unexpected edge row shape for survivor "@ + old(
                            self,
                        ).survivor_id@,
                    )
                    &&& *final(self) == *old(self)
                },
            },
    {
        match read_valid_targets(
            self.survivor_id.as_str(),
            self.predicates[self.next].as_str(),
            rows,
        ) {
            Ok(edges) => {
                let ghost listed = edges@;
                let ranked = rank_edges(edges);
                let writes = invalidate_stale(&ranked, self.now);
                assert(self.next < self.predicates.len());
                self.next = self.next + 1;
                self.invalidated = self.invalidated + writes.len() as u32;
                assert(are_targets(
                    listed,
                    old(self).survivor_id@,
                    old(self).predicates@[old(self).next as int]@,
                    table(rows@),
                ));
                Ok(PassStep { ranked, writes })
            },
            Err(error) => Err(error),
        }
    }
}

// ----- laws -----

/// Whether the edges are exactly the graph's valid edges of the subject and
/// relationship, each once.
pub open spec fn lists_valid(
    g: Graph,
    subject: Seq<char>,
    relationship: Seq<char>,
    edges: Seq<EdgeId>,
) -> bool {
    &&& forall|i: int|
        0 <= i < edges.len() ==> g.valid_edge((#[trigger] edges[i])@) && edges[i]@.source == subject
            && edges[i]@.relationship == relationship
    &&& forall|k: EdgeKey| #[trigger]
        g.valid_edge(k) && k.source == subject && k.relationship == relationship ==> exists|i: int|
            0 <= i < edges.len() && (#[trigger] edges[i])@ == k
    &&& forall|i: int, j: int|
        0 <= i < j < edges.len() ==> (#[trigger] edges[i])@ != (#[trigger] edges[j])@
}

/// Whether one of the writes addresses the key.
pub open spec fn addressed(edges: Seq<EdgeId>, key: EdgeKey) -> bool {
    exists|i: int| 0 <= i < edges.len() && (#[trigger] edges[i])@ == key
}

proof fn lemma_invalidations(g: Graph, edges: Seq<EdgeId>, now: Timestamp)
    ensures
        ({
            let writes = edges.map_values(
                |edge: EdgeId|
                    Write::SetInvalidAt { key: edge@, invalid_at: Some(now), updated_at: now },
            );
            let h = g.after_all(writes);
            &&& h.nodes == g.nodes
            &&& h.edges.dom() == g.edges.dom()
            &&& forall|k: EdgeKey| #[trigger]
                g.edges.contains_key(k) ==> h.edges[k] == (if addressed(edges, k) {
                    g.edges[k].with_validity(Some(now), now)
                } else {
                    g.edges[k]
                })
        }),
    decreases edges.len(),
{
    let writes = edges.map_values(
        |edge: EdgeId| Write::SetInvalidAt { key: edge@, invalid_at: Some(now), updated_at: now },
    );
    if edges.len() > 0 {
        let front = edges.drop_last();
        lemma_invalidations(g, front, now);
        assert(writes.drop_last() =~= front.map_values(
            |edge: EdgeId|
                Write::SetInvalidAt { key: edge@, invalid_at: Some(now), updated_at: now },
        ));
        let here = g.after_all(writes.drop_last());
        let h = g.after_all(writes);
        assert(h == here.after(writes.last()));
        assert(h.edges.dom() =~= g.edges.dom()) by {
            assert(here.edges.contains_key(edges.last()@) == here.edges.dom().contains(
                edges.last()@,
            ));
        }
        assert forall|k: EdgeKey| #[trigger] g.edges.contains_key(k) implies h.edges[k] == (
        if addressed(edges, k) {
            g.edges[k].with_validity(Some(now), now)
        } else {
            g.edges[k]
        }) by {
            assert(here.edges.dom().contains(k));
            if addressed(edges, k) {
                let i = choose|i: int| 0 <= i < edges.len() && (#[trigger] edges[i])@ == k;
                if i < front.len() {
                    assert(front[i]@ == k);
                }
            }
            if addressed(front, k) {
                let i = choose|i: int| 0 <= i < front.len() && (#[trigger] front[i])@ == k;
                assert(edges[i]@ == k);
            }
            if edges.last()@ == k {
                assert(edges[edges.len() - 1]@ == k);
            }
        }
    } else {
        assert(writes.len() == 0);
    }
}

/// One step of the pass keeps exactly the first edge in rank valid among the edges of
/// its subject and relationship, and changes no other edge, no key and no node.
pub proof fn law_pass_step(
    g: Graph,
    subject: Seq<char>,
    relationship: Seq<char>,
    ranked: Seq<EdgeId>,
    now: Timestamp,
)
    requires
        lists_valid(g, subject, relationship, ranked),
    ensures
        ({
            let h = g.after_all(stale_writes(ranked, now));
            &&& h.nodes == g.nodes
            &&& h.edges.dom() == g.edges.dom()
            &&& forall|k: EdgeKey|
                k.source == subject && k.relationship == relationship ==> (#[trigger] h.valid_edge(k)
                    <==> ranked.len() > 0 && k == ranked[0]@)
            &&& forall|k: EdgeKey| #[trigger]
                g.edges.contains_key(k) && !(k.source == subject && k.relationship == relationship)
                    ==> h.edges[k] == g.edges[k]
        }),
{
    let h = g.after_all(stale_writes(ranked, now));
    if ranked.len() == 0 {
        assert(h == g);
        assert forall|k: EdgeKey| k.source == subject && k.relationship
            == relationship implies !#[trigger] h.valid_edge(k) by {
            if g.valid_edge(k) {
                let i = choose|i: int| 0 <= i < ranked.len() && (#[trigger] ranked[i])@ == k;
                assert(false);
            }
        }
    } else {
        let stale = ranked.skip(1);
        lemma_invalidations(g, stale, now);
        assert forall|k: EdgeKey| k.source == subject && k.relationship == relationship implies (
        #[trigger] h.valid_edge(k) <==> k == ranked[0]@) by {
            assert(h.edges.contains_key(k) == h.edges.dom().contains(k));
            if g.valid_edge(k) {
                let i = choose|i: int| 0 <= i < ranked.len() && (#[trigger] ranked[i])@ == k;
                if i > 0 {
                    assert(stale[i - 1]@ == k);
                    assert(addressed(stale, k));
                    assert(ranked[0]@ != ranked[i]@);
                } else if addressed(stale, k) {
                    let j = choose|j: int| 0 <= j < stale.len() && (#[trigger] stale[j])@ == k;
                    assert(ranked[j + 1]@ == k);
                    assert(ranked[0]@ != ranked[j + 1]@);
                }
            } else if g.edges.contains_key(k) {
                assert(k != ranked[0]@);
            } else {
                assert(k != ranked[0]@);
            }
        }
        assert forall|k: EdgeKey| #[trigger]
            g.edges.contains_key(k) && !(k.source == subject && k.relationship
                == relationship) implies h.edges[k] == g.edges[k] by {
            if addressed(stale, k) {
                let j = choose|j: int| 0 <= j < stale.len() && (#[trigger] stale[j])@ == k;
                assert(ranked[j + 1]@ == k);
            }
        }
    }
}

/// The graph before the step of each relationship, and after the last one.
pub open spec fn pass_graph(g: Graph, steps: Seq<Seq<EdgeId>>, now: Timestamp) -> Graph
    decreases steps.len(),
{
    if steps.len() == 0 {
        g
    } else {
        pass_graph(g, steps.drop_last(), now).after_all(stale_writes(steps.last(), now))
    }
}

/// Whether each step ranks exactly the valid edges that its read finds.
pub open spec fn pass_runs(
    g: Graph,
    subject: Seq<char>,
    predicates: Seq<Seq<char>>,
    steps: Seq<Seq<EdgeId>>,
    now: Timestamp,
) -> bool {
    &&& steps.len() == predicates.len()
    &&& forall|i: int|
        0 <= i < steps.len() ==> lists_valid(
            pass_graph(g, #[trigger] steps.take(i), now),
            subject,
            predicates[i],
            steps[i],
        ) && is_ranked(steps[i])
}

/// The number of edges that the steps of the pass invalidate: all but one of each step.
pub open spec fn stale_count(steps: Seq<Seq<EdgeId>>) -> nat
    decreases steps.len(),
{
    if steps.len() == 0 {
        0
    } else {
        stale_count(steps.drop_last()) + if steps.last().len() == 0 {
            0nat
        } else {
            (steps.last().len() - 1) as nat
        }
    }
}

/// Leaving repetitions out keeps every text, once.
pub proof fn lemma_distinct(list: Seq<Seq<char>>)
    ensures
        distinct(list).no_duplicates(),
        forall|name: Seq<char>| #[trigger] distinct(list).contains(name) <==> list.contains(name),
    decreases list.len(),
{
    if list.len() > 0 {
        let front = list.drop_last();
        let last = list.last();
        let before = distinct(front);
        lemma_distinct(front);
        assert(list =~= front.push(last));
        assert forall|name: Seq<char>| list.contains(name) <==> front.contains(name) || name
            == last by {
            if list.contains(name) {
                let i = choose|i: int| 0 <= i < list.len() && list[i] == name;
                if i < front.len() {
                    assert(front[i] == name);
                }
            }
            if front.contains(name) {
                let i = choose|i: int| 0 <= i < front.len() && front[i] == name;
                assert(list[i] == name);
            }
            assert(list[list.len() - 1] == last);
        }
        if !before.contains(last) {
            let after = before.push(last);
            assert forall|name: Seq<char>| #[trigger] after.contains(name) <==> before.contains(name)
                || name == last by {
                if after.contains(name) {
                    let i = choose|i: int| 0 <= i < after.len() && after[i] == name;
                    if i < before.len() {
                        assert(before[i] == name);
                    }
                }
                if before.contains(name) {
                    let i = choose|i: int| 0 <= i < before.len() && before[i] == name;
                    assert(after[i] == name);
                }
                assert(after[before.len() as int] == last);
            }
        }
    }
}

/// After the whole pass the survivor has at most one valid edge for every
/// single-value relationship: the first in rank of its step, where the relationships
/// are distinct. No key, no node and no edge of another subject or relationship changed.
pub proof fn law_pass_leaves_at_most_one(
    g: Graph,
    subject: Seq<char>,
    predicates: Seq<Seq<char>>,
    steps: Seq<Seq<EdgeId>>,
    now: Timestamp,
)
    requires
        pass_runs(g, subject, predicates, steps, now),
    ensures
        ({
            let h = pass_graph(g, steps, now);
            &&& h.nodes == g.nodes
            &&& h.edges.dom() == g.edges.dom()
            &&& forall|i: int, a: EdgeKey, b: EdgeKey|
                0 <= i < predicates.len() && a.source == subject && b.source == subject
                    && a.relationship == #[trigger] predicates[i] && b.relationship == predicates[i]
                    && #[trigger] h.valid_edge(a) && #[trigger] h.valid_edge(b) ==> a == b
            &&& predicates.no_duplicates() ==> forall|i: int, k: EdgeKey|
                0 <= i < predicates.len() && k.source == subject && k.relationship
                    == #[trigger] predicates[i] ==> (#[trigger] h.valid_edge(k)
                    <==> steps[i].len() > 0 && k == steps[i][0]@)
            &&& forall|k: EdgeKey| #[trigger]
                g.edges.contains_key(k) && !(k.source == subject && predicates.contains(
                    k.relationship,
                )) ==> h.edges[k] == g.edges[k]
        }),
    decreases steps.len(),
{
    let h = pass_graph(g, steps, now);
    if steps.len() > 0 {
        let n = steps.len() - 1;
        let front = steps.drop_last();
        assert(front =~= steps.take(n));
        let short = predicates.drop_last();
        assert(pass_runs(g, subject, short, front, now)) by {
            assert forall|i: int| 0 <= i < front.len() implies lists_valid(
                pass_graph(g, #[trigger] front.take(i), now),
                subject,
                short[i],
                front[i],
            ) && is_ranked(front[i]) by {
                assert(front.take(i) =~= steps.take(i));
                assert(front[i] == steps[i]);
            }
        }
        law_pass_leaves_at_most_one(g, subject, short, front, now);
        let here = pass_graph(g, front, now);
        assert(lists_valid(pass_graph(g, steps.take(n), now), subject, predicates[n], steps[n]));
        law_pass_step(here, subject, predicates[n], steps[n], now);
        assert forall|i: int, a: EdgeKey, b: EdgeKey|
            0 <= i < predicates.len() && a.source == subject && b.source == subject
                && a.relationship == #[trigger] predicates[i] && b.relationship == predicates[i]
                && #[trigger] h.valid_edge(a) && #[trigger] h.valid_edge(b) implies a == b by {
            if predicates[i] == predicates[n] {
                assert(a == steps[n][0]@ && b == steps[n][0]@);
            } else {
                assert(short[i] == predicates[i]);
                assert(here.edges.dom().contains(a) && here.edges.dom().contains(b));
                assert(here.edges.contains_key(a) && here.edges.contains_key(b));
                assert(here.valid_edge(a) && here.valid_edge(b));
            }
        }
        if predicates.no_duplicates() {
            assert(short.no_duplicates()) by {
                assert forall|i: int, j: int|
                    0 <= i < short.len() && 0 <= j < short.len() && i != j implies short[i]
                    != short[j] by {
                    assert(predicates[i] != predicates[j]);
                }
            }
            assert forall|i: int, k: EdgeKey|
                0 <= i < predicates.len() && k.source == subject && k.relationship
                    == #[trigger] predicates[i] implies (#[trigger] h.valid_edge(k)
                <==> steps[i].len() > 0 && k == steps[i][0]@) by {
                if i < n {
                    assert(short[i] == predicates[i]);
                    assert(front[i] == steps[i]);
                    assert(predicates[i] != predicates[n]);
                    assert(h.edges.contains_key(k) == h.edges.dom().contains(k));
                    assert(here.edges.contains_key(k) == here.edges.dom().contains(k));
                    assert(h.valid_edge(k) == here.valid_edge(k));
                }
            }
        }
        assert forall|k: EdgeKey| #[trigger]
            g.edges.contains_key(k) && !(k.source == subject && predicates.contains(
                k.relationship,
            )) implies h.edges[k] == g.edges[k] by {
            if k.source == subject {
                assert(predicates[n] != k.relationship);
                if short.contains(k.relationship) {
                    let i = choose|i: int| 0 <= i < short.len() && short[i] == k.relationship;
                    assert(predicates[i] == k.relationship);
                }
            }
            assert(here.edges.contains_key(k) == here.edges.dom().contains(k));
            assert(g.edges.contains_key(k) == g.edges.dom().contains(k));
        }
    }
}

} // verus!
