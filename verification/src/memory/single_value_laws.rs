//! Which edge a single-value pass keeps, and which it invalidates.

use crate::memory::graph::{EdgeKey, Write};
use crate::memory::single_value::{
    are_targets, distinct, is_ranked, lemma_distinct, ranks_before, stale_writes, targets_decode,
};
use crate::memory::types::EdgeId;
use crate::memory::value::Value;
use crate::text::{lemma_text_order_total, text_less};
use crate::timestamp::Timestamp;
use vstd::prelude::*;

verus! {

/// The later edge ranks first; of two edges of one instant the one whose identifier comes
/// first does.
pub proof fn law_ranking(a: EdgeId, b: EdgeId)
    ensures
        a.valid_at.unix_nanos() > b.valid_at.unix_nanos() ==> ranks_before(a, b) && !ranks_before(
            b,
            a,
        ),
        a.valid_at.unix_nanos() == b.valid_at.unix_nanos() ==> (ranks_before(a, b) <==> text_less(
            a.encoded(),
            b.encoded(),
        )),
{
}

/// The first edge in rank is the newest: no other one is later, and none of the same
/// instant has an identifier that comes before.
pub proof fn law_first_in_rank_is_newest(ranked: Seq<EdgeId>, i: int)
    requires
        is_ranked(ranked),
        0 <= i < ranked.len(),
    ensures
        ranked[0].valid_at.unix_nanos() >= ranked[i].valid_at.unix_nanos(),
        ranked[0].valid_at.unix_nanos() == ranked[i].valid_at.unix_nanos() ==> !text_less(
            ranked[i].encoded(),
            ranked[0].encoded(),
        ),
{
    lemma_text_order_total(ranked[0].encoded(), ranked[0].encoded());
    if i > 0 {
        assert(!ranks_before(ranked[i], ranked[0]));
    }
}

/// Every edge but the first in rank is invalidated, at the given time, under its own key;
/// the first one is not written.
pub proof fn law_all_but_the_first_are_invalidated(ranked: Seq<EdgeId>, now: Timestamp, i: int)
    requires
        0 < i < ranked.len(),
    ensures
        stale_writes(ranked, now).len() == ranked.len() - 1,
        stale_writes(ranked, now)[i - 1] == (Write::SetInvalidAt {
            key: EdgeKey {
                source: ranked[i].source_id@,
                relationship: ranked[i].relationship_name@,
                target: ranked[i].target_id@,
                valid_at: ranked[i].valid_at.unix_nanos(),
            },
            invalid_at: Some(now),
            updated_at: now,
        }),
        stale_writes(ranked.take(1), now).len() == 0,
        stale_writes(Seq::empty(), now).len() == 0,
{
}

/// The edges of a read are those of its rows: each from the subject, under the
/// relationship, to the target and at the time that its row holds.
pub proof fn law_targets_of_rows(
    edges: Seq<EdgeId>,
    subject: Seq<char>,
    relationship: Seq<char>,
    rows: Seq<Seq<Value>>,
    i: int,
)
    requires
        are_targets(edges, subject, relationship, rows),
        0 <= i < rows.len(),
    ensures
        edges.len() == rows.len(),
        edges[i].source_id@ == subject,
        edges[i].relationship_name@ == relationship,
        rows[i].len() >= 2,
        rows[i][0] == Value::Text(edges[i].target_id@),
        rows[i][1] == Value::Time(edges[i].valid_at),
{
    let edge = edges[i];
}

/// A read is accepted where each of its rows starts with a text and a time.
pub proof fn law_rows_of_targets(rows: Seq<Seq<Value>>)
    ensures
        targets_decode(rows) <==> forall|i: int|
            0 <= i < rows.len() ==> (#[trigger] rows[i]).len() >= 2 && rows[i][0] is Text
                && rows[i][1] is Time,
{
}

/// Repetitions are left out: a name adds itself at the end where it is new, and nothing
/// where it is not.
pub proof fn law_repetitions_are_left_out(list: Seq<Seq<char>>, name: Seq<char>)
    ensures
        list.contains(name) ==> distinct(list.push(name)) == distinct(list),
        !list.contains(name) ==> distinct(list.push(name)) == distinct(list).push(name),
        distinct(Seq::empty()).len() == 0,
{
    lemma_distinct(list);
    assert(list.push(name).drop_last() =~= list);
    assert(distinct(list).contains(name) <==> list.contains(name));
}

} // verus!
