//! What the statements of the embedding queue do to it, and what follows.

use crate::store::embedding_queue::MAX_EMBEDDING_ATTEMPTS;
use vstd::prelude::*;

verus! {

/// Where a queued pair stands.
pub enum QueueStatus {
    Pending,
    Done,
    Failed,
}

/// What the queue knows of a pair.
pub struct QueueEntry {
    pub status: QueueStatus,
    pub attempts: int,
}

/// A node and the hash of its content.
pub type Content = (Seq<char>, Seq<char>);

/// The queue: at most one row per pair.
pub type Queue = Map<Content, QueueEntry>;

/// A pair that waits for its first attempt.
pub open spec fn waiting() -> QueueEntry {
    QueueEntry { status: QueueStatus::Pending, attempts: 0 }
}

/// The queue after `ENQUEUE_EMBEDDING`: a new pair waits, a failed one waits again,
/// and any other one stays as it is.
pub open spec fn enqueued(queue: Queue, content: Content) -> Queue {
    if !queue.contains_key(content) || queue[content].status is Failed {
        queue.insert(content, waiting())
    } else {
        queue
    }
}

/// The queue after `MARK_EMBEDDING_DONE`.
pub open spec fn marked_done(queue: Queue, content: Content) -> Queue {
    if queue.contains_key(content) {
        queue.insert(
            content,
            QueueEntry { status: QueueStatus::Done, attempts: queue[content].attempts },
        )
    } else {
        queue
    }
}

/// The queue after `MARK_EMBEDDING_FAILED`: one more attempt, and the pair is given
/// up at the cap.
pub open spec fn attempt_failed(queue: Queue, content: Content) -> Queue {
    if queue.contains_key(content) {
        let attempts = queue[content].attempts + 1;
        queue.insert(
            content,
            QueueEntry {
                status: if attempts >= MAX_EMBEDDING_ATTEMPTS {
                    QueueStatus::Failed
                } else {
                    queue[content].status
                },
                attempts,
            },
        )
    } else {
        queue
    }
}

/// The queue after `RECORD_EMBEDDED`: the pair is done, unless it is queued.
pub open spec fn recorded(queue: Queue, content: Content) -> Queue {
    if queue.contains_key(content) {
        queue
    } else {
        queue.insert(content, QueueEntry { status: QueueStatus::Done, attempts: 0 })
    }
}

/// Whether `CLAIM_EMBEDDINGS` gives the pair.
pub open spec fn claimable(queue: Queue, content: Content) -> bool {
    queue.contains_key(content) && queue[content].status is Pending && queue[content].attempts
        < MAX_EMBEDDING_ATTEMPTS
}

/// Whether no pair has been counted beyond the cap, and a pair that reached it is not
/// pending.
pub open spec fn is_bounded(queue: Queue) -> bool {
    forall|content: Content| #[trigger]
        queue.contains_key(content) ==> 0 <= queue[content].attempts && (
        queue[content].status is Pending ==> queue[content].attempts < MAX_EMBEDDING_ATTEMPTS)
}

/// Every operation keeps the queue bounded, so that every pending pair is claimed.
pub proof fn law_pending_pairs_are_claimed(queue: Queue, content: Content)
    requires
        is_bounded(queue),
    ensures
        is_bounded(enqueued(queue, content)),
        is_bounded(marked_done(queue, content)),
        is_bounded(attempt_failed(queue, content)),
        is_bounded(recorded(queue, content)),
        queue.contains_key(content) && queue[content].status is Pending ==> claimable(
            queue,
            content,
        ),
{
}

/// Queueing is idempotent. A pair that is new or was given up is claimed next; one
/// that is pending or done stays as it is.
pub proof fn law_queueing(queue: Queue, content: Content)
    ensures
        enqueued(enqueued(queue, content), content) == enqueued(queue, content),
        !queue.contains_key(content) || queue[content].status is Failed ==> claimable(
            enqueued(queue, content),
            content,
        ),
        queue.contains_key(content) && !(queue[content].status is Failed) ==> enqueued(
            queue,
            content,
        ) == queue,
{
}

/// Whether `ENQUEUE_EMBEDDING` writes a row for the pair: it inserts one, or revives a
/// failed one.
pub open spec fn is_written(queue: Queue, content: Content) -> bool {
    !queue.contains_key(content) || queue[content].status is Failed
}

/// The queue after `ENQUEUE_EMBEDDING` for each of the pairs, in order.
pub open spec fn all_enqueued(queue: Queue, contents: Seq<Content>) -> Queue
    decreases contents.len(),
{
    if contents.len() == 0 {
        queue
    } else {
        enqueued(all_enqueued(queue, contents.drop_last()), contents.last())
    }
}

/// The number of rows that queueing the pairs, in order, inserts or revives.
pub open spec fn rows_written(queue: Queue, contents: Seq<Content>) -> nat
    decreases contents.len(),
{
    if contents.len() == 0 {
        0
    } else {
        rows_written(queue, contents.drop_last()) + if is_written(
            all_enqueued(queue, contents.drop_last()),
            contents.last(),
        ) {
            1nat
        } else {
            0nat
        }
    }
}

/// The pairs of the list whose row is inserted or revived.
pub open spec fn written_pairs(queue: Queue, contents: Seq<Content>) -> Set<Content> {
    contents.to_set().filter(|content: Content| is_written(queue, content))
}

proof fn lemma_queueing_prefix(queue: Queue, contents: Seq<Content>)
    ensures
        forall|c: Content|
            #![trigger all_enqueued(queue, contents).contains_key(c)]
            #![trigger all_enqueued(queue, contents)[c]]
            {
                let after = all_enqueued(queue, contents);
                if contents.contains(c) && is_written(queue, c) {
                    after.contains_key(c) && after[c] == waiting()
                } else {
                    after.contains_key(c) == queue.contains_key(c) && after[c] == queue[c]
                }
            },
        written_pairs(queue, contents).finite(),
        rows_written(queue, contents) == written_pairs(queue, contents).len(),
    decreases contents.len(),
{
    if contents.len() == 0 {
        assert(written_pairs(queue, contents) =~= Set::<Content>::empty());
    } else {
        let before = contents.drop_last();
        let last = contents.last();
        lemma_queueing_prefix(queue, before);
        assert(contents =~= before.push(last));
        assert forall|c: Content| contents.contains(c) <==> before.contains(c) || c == last by {
            if contents.contains(c) {
                let i = choose|i: int| 0 <= i < contents.len() && contents[i] == c;
                if i < before.len() {
                    assert(before[i] == c);
                }
            }
            if before.contains(c) {
                let i = choose|i: int| 0 <= i < before.len() && before[i] == c;
                assert(contents[i] == c);
            }
            assert(contents[contents.len() - 1] == last);
        }
        let so_far = all_enqueued(queue, before);
        assert(so_far.contains_key(last) || !so_far.contains_key(last));
        assert(so_far[last] == so_far[last]);
        if is_written(so_far, last) {
            assert(!before.contains(last));
            assert(is_written(queue, last));
            assert(written_pairs(queue, contents) =~= written_pairs(queue, before).insert(last));
        } else {
            assert(written_pairs(queue, contents) =~= written_pairs(queue, before));
        }
        let after = all_enqueued(queue, contents);
        assert forall|c: Content|
            #![trigger after.contains_key(c)]
            #![trigger after[c]]
            if contents.contains(c) && is_written(queue, c) {
                after.contains_key(c) && after[c] == waiting()
            } else {
                after.contains_key(c) == queue.contains_key(c) && after[c] == queue[c]
            } by {
            assert(so_far.contains_key(c) || !so_far.contains_key(c));
            assert(so_far[c] == so_far[c]);
        }
    }
}

/// Queueing a list gives each of its pairs that is new or was given up a waiting row, and
/// leaves every other row as it is. Each such pair counts once, however often the list
/// names it, and queueing the list again changes nothing and counts nothing.
pub proof fn law_queueing_a_list(queue: Queue, contents: Seq<Content>)
    ensures
        ({
            let after = all_enqueued(queue, contents);
            &&& forall|c: Content| #[trigger]
                contents.contains(c) && is_written(queue, c) ==> after.contains_key(c) && after[c]
                    == waiting()
            &&& forall|c: Content|
                #![trigger after.contains_key(c)]
                #![trigger after[c]]
                !contents.contains(c) || !is_written(queue, c) ==> after.contains_key(c)
                    == queue.contains_key(c) && after[c] == queue[c]
            &&& written_pairs(queue, contents).finite()
            &&& rows_written(queue, contents) == written_pairs(queue, contents).len()
            &&& all_enqueued(after, contents) == after
            &&& rows_written(after, contents) == 0
        }),
{
    let after = all_enqueued(queue, contents);
    lemma_queueing_prefix(queue, contents);
    lemma_queueing_prefix(after, contents);
    assert forall|c: Content| #[trigger]
        contents.contains(c) && is_written(queue, c) implies after.contains_key(c) && after[c]
        == waiting() by {
        assert(after[c] == after[c]);
    }
    assert forall|c: Content| #[trigger] contents.contains(c) implies !is_written(after, c) by {
        assert(after[c] == after[c]);
        assert(after.contains_key(c) || !after.contains_key(c));
    }
    assert(written_pairs(after, contents) =~= Set::<Content>::empty()) by {
        assert forall|c: Content| !written_pairs(after, contents).contains(c) by {
            if written_pairs(after, contents).contains(c) {
                assert(contents.contains(c));
            }
        }
    }
    let again = all_enqueued(after, contents);
    assert forall|c: Content| again.contains_key(c) == after.contains_key(c) && again[c]
        == after[c] by {
        assert(again[c] == again[c]);
    }
    assert(again =~= after);
}

/// A waiting pair survives failed attempts below the cap and is given up at it; from
/// then on it is not claimed until it is queued again.
pub proof fn law_attempts_are_capped(queue: Queue, content: Content)
    requires
        queue.contains_key(content),
        queue[content] == waiting(),
    ensures
        ({
            let once = attempt_failed(queue, content);
            let twice = attempt_failed(once, content);
            let thrice = attempt_failed(twice, content);
            &&& claimable(once, content)
            &&& claimable(twice, content)
            &&& !claimable(thrice, content)
            &&& thrice[content].status is Failed
            &&& claimable(enqueued(thrice, content), content)
            &&& enqueued(thrice, content)[content] == waiting()
        }),
{
}

/// A done pair is never claimed again, by queueing or by recording it anew.
pub proof fn law_done_stays_done(queue: Queue, content: Content)
    requires
        queue.contains_key(content),
        queue[content].status is Done,
    ensures
        !claimable(enqueued(queue, content), content),
        !claimable(recorded(queue, content), content),
        enqueued(queue, content) == queue,
        recorded(queue, content) == queue,
{
}

} // verus!
