//! Related pairs: two nodes that belong together without being the same.
//!
//! A pair is unordered. It is stored with the smaller identifier first, once, and
//! the first confirmation stays. When one node of a pair is merged into another
//! node, its pairs move to the survivor.

use crate::sequence::{kept, lemma_kept_push};
use crate::store::error::{Result, format_rfc3339, unwritable_text};
use crate::store::statement::{Command, Statement, command, text};
use crate::text::{comes_before, lemma_text_order_total, same_text, text_less};
use crate::timestamp::Timestamp;
use vstd::prelude::*;

verus! {

/// Records a confirmed pair; an existing row stays.
pub const INSERT_RELATED_PAIR: &'static str = "INSERT OR IGNORE INTO related_pairs
    (node_a_id, node_b_id, reason, confirmed_by, created_at)
 VALUES (?1, ?2, ?3, ?4, ?5)";

/// Records a pair that moved to another node; an existing row stays.
pub const INSERT_MOVED_PAIR: &'static str = "INSERT OR IGNORE INTO related_pairs
    (node_a_id, node_b_id, reason, confirmed_by, status, created_at)
 VALUES (?1, ?2, ?3, ?4, ?5, ?6)";

/// Removes every pair of a node.
pub const DELETE_PAIRS_OF_NODE: &'static str =
    "DELETE FROM related_pairs WHERE node_a_id = ?1 OR node_b_id = ?1";

/// The pairs of a node.
pub const SELECT_PAIRS_OF_NODE: &'static str =
    "SELECT id, node_a_id, node_b_id, reason, confirmed_by, status, created_at
 FROM related_pairs
 WHERE node_a_id = ?1 OR node_b_id = ?1";

/// Every pair, oldest first.
pub const SELECT_RELATED_PAIRS: &'static str =
    "SELECT id, node_a_id, node_b_id, reason, confirmed_by, status, created_at
 FROM related_pairs ORDER BY id";

/// The status of a pair that was just confirmed: the default of the column.
pub const PENDING: &'static str = "pending";

/// A row of the `related_pairs` table.
#[derive(Debug, Clone, PartialEq, Eq)]
pub struct RelatedPairRow {
    pub id: i64,
    /// The smaller node identifier.
    pub node_a_id: String,
    /// The larger node identifier.
    pub node_b_id: String,
    /// The justification of the verdict.
    pub reason: String,
    /// Who confirmed the verdict.
    pub confirmed_by: String,
    /// `pending`, `promoted` or `dismissed`.
    pub status: String,
    /// An RFC 3339 timestamp.
    pub created_at: String,
}

/// Two node identifiers.
pub type Pair = (Seq<char>, Seq<char>);

/// What is stored about a pair.
#[verifier::ext_equal]
pub struct PairFacts {
    pub reason: Seq<char>,
    pub confirmed_by: Seq<char>,
    pub status: Seq<char>,
    pub created_at: Seq<char>,
}

/// The contents of the table: at most one row per pair.
pub type PairTable = Map<Pair, PairFacts>;

/// The pair with the smaller identifier first.
pub open spec fn ordered(x: Seq<char>, y: Seq<char>) -> Pair {
    if text_less(x, y) {
        (x, y)
    } else {
        (y, x)
    }
}

/// Whether the node is one of the pair.
pub open spec fn mentions(pair: Pair, node: Seq<char>) -> bool {
    pair.0 == node || pair.1 == node
}

/// The node of the pair besides the given one.
pub open spec fn other_of(pair: Pair, node: Seq<char>) -> Seq<char> {
    if pair.0 == node {
        pair.1
    } else {
        pair.0
    }
}

/// Whether every pair is stored with the smaller identifier first.
pub open spec fn is_normalized(table: PairTable) -> bool {
    forall|pair: Pair| #[trigger] table.contains_key(pair) ==> pair == ordered(pair.0, pair.1)
}

impl RelatedPairRow {
    /// The pair of the row.
    pub open spec fn pair(self) -> Pair {
        (self.node_a_id@, self.node_b_id@)
    }

    /// What the row says about its pair.
    pub open spec fn facts(self) -> PairFacts {
        PairFacts {
            reason: self.reason@,
            confirmed_by: self.confirmed_by@,
            status: self.status@,
            created_at: self.created_at@,
        }
    }
}

/// One change of the table.
#[verifier::ext_equal]
pub enum PairChange {
    /// Stores a pair that is not stored yet.
    Keep(Pair, PairFacts),
    /// Removes the pairs of a node.
    Forget(Seq<char>),
}

/// The table after a change.
pub open spec fn pairs_after(table: PairTable, change: PairChange) -> PairTable {
    match change {
        PairChange::Keep(pair, facts) => if table.contains_key(pair) {
            table
        } else {
            table.insert(pair, facts)
        },
        PairChange::Forget(node) => Map::new(
            |pair: Pair| table.contains_key(pair) && !mentions(pair, node),
            |pair: Pair| table[pair],
        ),
    }
}

/// The table after several changes, in order.
pub open spec fn pairs_after_all(table: PairTable, changes: Seq<PairChange>) -> PairTable
    decreases changes.len(),
{
    if changes.len() == 0 {
        table
    } else {
        pairs_after(pairs_after_all(table, changes.drop_last()), changes.last())
    }
}

/// One write to the table.
#[derive(Debug, Clone, PartialEq, Eq)]
pub enum PairWrite {
    /// A fresh confirmation.
    Confirm {
        node_a_id: String,
        node_b_id: String,
        reason: String,
        confirmed_by: String,
        created_at: String,
    },
    /// A stored pair that moves to another node.
    Move {
        node_a_id: String,
        node_b_id: String,
        reason: String,
        confirmed_by: String,
        status: String,
        created_at: String,
    },
    /// The end of a node.
    Forget { node_id: String },
}

impl View for PairWrite {
    type V = PairChange;

    open spec fn view(&self) -> PairChange {
        match self {
            PairWrite::Confirm { node_a_id, node_b_id, reason, confirmed_by, created_at } =>
                PairChange::Keep(
                (node_a_id@, node_b_id@),
                PairFacts {
                    reason: reason@,
                    confirmed_by: confirmed_by@,
                    status: PENDING@,
                    created_at: created_at@,
                },
            ),
            PairWrite::Move { node_a_id, node_b_id, reason, confirmed_by, status, created_at } =>
                PairChange::Keep(
                (node_a_id@, node_b_id@),
                PairFacts {
                    reason: reason@,
                    confirmed_by: confirmed_by@,
                    status: status@,
                    created_at: created_at@,
                },
            ),
            PairWrite::Forget { node_id } => PairChange::Forget(node_id@),
        }
    }
}

impl PairWrite {
    /// The statement that makes the write.
    pub open spec fn command(self) -> Command {
        match self {
            PairWrite::Confirm { node_a_id, node_b_id, reason, confirmed_by, created_at } =>
                command(
                INSERT_RELATED_PAIR,
                seq![
                    text(node_a_id@),
                    text(node_b_id@),
                    text(reason@),
                    text(confirmed_by@),
                    text(created_at@),
                ],
            ),
            PairWrite::Move { node_a_id, node_b_id, reason, confirmed_by, status, created_at } =>
                command(
                INSERT_MOVED_PAIR,
                seq![
                    text(node_a_id@),
                    text(node_b_id@),
                    text(reason@),
                    text(confirmed_by@),
                    text(status@),
                    text(created_at@),
                ],
            ),
            PairWrite::Forget { node_id } => command(DELETE_PAIRS_OF_NODE, seq![text(node_id@)]),
        }
    }

    /// The statement that makes the write.
    pub fn to_statement(&self) -> (r: Statement)
        ensures
            r@ == self.command(),
    {
        match self {
            PairWrite::Confirm { node_a_id, node_b_id, reason, confirmed_by, created_at } => {
                Statement::new(INSERT_RELATED_PAIR).with_text(node_a_id.as_str()).with_text(
                    node_b_id.as_str(),
                ).with_text(reason.as_str()).with_text(confirmed_by.as_str()).with_text(
                    created_at.as_str(),
                )
            },
            PairWrite::Move { node_a_id, node_b_id, reason, confirmed_by, status, created_at } => {
                Statement::new(INSERT_MOVED_PAIR).with_text(node_a_id.as_str()).with_text(
                    node_b_id.as_str(),
                ).with_text(reason.as_str()).with_text(confirmed_by.as_str()).with_text(
                    status.as_str(),
                ).with_text(created_at.as_str())
            },
            PairWrite::Forget { node_id } => Statement::new(DELETE_PAIRS_OF_NODE).with_text(
                node_id.as_str(),
            ),
        }
    }
}

/// The changes that the writes make.
pub open spec fn changes_of(writes: Seq<PairWrite>) -> Seq<PairChange> {
    writes.map_values(|write: PairWrite| write@)
}

/// Records a confirmed pair, in either order of its nodes. A pair that is already
/// stored keeps its row.
pub fn insert_related_pair(
    node_a_id: &str,
    node_b_id: &str,
    reason: &str,
    confirmed_by: &str,
    now: &Timestamp,
) -> (r: Result<PairWrite>)
    ensures
        match r {
            Ok(write) => now.writable() && write is Confirm && write@ == PairChange::Keep(
                ordered(node_a_id@, node_b_id@),
                PairFacts {
                    reason: reason@,
                    confirmed_by: confirmed_by@,
                    status: PENDING@,
                    created_at: now.text(),
                },
            ),
            Err(error) => !now.writable() && error.is_sqlite(unwritable_text(*now)),
        },
{
    let created_at = match format_rfc3339(now) {
        Ok(stamp) => stamp,
        Err(error) => {
            return Err(error);
        },
    };
    let (a, b) = if comes_before(node_a_id, node_b_id) {
        (node_a_id, node_b_id)
    } else {
        (node_b_id, node_a_id)
    };
    Ok(
        PairWrite::Confirm {
            node_a_id: a.to_owned(),
            node_b_id: b.to_owned(),
            reason: reason.to_owned(),
            confirmed_by: confirmed_by.to_owned(),
            created_at,
        },
    )
}

/// Every pair, oldest first.
pub fn list_related_pairs() -> (r: Statement)
    ensures
        r@ == command(SELECT_RELATED_PAIRS, seq![]),
{
    Statement::new(SELECT_RELATED_PAIRS)
}

/// The pairs of a node that is about to be merged away.
pub fn pairs_of_loser(loser_id: &str) -> (r: Statement)
    ensures
        r@ == command(SELECT_PAIRS_OF_NODE, seq![text(loser_id@)]),
{
    Statement::new(SELECT_PAIRS_OF_NODE).with_text(loser_id)
}

/// What becomes of one pair of the loser: it moves to the survivor with what is
/// stored about it, unless its other node is the survivor itself.
pub open spec fn moved(row: RelatedPairRow, loser: Seq<char>, survivor: Seq<char>) -> Option<
    PairChange,
> {
    let other = other_of(row.pair(), loser);
    if other == survivor {
        None
    } else {
        Some(PairChange::Keep(ordered(survivor, other), row.facts()))
    }
}

/// What becomes of each pair of the loser.
pub open spec fn all_moved(
    rows: Seq<RelatedPairRow>,
    loser: Seq<char>,
    survivor: Seq<char>,
) -> Seq<Option<PairChange>> {
    rows.map_values(|row: RelatedPairRow| moved(row, loser, survivor))
}

/// Moves the pairs of a node that is merged away to the survivor. The writes belong
/// into one transaction.
pub fn rewrite_related_pairs_loser(
    rows: &Vec<RelatedPairRow>,
    loser_id: &str,
    survivor_id: &str,
) -> (r: Vec<PairWrite>)
    ensures
        changes_of(r@) == kept(all_moved(rows@, loser_id@, survivor_id@)).push(
            PairChange::Forget(loser_id@),
        ),
{
    let mut writes: Vec<PairWrite> = Vec::new();
    let ghost steps = all_moved(rows@, loser_id@, survivor_id@);
    let mut i: usize = 0;
    assert(steps.take(0) =~= seq![]);
    assert(changes_of(writes@) =~= kept(steps.take(0)));
    while i < rows.len()
        invariant
            i <= rows@.len(),
            steps == all_moved(rows@, loser_id@, survivor_id@),
            changes_of(writes@) == kept(steps.take(i as int)),
        decreases rows@.len() - i,
    {
        let row = &rows[i];
        let other = if same_text(row.node_a_id.as_str(), loser_id) {
            row.node_b_id.as_str()
        } else {
            row.node_a_id.as_str()
        };
        proof {
            lemma_kept_push(steps, i as int);
            assert(steps[i as int] == moved(*row, loser_id@, survivor_id@));
        }
        if !same_text(other, survivor_id) {
            let (a, b) = if comes_before(survivor_id, other) {
                (survivor_id, other)
            } else {
                (other, survivor_id)
            };
            let ghost before = writes@;
            let write = PairWrite::Move {
                node_a_id: a.to_owned(),
                node_b_id: b.to_owned(),
                reason: row.reason.clone(),
                confirmed_by: row.confirmed_by.clone(),
                status: row.status.clone(),
                created_at: row.created_at.clone(),
            };
            assert(steps[i as int] == Some(write@));
            writes.push(write);
            assert(changes_of(writes@) =~= changes_of(before).push(write@));
        }
        i += 1;
    }
    assert(steps.take(rows@.len() as int) =~= steps);
    let ghost before = writes@;
    writes.push(PairWrite::Forget { node_id: loser_id.to_owned() });
    assert(changes_of(writes@) =~= changes_of(before).push(PairChange::Forget(loser_id@)));
    writes
}

/// Whether the rows are exactly the stored pairs of the node.
pub open spec fn are_pairs_of(rows: Seq<RelatedPairRow>, table: PairTable, node: Seq<char>) -> bool {
    &&& forall|i: int|
        0 <= i < rows.len() ==> {
            &&& table.contains_key((#[trigger] rows[i]).pair())
            &&& table[rows[i].pair()] == rows[i].facts()
            &&& mentions(rows[i].pair(), node)
        }
    &&& forall|i: int, j: int|
        0 <= i < j < rows.len() ==> (#[trigger] rows[i]).pair() != (#[trigger] rows[j]).pair()
    &&& forall|pair: Pair| #[trigger]
        table.contains_key(pair) && mentions(pair, node) ==> exists|i: int|
            0 <= i < rows.len() && (#[trigger] rows[i]).pair() == pair
}

/// Whether a pair of the survivor stands for a stored pair of the loser.
pub open spec fn takes_over(
    pair: Pair,
    table: PairTable,
    loser: Seq<char>,
    survivor: Seq<char>,
) -> bool {
    let other = other_of(pair, survivor);
    &&& mentions(pair, survivor)
    &&& other != survivor
    &&& pair == ordered(survivor, other)
    &&& table.contains_key(ordered(loser, other))
}

/// The table after the loser is merged into the survivor.
pub open spec fn rewritten(table: PairTable, loser: Seq<char>, survivor: Seq<char>) -> PairTable {
    Map::new(
        |pair: Pair|
            !mentions(pair, loser) && (table.contains_key(pair) || takes_over(
                pair,
                table,
                loser,
                survivor,
            )),
        |pair: Pair|
            if table.contains_key(pair) {
                table[pair]
            } else {
                table[ordered(loser, other_of(pair, survivor))]
            },
    )
}

/// The order of the two nodes does not matter.
proof fn lemma_ordered_symmetric(x: Seq<char>, y: Seq<char>)
    ensures
        ordered(x, y) == ordered(y, x),
        ordered(ordered(x, y).0, ordered(x, y).1) == ordered(x, y),
        mentions(ordered(x, y), x),
        mentions(ordered(x, y), y),
        other_of(ordered(x, y), x) == y,
        other_of(ordered(x, y), y) == x,
{
    lemma_text_order_total(x, y);
}

/// A normalized pair of a node is the node with its other node.
proof fn lemma_pair_of(pair: Pair, node: Seq<char>)
    requires
        pair == ordered(pair.0, pair.1),
        mentions(pair, node),
    ensures
        pair == ordered(node, other_of(pair, node)),
{
    lemma_ordered_symmetric(pair.0, pair.1);
}

/// The table after the first rows have moved: the old pairs, and one pair of the
/// survivor for each row that moved.
proof fn lemma_moves(
    table: PairTable,
    rows: Seq<RelatedPairRow>,
    loser: Seq<char>,
    survivor: Seq<char>,
    n: int,
)
    requires
        is_normalized(table),
        are_pairs_of(rows, table, loser),
        0 <= n <= rows.len(),
    ensures
        ({
            let now = pairs_after_all(table, kept(all_moved(rows, loser, survivor).take(n)));
            &&& forall|pair: Pair| #[trigger]
                table.contains_key(pair) ==> now.contains_key(pair) && now[pair] == table[pair]
            &&& forall|pair: Pair|
                now.contains_key(pair) && !#[trigger] table.contains_key(pair) ==> {
                    &&& takes_over(pair, table, loser, survivor)
                    &&& now[pair] == table[ordered(loser, other_of(pair, survivor))]
                }
            &&& forall|i: int|
                0 <= i < n && other_of((#[trigger] rows[i]).pair(), loser) != survivor
                    ==> now.contains_key(ordered(survivor, other_of(rows[i].pair(), loser)))
        }),
    decreases n,
{
    let steps = all_moved(rows, loser, survivor);
    if n == 0 {
        assert(steps.take(0) =~= seq![]);
    } else {
        lemma_moves(table, rows, loser, survivor, n - 1);
        lemma_kept_push(steps, n - 1);
        let before = pairs_after_all(table, kept(steps.take(n - 1)));
        let row = rows[n - 1];
        let other = other_of(row.pair(), loser);
        assert(steps[n - 1] == moved(row, loser, survivor));
        lemma_pair_of(row.pair(), loser);
        lemma_ordered_symmetric(survivor, other);
        if other != survivor {
            let change = PairChange::Keep(ordered(survivor, other), row.facts());
            assert(kept(steps.take(n)).drop_last() =~= kept(steps.take(n - 1)));
            assert(pairs_after_all(table, kept(steps.take(n))) == pairs_after(before, change));
            assert(takes_over(ordered(survivor, other), table, loser, survivor));
        }
    }
}

/// Merging a node away moves each of its pairs to the survivor. No pair of the
/// loser is left, no pair of the survivor with itself appears, pairs of other nodes
/// stay as they are, a pair that the survivor already had keeps its row, and a pair
/// that moves keeps its reason, confirmation, status and time.
pub proof fn law_rewrite_result(
    table: PairTable,
    rows: Seq<RelatedPairRow>,
    loser: Seq<char>,
    survivor: Seq<char>,
)
    requires
        is_normalized(table),
        are_pairs_of(rows, table, loser),
    ensures
        ({
            let now = pairs_after_all(
                table,
                kept(all_moved(rows, loser, survivor)).push(PairChange::Forget(loser)),
            );
            &&& now == rewritten(table, loser, survivor)
            &&& is_normalized(now)
            &&& forall|pair: Pair| #[trigger] now.contains_key(pair) ==> !mentions(pair, loser)
            &&& !table.contains_key((survivor, survivor)) ==> !now.contains_key(
                (survivor, survivor),
            )
            &&& forall|pair: Pair| #[trigger]
                table.contains_key(pair) && !mentions(pair, loser) ==> now.contains_key(pair)
                    && now[pair] == table[pair]
            &&& forall|other: Seq<char>|
                other != loser && other != survivor && loser != survivor
                    && #[trigger] table.contains_key(ordered(loser, other)) ==> {
                    let pair = ordered(survivor, other);
                    &&& now.contains_key(pair)
                    &&& !table.contains_key(pair) ==> now[pair] == table[ordered(loser, other)]
                }
        }),
{
    let steps = all_moved(rows, loser, survivor);
    assert(steps.take(rows.len() as int) =~= steps);
    lemma_moves(table, rows, loser, survivor, rows.len() as int);
    let moves = kept(steps);
    let before = pairs_after_all(table, moves);
    let changes = moves.push(PairChange::Forget(loser));
    assert(changes.drop_last() =~= moves);
    let now = pairs_after_all(table, changes);
    assert(now == pairs_after(before, PairChange::Forget(loser)));
    let expected = rewritten(table, loser, survivor);
    assert forall|pair: Pair| now.contains_key(pair) <==> #[trigger] expected.contains_key(
        pair,
    ) by {
        if expected.contains_key(pair) && !table.contains_key(pair) {
            let other = other_of(pair, survivor);
            let old_pair = ordered(loser, other);
            lemma_ordered_symmetric(loser, other);
            assert(table.contains_key(old_pair) && mentions(old_pair, loser));
            let i = choose|i: int| 0 <= i < rows.len() && (#[trigger] rows[i]).pair() == old_pair;
            assert(other_of(rows[i].pair(), loser) == other);
            assert(before.contains_key(pair));
        }
    }
    assert(now =~= expected);
    assert forall|pair: Pair| #[trigger] now.contains_key(pair) implies pair == ordered(
        pair.0,
        pair.1,
    ) by {
        if !table.contains_key(pair) {
            lemma_ordered_symmetric(survivor, other_of(pair, survivor));
        }
    }
    assert forall|other: Seq<char>|
        other != loser && other != survivor && loser != survivor
            && #[trigger] table.contains_key(ordered(loser, other)) implies ({
        let pair = ordered(survivor, other);
        &&& now.contains_key(pair)
        &&& !table.contains_key(pair) ==> now[pair] == table[ordered(loser, other)]
    }) by {
        lemma_ordered_symmetric(survivor, other);
        lemma_ordered_symmetric(loser, other);
        let pair = ordered(survivor, other);
        assert(takes_over(pair, table, loser, survivor));
        assert(expected.contains_key(pair));
    }
}

/// The first confirmation of a pair stays, whatever is confirmed later in either
/// order of the nodes.
pub proof fn law_first_confirmation_stays(
    table: PairTable,
    x: Seq<char>,
    y: Seq<char>,
    first: PairFacts,
    later: PairFacts,
)
    requires
        !table.contains_key(ordered(x, y)),
    ensures
        ({
            let once = pairs_after(table, PairChange::Keep(ordered(x, y), first));
            &&& once[ordered(x, y)] == first
            &&& pairs_after(once, PairChange::Keep(ordered(y, x), later)) == once
            &&& is_normalized(table) ==> is_normalized(once)
        }),
{
    lemma_ordered_symmetric(x, y);
}

} // verus!
