//! What the statements, the stored forms and the schema decisions of the store say.

use crate::store::edge_texts::{
    DELETE_EDGE_TEXT, UPSERT_EDGE_TEXT, containing, delete_command, escaped,
};
use crate::store::embedding_queue::{ENQUEUE_EMBEDDING, enqueue_command};
use crate::store::embeddings::{
    blob_of, clamped, embedding_of, law_vector_reads_back, length_text,
};
use crate::store::related_pairs::{
    DELETE_PAIRS_OF_NODE, INSERT_MOVED_PAIR, INSERT_RELATED_PAIR, PairChange, PairFacts, PairWrite,
    RelatedPairRow, changes_of, moved, ordered,
};
use crate::store::schema::{Migration, all_migrations, is_from_the_future, is_latest, unapplied};
use crate::store::session_keys::{INSERT_SESSION_SUFFIX, insert_command, is_base64_url};
use crate::store::state::{UPSERT_STATE, counter_base, overflow_text};
use crate::store::statement::{Command, Datum};
use crate::text::{i64_of_text, int_text, lemma_text_order_total, text_less};
use vstd::prelude::*;

verus! {

// ----- statements -----

/// Each statement carries its values in the order of its columns.
pub proof fn law_statement_columns(
    a: Seq<char>,
    b: Seq<char>,
    c: Seq<char>,
    stamp: Seq<char>,
)
    ensures
        insert_command(a, b, c, stamp) == (Command {
            sql: INSERT_SESSION_SUFFIX@,
            params: seq![Datum::Text(a), Datum::Text(b), Datum::Text(c), Datum::Text(stamp)],
        }),
        crate::store::state::upsert_command(a, b, stamp) == (Command {
            sql: UPSERT_STATE@,
            params: seq![Datum::Text(a), Datum::Text(b), Datum::Text(stamp)],
        }),
        crate::store::edge_texts::upsert_command(a, b) == (Command {
            sql: UPSERT_EDGE_TEXT@,
            params: seq![Datum::Text(a), Datum::Text(b)],
        }),
        delete_command(a) == (Command { sql: DELETE_EDGE_TEXT@, params: seq![Datum::Text(a)] }),
        enqueue_command(a, b, stamp) == (Command {
            sql: ENQUEUE_EMBEDDING@,
            params: seq![Datum::Text(a), Datum::Text(b), Datum::Text(stamp)],
        }),
{
}

// ----- patterns -----

/// The pattern of two texts, one after the other, is the pattern of the first and then
/// that of the second.
pub proof fn law_patterns_are_joined(a: Seq<char>, b: Seq<char>)
    ensures
        escaped(a + b) == escaped(a) + escaped(b),
    decreases a.len(),
{
    if a.len() == 0 {
        assert(a + b =~= b);
        assert(escaped(a) + escaped(b) =~= escaped(b));
    } else {
        assert((a + b).skip(1) =~= a.skip(1) + b);
        assert((a + b)[0] == a[0]);
        law_patterns_are_joined(a.skip(1), b);
        assert(escaped(a + b) =~= escaped(a) + escaped(b));
    }
}

/// A percent sign, an underscore and a backslash stand behind a backslash in a pattern,
/// any other character stands for itself, and the pattern of a search lies between two
/// percent signs.
pub proof fn law_pattern_of_one(c: char, term: Seq<char>)
    ensures
        c == '%' || c == '_' || c == '\\' ==> escaped(seq![c]) == seq!['\\', c],
        c != '%' && c != '_' && c != '\\' ==> escaped(seq![c]) == seq![c],
        escaped(Seq::empty()) == Seq::<char>::empty(),
        containing(term) == seq!['%'] + escaped(term) + seq!['%'],
{
    assert(seq![c].skip(1) =~= Seq::empty());
    assert(escaped(seq![c].skip(1)) =~= Seq::empty());
    if c == '%' || c == '_' || c == '\\' {
        assert(escaped(seq![c]) =~= seq!['\\', c]);
    } else {
        assert(escaped(seq![c]) =~= seq![c]);
    }
}

// ----- vectors -----

/// A vector is stored with the lowest byte of each number first, four bytes each.
pub proof fn law_little_endian(embedding: Seq<u32>, j: int)
    requires
        0 <= j < embedding.len(),
    ensures
        blob_of(embedding).len() == 4 * embedding.len(),
        blob_of(embedding)[4 * j] + 256 * blob_of(embedding)[4 * j + 1] + 65_536 * blob_of(
            embedding,
        )[4 * j + 2] + 16_777_216 * blob_of(embedding)[4 * j + 3] == embedding[j],
{
    law_vector_reads_back(embedding);
    let blob = blob_of(embedding);
    assert(embedding_of(blob)[j] == embedding[j]);
}

/// A vector is read with the lowest byte of each number first.
pub proof fn law_little_endian_reading(blob: Seq<u8>, j: int)
    requires
        0 <= j < blob.len() / 4,
    ensures
        embedding_of(blob).len() == blob.len() / 4,
        embedding_of(blob)[j] == blob[4 * j] + 256 * blob[4 * j + 1] + 65_536 * blob[4 * j + 2]
            + 16_777_216 * blob[4 * j + 3],
{
}

/// A number is a parameter as it is up to the largest one, which stands for the rest; a
/// wrong length is told with the expected and the found one.
pub proof fn law_limits(n: int, expected: int, unit: Seq<char>)
    ensures
        n <= 0x7fff_ffff_ffff_ffff ==> clamped(n) == n,
        n > 0x7fff_ffff_ffff_ffff ==> clamped(n) == 0x7fff_ffff_ffff_ffff,
        length_text(expected, unit, n) == "expected "@ + int_text(expected) + unit + int_text(n),
{
}

// ----- counters and suffixes -----

/// A counter starts at zero and stands at the number that its text writes.
pub proof fn law_counters(value: Seq<char>, base: int, delta: int)
    ensures
        counter_base(None) == Some(0int),
        counter_base(Some(value)) == i64_of_text(value),
        overflow_text(base, delta) == int_text(base) + " (overflow on +"@ + int_text(delta)
            + ")"@,
{
}

/// A suffix is made of ASCII letters, digits, hyphens and underscores.
pub proof fn law_suffix_characters(chars: Seq<char>)
    ensures
        is_base64_url(chars) <==> forall|i: int|
            0 <= i < chars.len() ==> ('A' <= #[trigger] chars[i] <= 'Z' || 'a' <= chars[i] <= 'z'
                || '0' <= chars[i] <= '9' || chars[i] == '-' || chars[i] == '_'),
{
    if is_base64_url(chars) {
        assert forall|i: int| 0 <= i < chars.len() implies ('A' <= #[trigger] chars[i] <= 'Z'
            || 'a' <= chars[i] <= 'z' || '0' <= chars[i] <= '9' || chars[i] == '-' || chars[i]
            == '_') by {
            assert(crate::store::session_keys::is_base64_url_char(chars[i]));
        }
    }
}

// ----- pairs -----

/// A pair has its smaller identifier first, whichever node is named first.
pub proof fn law_pairs_are_unordered(x: Seq<char>, y: Seq<char>)
    ensures
        ordered(x, y) == ordered(y, x),
        text_less(x, y) ==> ordered(x, y) == (x, y),
        !text_less(ordered(x, y).1, ordered(x, y).0),
{
    lemma_text_order_total(x, y);
    lemma_text_order_total(y, x);
}

/// A pair of the loser goes on as a pair of the survivor and its other node, with all that
/// is stored about it; the pair with the survivor itself ends.
pub proof fn law_pair_moves(row: RelatedPairRow, loser: Seq<char>, survivor: Seq<char>)
    requires
        row.node_a_id@ == loser || row.node_b_id@ == loser,
    ensures
        ({
            let other = if row.node_a_id@ == loser {
                row.node_b_id@
            } else {
                row.node_a_id@
            };
            let facts = PairFacts {
                reason: row.reason@,
                confirmed_by: row.confirmed_by@,
                status: row.status@,
                created_at: row.created_at@,
            };
            let pair = if text_less(survivor, other) {
                (survivor, other)
            } else {
                (other, survivor)
            };
            &&& other == survivor ==> moved(row, loser, survivor) is None
            &&& other != survivor ==> moved(row, loser, survivor) == Some(
                PairChange::Keep(pair, facts),
            )
        }),
{
}

/// The statements of the pair writes carry what the writes say, in the order of the
/// columns; a fresh pair is pending.
pub proof fn law_pair_columns(write: PairWrite)
    ensures
        write matches PairWrite::Confirm { node_a_id, node_b_id, reason, confirmed_by, created_at }
            ==> write.command() == (Command {
            sql: INSERT_RELATED_PAIR@,
            params: seq![
                Datum::Text(node_a_id@),
                Datum::Text(node_b_id@),
                Datum::Text(reason@),
                Datum::Text(confirmed_by@),
                Datum::Text(created_at@),
            ],
        }) && write@ == PairChange::Keep(
            (node_a_id@, node_b_id@),
            (PairFacts {
                reason: reason@,
                confirmed_by: confirmed_by@,
                status: "pending"@,
                created_at: created_at@,
            }),
        ),
        write matches PairWrite::Move {
            node_a_id,
            node_b_id,
            reason,
            confirmed_by,
            status,
            created_at,
        } ==> write.command() == (Command {
            sql: INSERT_MOVED_PAIR@,
            params: seq![
                Datum::Text(node_a_id@),
                Datum::Text(node_b_id@),
                Datum::Text(reason@),
                Datum::Text(confirmed_by@),
                Datum::Text(status@),
                Datum::Text(created_at@),
            ],
        }) && write@ == PairChange::Keep(
            (node_a_id@, node_b_id@),
            (PairFacts {
                reason: reason@,
                confirmed_by: confirmed_by@,
                status: status@,
                created_at: created_at@,
            }),
        ),
        write matches PairWrite::Forget { node_id } ==> write.command() == (Command {
            sql: DELETE_PAIRS_OF_NODE@,
            params: seq![Datum::Text(node_id@)],
        }) && write@ == PairChange::Forget(node_id@),
{
}

/// The changes of a list of writes are its own, one for one.
pub proof fn law_changes_of_a_list(writes: Seq<PairWrite>)
    ensures
        changes_of(writes).len() == writes.len(),
        forall|i: int| 0 <= i < writes.len() ==> #[trigger] changes_of(writes)[i] == writes[i]@,
{
}

// ----- schema -----

/// The migrations to run are those of the list whose version was not applied, in order.
pub proof fn law_pending_migrations(list: Seq<Migration>, applied: Seq<u32>)
    ensures
        unapplied(list, applied) == list.filter(
            |migration: Migration| !applied.contains(migration.version),
        ),
    decreases list.len(),
{
    reveal(Seq::filter);
    if list.len() > 0 {
        law_pending_migrations(list.drop_last(), applied);
    }
}

/// A database is from the future where a version over 13 was applied. The latest version
/// is an applied one that none is over.
pub proof fn law_versions(applied: Seq<u32>, version: u32)
    ensures
        is_from_the_future(applied) <==> exists|i: int|
            0 <= i < applied.len() && #[trigger] applied[i] > 13,
        is_latest(applied, version) <==> applied.contains(version) && forall|i: int|
            0 <= i < applied.len() ==> #[trigger] applied[i] <= version,
        all_migrations().len() == 13,
        forall|i: int|
            0 <= i < all_migrations().len() ==> (#[trigger] all_migrations()[i]).version == i + 1,
{
}

} // verus!
