//! Keyed tables, and the two ways of writing to them.
//!
//! A statement with `OR IGNORE` keeps the row that a key has; one with `OR REPLACE`
//! or `DO UPDATE` puts a new row in its place.

use vstd::prelude::*;

verus! {

/// The table after a write that keeps an existing row.
pub open spec fn kept_first<K, V>(table: Map<K, V>, key: K, value: V) -> Map<K, V> {
    if table.contains_key(key) {
        table
    } else {
        table.insert(key, value)
    }
}

/// The table after several writes that each replace an existing row, in order.
pub open spec fn replaced_all<K, V>(table: Map<K, V>, rows: Seq<(K, V)>) -> Map<K, V>
    decreases rows.len(),
{
    if rows.len() == 0 {
        table
    } else {
        replaced_all(table, rows.drop_last()).insert(rows.last().0, rows.last().1)
    }
}

/// The first row of a key stays, whatever is written later under it or under another
/// key.
pub proof fn law_first_write_stays<K, V>(
    table: Map<K, V>,
    key: K,
    first: V,
    other_key: K,
    later: V,
)
    ensures
        ({
            let once = kept_first(table, key, first);
            let twice = kept_first(once, other_key, later);
            &&& once.contains_key(key)
            &&& once[key] == (if table.contains_key(key) {
                table[key]
            } else {
                first
            })
            &&& twice.contains_key(key) && twice[key] == once[key]
            &&& other_key == key ==> twice == once
        }),
{
}

/// The last row that is written under a key is the one that is read, and keys that
/// are not written keep their rows.
pub proof fn law_last_write_wins<K, V>(table: Map<K, V>, rows: Seq<(K, V)>)
    ensures
        forall|i: int|
            0 <= i < rows.len() && (forall|j: int|
                i < j < rows.len() ==> (#[trigger] rows[j]).0 != rows[i].0)
                ==> replaced_all(table, rows).contains_key((#[trigger] rows[i]).0) && replaced_all(
                table,
                rows,
            )[rows[i].0] == rows[i].1,
        forall|key: K|
            (forall|i: int| 0 <= i < rows.len() ==> (#[trigger] rows[i]).0 != key) ==> (
            #[trigger] replaced_all(table, rows).contains_key(key) == table.contains_key(key)) && (
            table.contains_key(key) ==> replaced_all(table, rows)[key] == table[key]),
    decreases rows.len(),
{
    if rows.len() > 0 {
        let shorter = rows.drop_last();
        law_last_write_wins(table, shorter);
        let before = replaced_all(table, shorter);
        let now = replaced_all(table, rows);
        assert(now == before.insert(rows.last().0, rows.last().1));
        assert forall|i: int|
            0 <= i < rows.len() && (forall|j: int|
                i < j < rows.len() ==> (#[trigger] rows[j]).0 != rows[i].0) implies now.contains_key(
            (#[trigger] rows[i]).0,
        ) && now[rows[i].0] == rows[i].1 by {
            if i < shorter.len() {
                assert(shorter[i] == rows[i]);
                assert(rows[rows.len() - 1].0 != rows[i].0);
                assert forall|j: int| i < j < shorter.len() implies (#[trigger] shorter[j]).0
                    != shorter[i].0 by {
                    assert(rows[j].0 != rows[i].0);
                }
            }
        }
        assert forall|key: K|
            (forall|i: int| 0 <= i < rows.len() ==> (#[trigger] rows[i]).0 != key) implies (
        #[trigger] now.contains_key(key) == table.contains_key(key)) && (table.contains_key(key)
            ==> now[key] == table[key]) by {
            assert(rows[rows.len() - 1].0 != key);
            assert forall|i: int| 0 <= i < shorter.len() implies (#[trigger] shorter[i]).0
                != key by {
                assert(rows[i].0 != key);
            }
            assert(before.contains_key(key) == table.contains_key(key));
        }
    }
}

} // verus!
