//! Embedding vectors as stored bytes.
//!
//! A vector is a list of 32-bit floats, here by their bit patterns. It is stored as
//! the little-endian bytes of its floats and has a fixed dimension.

use crate::store::error::{Result, StoreError};
use crate::store::statement::{Datum, Statement, command, commands, integer, text};
use crate::text::{concat3, int_text, u64_text};
use vstd::prelude::*;

verus! {

/// The dimension of every vector.
pub const EMBEDDING_DIM: usize = 3072;

/// Removes the vector of a node.
pub const DELETE_NODE_EMBEDDING: &'static str = "DELETE FROM node_embeddings WHERE node_id = ?1";

/// Writes the vector of a node that has none.
pub const INSERT_NODE_EMBEDDING: &'static str =
    "INSERT INTO node_embeddings (node_id, embedding) VALUES (?1, ?2)";

/// Removes the queue rows of a node.
pub const DELETE_QUEUE_ROWS: &'static str = "DELETE FROM pending_embeddings WHERE node_id = ?1";

/// The nearest vectors.
pub const SELECT_NEAREST: &'static str = "SELECT node_id, distance FROM node_embeddings
 WHERE embedding MATCH ?1 AND k = ?2";

/// The nodes with a vector or a queue row.
pub const SELECT_EMBEDDING_NODE_IDS: &'static str = "SELECT node_id FROM node_embeddings
 UNION
 SELECT node_id FROM pending_embeddings
 ORDER BY node_id";

/// The nodes with a vector.
pub const SELECT_EMBEDDED_NODE_IDS: &'static str =
    "SELECT node_id FROM node_embeddings ORDER BY node_id";

/// The vector of a node.
pub const SELECT_NODE_EMBEDDING: &'static str =
    "SELECT embedding FROM node_embeddings WHERE node_id = ?1";

/// The k-th byte of a bit pattern, the lowest first.
pub open spec fn byte_of(bits: u32, k: int) -> u8 {
    if k == 0 {
        (bits % 256) as u8
    } else if k == 1 {
        (bits / 256 % 256) as u8
    } else if k == 2 {
        (bits / 65_536 % 256) as u8
    } else {
        (bits / 16_777_216) as u8
    }
}

/// The bytes of a vector.
pub open spec fn blob_of(embedding: Seq<u32>) -> Seq<u8> {
    Seq::new(4 * embedding.len(), |i: int| byte_of(embedding[i / 4], i % 4))
}

/// The bit pattern of four bytes.
pub open spec fn bits_of(b0: u8, b1: u8, b2: u8, b3: u8) -> u32 {
    (b0 + 256 * b1 + 65_536 * b2 + 16_777_216 * b3) as u32
}

/// The vector of stored bytes.
pub open spec fn embedding_of(blob: Seq<u8>) -> Seq<u32> {
    Seq::new(
        blob.len() / 4,
        |j: int| bits_of(blob[4 * j], blob[4 * j + 1], blob[4 * j + 2], blob[4 * j + 3]),
    )
}

/// The text that names a wrong length.
pub open spec fn length_text(expected: int, unit: Seq<char>, found: int) -> Seq<char> {
    "expected "@ + int_text(expected) + unit + int_text(found)
}

fn length_message(expected: u64, unit: &str, found: u64) -> (r: String)
    ensures
        r@ == length_text(expected as int, unit@, found as int),
{
    concat3("expected ", u64_text(expected).as_str(), unit).concat(u64_text(found).as_str())
}

/// The bytes to store for a vector. A vector of another dimension is refused.
pub fn embedding_to_blob(embedding: &[u32]) -> (r: Result<Vec<u8>>)
    ensures
        match r {
            Ok(blob) => embedding@.len() == EMBEDDING_DIM && blob@ == blob_of(embedding@),
            Err(error) => embedding@.len() != EMBEDDING_DIM && error.is_invalid(
                "embedding_dim"@,
                length_text(EMBEDDING_DIM as int, ", got "@, embedding@.len() as int),
            ),
        },
        r is Ok <==> embedding@.len() == 3072,
{
    let length: usize = embedding.len();
    if length != EMBEDDING_DIM {
        return Err(
            StoreError::InvalidValue {
                key: "embedding_dim".to_owned(),
                value: length_message(EMBEDDING_DIM as u64, ", got ", length as u64),
            },
        );
    }
    let mut blob: Vec<u8> = Vec::new();
    let mut j: usize = 0;
    while j < length
        invariant
            length == embedding@.len(),
            j <= length,
            blob@.len() == 4 * j,
            forall|i: int| 0 <= i < 4 * j ==> #[trigger] blob@[i] == byte_of(embedding@[i / 4], i % 4),
        decreases length - j,
    {
        let bits: u32 = embedding[j];
        let ghost before = blob@;
        blob.push((bits % 256) as u8);
        blob.push((bits / 256 % 256) as u8);
        blob.push((bits / 65_536 % 256) as u8);
        blob.push((bits / 16_777_216) as u8);
        assert forall|i: int| 0 <= i < 4 * (j + 1) implies #[trigger] blob@[i] == byte_of(
            embedding@[i / 4],
            i % 4,
        ) by {
            if i < 4 * j {
                assert(blob@[i] == before[i]);
            } else {
                assert(i / 4 == j && i % 4 == i - 4 * j);
            }
        }
        j += 1;
    }
    assert(blob@ =~= blob_of(embedding@));
    Ok(blob)
}

/// The vector of stored bytes. Bytes of another length are refused.
pub fn blob_to_embedding(blob: &[u8]) -> (r: Result<Vec<u32>>)
    ensures
        match r {
            Ok(embedding) => blob@.len() == 4 * EMBEDDING_DIM && embedding@ == embedding_of(blob@),
            Err(error) => blob@.len() != 4 * EMBEDDING_DIM && error.is_invalid(
                "embedding_blob"@,
                length_text(4 * EMBEDDING_DIM, " bytes, got "@, blob@.len() as int),
            ),
        },
        r is Ok <==> blob@.len() == 12_288,
{
    let length: usize = blob.len();
    if length != 4 * EMBEDDING_DIM {
        return Err(
            StoreError::InvalidValue {
                key: "embedding_blob".to_owned(),
                value: length_message((4 * EMBEDDING_DIM) as u64, " bytes, got ", length as u64),
            },
        );
    }
    let mut embedding: Vec<u32> = Vec::new();
    let mut j: usize = 0;
    while j < EMBEDDING_DIM
        invariant
            blob@.len() == 4 * EMBEDDING_DIM,
            j <= EMBEDDING_DIM,
            embedding@.len() == j,
            forall|k: int|
                0 <= k < j ==> #[trigger] embedding@[k] == bits_of(
                    blob@[4 * k],
                    blob@[4 * k + 1],
                    blob@[4 * k + 2],
                    blob@[4 * k + 3],
                ),
        decreases EMBEDDING_DIM - j,
    {
        let b0: u32 = blob[4 * j] as u32;
        let b1: u32 = blob[4 * j + 1] as u32;
        let b2: u32 = blob[4 * j + 2] as u32;
        let b3: u32 = blob[4 * j + 3] as u32;
        embedding.push(b0 + 256 * b1 + 65_536 * b2 + 16_777_216 * b3);
        j += 1;
    }
    assert(embedding@ =~= embedding_of(blob@));
    Ok(embedding)
}

proof fn lemma_bits_of_bytes(bits: u32)
    ensures
        bits_of(byte_of(bits, 0), byte_of(bits, 1), byte_of(bits, 2), byte_of(bits, 3)) == bits,
{
    let high = bits / 256;
    let higher = bits / 65_536;
    let top = bits / 16_777_216;
    assert(higher == high / 256);
    assert(top == higher / 256);
    assert(bits == 256 * high + bits % 256);
    assert(high == 256 * higher + high % 256);
    assert(higher == 256 * top + higher % 256);
}

proof fn lemma_bytes_of_bits(b0: u8, b1: u8, b2: u8, b3: u8)
    ensures
        byte_of(bits_of(b0, b1, b2, b3), 0) == b0,
        byte_of(bits_of(b0, b1, b2, b3), 1) == b1,
        byte_of(bits_of(b0, b1, b2, b3), 2) == b2,
        byte_of(bits_of(b0, b1, b2, b3), 3) == b3,
{
    let bits = bits_of(b0, b1, b2, b3);
    assert(bits == b0 + 256 * b1 + 65_536 * b2 + 16_777_216 * b3);
    assert(bits / 256 == b1 + 256 * b2 + 65_536 * b3);
    assert(bits / 65_536 == b2 + 256 * b3);
    assert(bits / 16_777_216 == b3);
}

/// A stored vector reads back as it was written, bit for bit.
pub proof fn law_vector_reads_back(embedding: Seq<u32>)
    ensures
        embedding_of(blob_of(embedding)) == embedding,
{
    let blob = blob_of(embedding);
    assert forall|j: int| 0 <= j < embedding.len() implies #[trigger] embedding_of(blob)[j]
        == embedding[j] by {
        lemma_bits_of_bytes(embedding[j]);
        assert(4 * j / 4 == j && 4 * j % 4 == 0);
        assert((4 * j + 1) / 4 == j && (4 * j + 1) % 4 == 1);
        assert((4 * j + 2) / 4 == j && (4 * j + 2) % 4 == 2);
        assert((4 * j + 3) / 4 == j && (4 * j + 3) % 4 == 3);
    }
    assert(embedding_of(blob) =~= embedding);
}

/// Writing a vector that was read gives the stored bytes again.
pub proof fn law_blob_writes_back(blob: Seq<u8>)
    requires
        blob.len() % 4 == 0,
    ensures
        blob_of(embedding_of(blob)) == blob,
{
    let embedding = embedding_of(blob);
    assert forall|i: int| 0 <= i < blob.len() implies #[trigger] blob_of(embedding)[i]
        == blob[i] by {
        let j = i / 4;
        assert(i == 4 * j + i % 4);
        lemma_bytes_of_bits(blob[4 * j], blob[4 * j + 1], blob[4 * j + 2], blob[4 * j + 3]);
    }
    assert(blob_of(embedding) =~= blob);
}

/// The number as a parameter: the largest one where it does not fit.
pub open spec fn clamped(n: int) -> int {
    if n <= i64::MAX {
        n
    } else {
        i64::MAX as int
    }
}

pub(crate) fn clamp(n: usize) -> (r: i64)
    ensures
        r == clamped(n as int),
{
    if n as u64 <= i64::MAX as u64 {
        n as i64
    } else {
        i64::MAX
    }
}

/// Writes the vector of a node, replacing an earlier one, in one transaction.
pub fn upsert_node_embedding(node_id: &str, embedding: &[u32]) -> (r: Result<Vec<Statement>>)
    ensures
        match r {
            Ok(statements) => embedding@.len() == EMBEDDING_DIM && commands(statements@) == seq![
                command(DELETE_NODE_EMBEDDING, seq![text(node_id@)]),
                command(
                    INSERT_NODE_EMBEDDING,
                    seq![text(node_id@), Datum::Blob(blob_of(embedding@))],
                ),
            ],
            Err(error) => embedding@.len() != EMBEDDING_DIM && error.is_invalid(
                "embedding_dim"@,
                length_text(EMBEDDING_DIM as int, ", got "@, embedding@.len() as int),
            ),
        },
{
    match embedding_to_blob(embedding) {
        Ok(blob) => {
            let mut out: Vec<Statement> = Vec::new();
            out.push(Statement::new(DELETE_NODE_EMBEDDING).with_text(node_id));
            let insert = Statement::new(INSERT_NODE_EMBEDDING).with_text(node_id).with_blob(blob);
            assert(insert@.params =~= seq![text(node_id@), Datum::Blob(blob_of(embedding@))]);
            out.push(insert);
            assert(commands(out@) =~= seq![
                command(DELETE_NODE_EMBEDDING, seq![text(node_id@)]),
                command(
                    INSERT_NODE_EMBEDDING,
                    seq![text(node_id@), Datum::Blob(blob_of(embedding@))],
                ),
            ]);
            Ok(out)
        },
        Err(error) => Err(error),
    }
}

/// Removes every trace of a node, in one transaction: its vector and its queue rows.
pub fn delete_node_embedding_rows(node_id: &str) -> (r: Vec<Statement>)
    ensures
        commands(r@) == seq![
            command(DELETE_NODE_EMBEDDING, seq![text(node_id@)]),
            command(DELETE_QUEUE_ROWS, seq![text(node_id@)]),
        ],
{
    let mut out: Vec<Statement> = Vec::new();
    out.push(Statement::new(DELETE_NODE_EMBEDDING).with_text(node_id));
    out.push(Statement::new(DELETE_QUEUE_ROWS).with_text(node_id));
    assert(commands(out@) =~= seq![
        command(DELETE_NODE_EMBEDDING, seq![text(node_id@)]),
        command(DELETE_QUEUE_ROWS, seq![text(node_id@)]),
    ]);
    out
}

/// The nodes whose vectors are nearest to the query, nearest first.
pub fn knn_node_embeddings(query: &[u32], k: usize) -> (r: Result<Statement>)
    ensures
        match r {
            Ok(statement) => query@.len() == EMBEDDING_DIM && statement@ == command(
                SELECT_NEAREST,
                seq![Datum::Blob(blob_of(query@)), integer(clamped(k as int))],
            ),
            Err(error) => query@.len() != EMBEDDING_DIM && error.is_invalid(
                "embedding_dim"@,
                length_text(EMBEDDING_DIM as int, ", got "@, query@.len() as int),
            ),
        },
{
    match embedding_to_blob(query) {
        Ok(blob) => Ok(Statement::new(SELECT_NEAREST).with_blob(blob).with_integer(clamp(k))),
        Err(error) => Err(error),
    }
}

/// The nodes with a vector or a queue row.
pub fn all_embedding_node_ids() -> (r: Statement)
    ensures
        r@ == command(SELECT_EMBEDDING_NODE_IDS, seq![]),
{
    Statement::new(SELECT_EMBEDDING_NODE_IDS)
}

/// The nodes with a vector.
pub fn embedded_node_ids() -> (r: Statement)
    ensures
        r@ == command(SELECT_EMBEDDED_NODE_IDS, seq![]),
{
    Statement::new(SELECT_EMBEDDED_NODE_IDS)
}

/// The stored bytes of the vector of a node.
pub fn node_embedding(node_id: &str) -> (r: Statement)
    ensures
        r@ == command(SELECT_NODE_EMBEDDING, seq![text(node_id@)]),
{
    Statement::new(SELECT_NODE_EMBEDDING).with_text(node_id)
}

/// The vector of a node, from the stored bytes that were found.
pub fn read_node_embedding(found: Option<Vec<u8>>) -> (r: Result<Option<Vec<u32>>>)
    ensures
        match (found, r) {
            (None, Ok(None)) => true,
            (Some(blob), Ok(Some(embedding))) => blob@.len() == 4 * EMBEDDING_DIM && embedding@
                == embedding_of(blob@),
            (Some(blob), Err(error)) => blob@.len() != 4 * EMBEDDING_DIM && error.is_invalid(
                "embedding_blob"@,
                length_text(4 * EMBEDDING_DIM, " bytes, got "@, blob@.len() as int),
            ),
            _ => false,
        },
{
    match found {
        Some(blob) => match blob_to_embedding(blob.as_slice()) {
            Ok(embedding) => Ok(Some(embedding)),
            Err(error) => Err(error),
        },
        None => Ok(None),
    }
}

} // verus!
