//! What an edge identifier holds, and what a properties blob describes.

use crate::memory::edge_id::{DecodedEdgeId, decoding, edge_id_text, is_decoded};
use crate::memory::json::{description_text, json_object_text, json_strings};
use crate::memory::types::{EdgeId, NeighborEdge};
use crate::text::quoted_text;
use crate::timestamp::rfc3339_reading;
use vstd::prelude::*;

verus! {

/// An edge identifier holds the four columns of the natural key under their names.
pub proof fn law_identifier_columns(id: EdgeId)
    ensures
        id.encoded() == json_object_text(
            seq![
                ("source_id"@, id.source_id@),
                ("relationship_name"@, id.relationship_name@),
                ("target_id"@, id.target_id@),
                ("valid_at"@, id.valid_at.text()),
            ],
        ),
        edge_id_text(
            id.source_id@,
            id.relationship_name@,
            id.target_id@,
            id.valid_at.text(),
        ) == id.encoded(),
{
}

/// Decoding takes each column from the field of its name.
pub proof fn law_columns_come_from_their_fields(encoded: Seq<char>)
    requires
        decoding(encoded) is Ok,
    ensures
        ({
            let fields = json_strings(encoded)->Ok_0;
            let columns = decoding(encoded)->Ok_0;
            &&& json_strings(encoded) is Ok
            &&& fields.contains_key("source_id"@) && fields["source_id"@] == columns.source
            &&& fields.contains_key("relationship_name"@) && fields["relationship_name"@]
                == columns.relationship
            &&& fields.contains_key("target_id"@) && fields["target_id"@] == columns.target
            &&& fields.contains_key("valid_at"@) && rfc3339_reading(fields["valid_at"@]) == Ok::<
                (int, int),
                Seq<char>,
            >(columns.valid_at)
        }),
{
}

/// Decoding succeeds on exactly the JSON objects whose four columns are texts and whose
/// validity is a time; every error quotes the identifier and says what is wrong.
pub proof fn law_decoding_errors(encoded: Seq<char>)
    ensures
        ({
            let start = "invalid edge id "@ + quoted_text(encoded) + ": "@;
            match json_strings(encoded) {
                Err(error) => decoding(encoded) == Err::<DecodedEdgeId, Seq<char>>(start + error),
                Ok(fields) => {
                    let holds = |name: Seq<char>| fields.contains_key(name);
                    let missing = start + "missing or non-string field "@;
                    &&& decoding(encoded) is Ok <==> holds("source_id"@) && holds(
                        "relationship_name"@,
                    ) && holds("target_id"@) && holds("valid_at"@) && rfc3339_reading(
                        fields["valid_at"@],
                    ) is Ok
                    &&& !holds("source_id"@) ==> decoding(encoded) == Err::<
                        DecodedEdgeId,
                        Seq<char>,
                    >(missing + "source_id"@)
                    &&& holds("source_id"@) && !holds("relationship_name"@) ==> decoding(encoded)
                        == Err::<DecodedEdgeId, Seq<char>>(missing + "relationship_name"@)
                    &&& holds("source_id"@) && holds("relationship_name"@) && !holds("target_id"@)
                        ==> decoding(encoded) == Err::<DecodedEdgeId, Seq<char>>(
                        missing + "target_id"@,
                    )
                    &&& holds("source_id"@) && holds("relationship_name"@) && holds("target_id"@)
                        && !holds("valid_at"@) ==> decoding(encoded) == Err::<
                        DecodedEdgeId,
                        Seq<char>,
                    >(missing + "valid_at"@)
                    &&& holds("source_id"@) && holds("relationship_name"@) && holds(
                        "target_id"@,
                    ) && holds("valid_at"@) ==> match rfc3339_reading(fields["valid_at"@]) {
                        Ok(_) => decoding(encoded) is Ok,
                        Err(error) => decoding(encoded) == Err::<DecodedEdgeId, Seq<char>>(
                            start + "unparseable valid_at "@ + quoted_text(fields["valid_at"@])
                                + ": "@ + error,
                        ),
                    }
                },
            }
        }),
{
    let start = "invalid edge id "@ + quoted_text(encoded) + ": "@;
    let missing = start + "missing or non-string field "@;
    assert(start + ("missing or non-string field "@ + "source_id"@) =~= missing + "source_id"@);
    assert(start + ("missing or non-string field "@ + "relationship_name"@) =~= missing
        + "relationship_name"@);
    assert(start + ("missing or non-string field "@ + "target_id"@) =~= missing + "target_id"@);
    assert(start + ("missing or non-string field "@ + "valid_at"@) =~= missing + "valid_at"@);
    match json_strings(encoded) {
        Ok(fields) => {
            match rfc3339_reading(fields["valid_at"@]) {
                Err(error) => {
                    let shown = quoted_text(fields["valid_at"@]);
                    assert(start + ("unparseable valid_at "@ + shown + ": "@ + error) =~= start
                        + "unparseable valid_at "@ + shown + ": "@ + error);
                },
                Ok(_) => {},
            }
        },
        Err(_) => {},
    }
}

/// A decoded identifier has the columns of what was decoded, each in its place.
pub proof fn law_decoded_columns(id: EdgeId, columns: DecodedEdgeId)
    ensures
        is_decoded(id, columns) <==> (id.source_id@ == columns.source && id.relationship_name@
            == columns.relationship && id.target_id@ == columns.target && (
            id.valid_at.local_nanos(),
            id.valid_at.offset_seconds(),
        ) == columns.valid_at),
{
}

/// The dedup key of a neighbor edge is its source, relationship, target and validity, in
/// this order, with a bar between each two.
pub proof fn law_dedup_key(edge: NeighborEdge)
    ensures
        edge.dedup_key() == edge.source_id@ + ("|"@ + edge.relationship_name@) + ("|"@
            + edge.target_id@) + ("|"@ + edge.valid_at.text()),
{
    assert(edge.dedup_key() =~= edge.source_id@ + ("|"@ + edge.relationship_name@) + ("|"@
        + edge.target_id@) + ("|"@ + edge.valid_at.text()));
}

/// A properties blob describes its node by the text under its `description`, and by
/// nothing where there is no such text.
pub proof fn law_description(blob: Seq<char>)
    ensures
        description_text(None) == Seq::<char>::empty(),
        json_strings(blob) is Err ==> description_text(Some(blob)) == Seq::<char>::empty(),
        json_strings(blob) is Ok && json_strings(blob)->Ok_0.contains_key("description"@)
            ==> description_text(Some(blob)) == json_strings(blob)->Ok_0["description"@],
        json_strings(blob) is Ok && !json_strings(blob)->Ok_0.contains_key("description"@)
            ==> description_text(Some(blob)) == Seq::<char>::empty(),
{
}

} // verus!
