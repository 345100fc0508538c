//! Edge identifiers: the natural key of an edge as an opaque text.

use crate::memory::json::{
    distinct_names, field_texts, field_value, json_object_text, json_strings, read_json, write_json,
};
use crate::memory::types::{EdgeId, MemoryError, NeighborEdge, Result};
use crate::text::{opt_text, quoted, quoted_text};
use crate::timestamp::{Timestamp, rfc3339_reading};
use vstd::prelude::*;

verus! {

/// The opaque edge identifier of a natural key: the compact JSON object of the
/// four key columns.
pub open spec fn edge_id_text(
    source: Seq<char>,
    relationship: Seq<char>,
    target: Seq<char>,
    valid_at: Seq<char>,
) -> Seq<char> {
    json_object_text(
        seq![
            ("source_id"@, source),
            ("relationship_name"@, relationship),
            ("target_id"@, target),
            ("valid_at"@, valid_at),
        ],
    )
}

/// The message of a malformed edge identifier.
pub open spec fn invalid_edge_id(encoded: Seq<char>, detail: Seq<char>) -> Seq<char> {
    "invalid edge id "@ + quoted_text(encoded) + ": "@ + detail
}

/// The message of a missing key column.
pub open spec fn missing_field(encoded: Seq<char>, name: Seq<char>) -> Seq<char> {
    invalid_edge_id(encoded, "missing or non-string field "@ + name)
}

/// The message of a `valid_at` that is no RFC 3339 text.
pub open spec fn unparseable_valid_at(
    encoded: Seq<char>,
    valid_at: Seq<char>,
    error: Seq<char>,
) -> Seq<char> {
    invalid_edge_id(encoded, "unparseable valid_at "@ + quoted_text(valid_at) + ": "@ + error)
}

/// The four columns of a decoded edge identifier.
pub struct DecodedEdgeId {
    pub source: Seq<char>,
    pub relationship: Seq<char>,
    pub target: Seq<char>,
    /// The local moment and the UTC offset of `valid_at`.
    pub valid_at: (int, int),
}

/// The columns that decoding gives, or the message of its error, from the string
/// fields of the identifier.
pub open spec fn decoding_of_fields(
    encoded: Seq<char>,
    fields: Map<Seq<char>, Seq<char>>,
) -> std::result::Result<DecodedEdgeId, Seq<char>> {
    if !fields.contains_key("source_id"@) {
        Err(missing_field(encoded, "source_id"@))
    } else if !fields.contains_key("relationship_name"@) {
        Err(missing_field(encoded, "relationship_name"@))
    } else if !fields.contains_key("target_id"@) {
        Err(missing_field(encoded, "target_id"@))
    } else if !fields.contains_key("valid_at"@) {
        Err(missing_field(encoded, "valid_at"@))
    } else {
        match rfc3339_reading(fields["valid_at"@]) {
            Ok(read) => Ok(
                DecodedEdgeId {
                    source: fields["source_id"@],
                    relationship: fields["relationship_name"@],
                    target: fields["target_id"@],
                    valid_at: read,
                },
            ),
            Err(error) => Err(unparseable_valid_at(encoded, fields["valid_at"@], error)),
        }
    }
}

/// The columns that decoding an edge identifier gives, or the message of its
/// error.
pub open spec fn decoding(encoded: Seq<char>) -> std::result::Result<DecodedEdgeId, Seq<char>> {
    match json_strings(encoded) {
        Ok(fields) => decoding_of_fields(encoded, fields),
        Err(error) => Err(invalid_edge_id(encoded, error)),
    }
}

/// Whether the decoded identifier holds the columns.
pub open spec fn is_decoded(id: EdgeId, columns: DecodedEdgeId) -> bool {
    &&& id.source_id@ == columns.source
    &&& id.relationship_name@ == columns.relationship
    &&& id.target_id@ == columns.target
    &&& id.valid_at.local_nanos() == columns.valid_at.0
    &&& id.valid_at.offset_seconds() == columns.valid_at.1
}

impl EdgeId {
    /// The opaque identifier of this natural key.
    pub open spec fn encoded(self) -> Seq<char> {
        edge_id_text(
            self.source_id@,
            self.relationship_name@,
            self.target_id@,
            self.valid_at.text(),
        )
    }

    /// Renders the opaque identifier. Where RFC 3339 can write `valid_at`, decoding
    /// the identifier gives the same natural key back.
    pub fn encode(&self) -> (r: String)
        ensures
            r@ == self.encoded(),
            self.valid_at.writable() ==> (decoding(r@) matches Ok(columns) && is_decoded(
                *self,
                columns,
            )),
    {
        let valid_at = self.valid_at.to_text();
        let mut fields: Vec<(String, String)> = Vec::new();
        fields.push(("source_id".to_owned(), self.source_id.clone()));
        fields.push(("relationship_name".to_owned(), self.relationship_name.clone()));
        fields.push(("target_id".to_owned(), self.target_id.clone()));
        fields.push(("valid_at".to_owned(), valid_at));
        proof {
            lemma_names_differ();
            assert(distinct_names(fields@));
            assert(field_texts(fields@) =~= seq![
                ("source_id"@, self.source_id@),
                ("relationship_name"@, self.relationship_name@),
                ("target_id"@, self.target_id@),
                ("valid_at"@, self.valid_at.text()),
            ]);
        }
        let r = write_json(&fields);
        proof {
            let read = json_strings(r@)->Ok_0;
            assert(fields@[0].0@ == "source_id"@);
            assert(fields@[1].0@ == "relationship_name"@);
            assert(fields@[2].0@ == "target_id"@);
            assert(fields@[3].0@ == "valid_at"@);
            assert(field_value(read, fields@[0].0@) == Some(self.source_id@));
            assert(field_value(read, fields@[1].0@) == Some(self.relationship_name@));
            assert(field_value(read, fields@[2].0@) == Some(self.target_id@));
            assert(field_value(read, fields@[3].0@) == Some(self.valid_at.text()));
        }
        r
    }

    /// Parses an opaque identifier back. A malformed one is an error that quotes
    /// it.
    pub fn decode(encoded: &str) -> (r: Result<EdgeId>)
        ensures
            match (r, decoding(encoded@)) {
                (Ok(id), Ok(columns)) => is_decoded(id, columns),
                (Err(error), Err(message)) => error.is_backend(message),
                _ => false,
            },
    {
        let mut names: Vec<String> = Vec::new();
        names.push("source_id".to_owned());
        names.push("relationship_name".to_owned());
        names.push("target_id".to_owned());
        names.push("valid_at".to_owned());
        let fields = match read_json(encoded, &names) {
            Ok(fields) => fields,
            Err(error) => {
                return Err(invalid(encoded, error.as_str()));
            },
        };
        let ghost read = json_strings(encoded@)->Ok_0;
        assert(opt_text(fields@[0]) == field_value(read, names@[0]@));
        assert(opt_text(fields@[1]) == field_value(read, names@[1]@));
        assert(opt_text(fields@[2]) == field_value(read, names@[2]@));
        assert(opt_text(fields@[3]) == field_value(read, names@[3]@));
        let source_id = match &fields[0] {
            Some(text) => text.clone(),
            None => {
                return Err(missing(encoded, "source_id"));
            },
        };
        let relationship_name = match &fields[1] {
            Some(text) => text.clone(),
            None => {
                return Err(missing(encoded, "relationship_name"));
            },
        };
        let target_id = match &fields[2] {
            Some(text) => text.clone(),
            None => {
                return Err(missing(encoded, "target_id"));
            },
        };
        let valid_text = match &fields[3] {
            Some(text) => text.clone(),
            None => {
                return Err(missing(encoded, "valid_at"));
            },
        };
        match Timestamp::parse_rfc3339(valid_text.as_str()) {
            Ok(valid_at) => Ok(EdgeId { source_id, relationship_name, target_id, valid_at }),
            Err(error) => {
                let shown = quoted(valid_text.as_str());
                let mut detail = "unparseable valid_at ".to_owned();
                detail.append(shown.as_str());
                detail.append(": ");
                detail.append(error.as_str());
                Err(invalid(encoded, detail.as_str()))
            },
        }
    }
}

fn invalid(encoded: &str, detail: &str) -> (r: MemoryError)
    ensures
        r.is_backend(invalid_edge_id(encoded@, detail@)),
{
    let shown = quoted(encoded);
    let mut text = "invalid edge id ".to_owned();
    text.append(shown.as_str());
    text.append(": ");
    text.append(detail);
    MemoryError::Backend(text)
}

fn missing(encoded: &str, name: &str) -> (r: MemoryError)
    ensures
        r.is_backend(missing_field(encoded@, name@)),
{
    let mut detail = "missing or non-string field ".to_owned();
    detail.append(name);
    invalid(encoded, detail.as_str())
}

proof fn lemma_names_differ()
    ensures
        "source_id"@ != "relationship_name"@,
        "source_id"@ != "target_id"@,
        "source_id"@ != "valid_at"@,
        "relationship_name"@ != "target_id"@,
        "relationship_name"@ != "valid_at"@,
        "target_id"@ != "valid_at"@,
{
    reveal_strlit("source_id");
    reveal_strlit("relationship_name");
    reveal_strlit("target_id");
    reveal_strlit("valid_at");
    assert("source_id"@[0] == 's');
    assert("relationship_name"@[0] == 'r');
    assert("target_id"@[0] == 't');
    assert("valid_at"@[0] == 'v');
}

impl NeighborEdge {
    /// The stable dedup key of the edge: its natural key, joined by bars.
    pub open spec fn dedup_key(self) -> Seq<char> {
        self.source_id@ + "|"@ + self.relationship_name@ + "|"@ + self.target_id@ + "|"@
            + self.valid_at.text()
    }

    /// The stable dedup key of the edge: its natural key, joined by bars.
    pub fn edge_id(&self) -> (r: String)
        ensures
            r@ == self.dedup_key(),
    {
        let valid_at = self.valid_at.to_text();
        let mut r = self.source_id.clone();
        r.append("|");
        r.append(self.relationship_name.as_str());
        r.append("|");
        r.append(self.target_id.as_str());
        r.append("|");
        r.append(valid_at.as_str());
        r
    }
}

} // verus!
