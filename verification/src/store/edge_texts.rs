//! The description texts of edges, and the search in them.

use crate::store::statement::{Command, Statement, command, commands, text};
use crate::text::{chars_of, trim, trimmed};
use vstd::prelude::*;

verus! {

/// Writes the text of an edge, replacing an earlier one.
pub const UPSERT_EDGE_TEXT: &'static str = "INSERT OR REPLACE INTO edge_texts (edge_id, edge_text)
 VALUES (?1, ?2)";

/// Removes the text of an edge.
pub const DELETE_EDGE_TEXT: &'static str = "DELETE FROM edge_texts WHERE edge_id = ?1";

/// The edges whose text matches a pattern and holds a term. `LIKE` alone would take
/// ASCII letters of either case for the same.
pub const SEARCH_EDGE_TEXTS: &'static str = "SELECT edge_id FROM edge_texts
 WHERE edge_text LIKE ?1 ESCAPE '\\'
   AND instr(edge_text, ?2) > 0
 ORDER BY edge_id";

/// The edges that have a text.
pub const SELECT_EDGE_TEXT_IDS: &'static str = "SELECT edge_id FROM edge_texts ORDER BY edge_id";

/// The edges with their texts.
pub const SELECT_EDGE_TEXTS: &'static str =
    "SELECT edge_id, edge_text FROM edge_texts ORDER BY edge_id";

/// Whether the character means something else than itself in a pattern.
pub open spec fn is_metacharacter(c: char) -> bool {
    c == '\\' || c == '%' || c == '_'
}

/// The pattern of one literal character.
pub open spec fn escaped_char(c: char) -> Seq<char> {
    if is_metacharacter(c) {
        seq!['\\', c]
    } else {
        seq![c]
    }
}

/// The pattern of a literal text.
pub open spec fn escaped(term: Seq<char>) -> Seq<char>
    decreases term.len(),
{
    if term.len() == 0 {
        Seq::empty()
    } else {
        escaped_char(term[0]) + escaped(term.skip(1))
    }
}

/// The pattern of the texts that hold a literal text.
pub open spec fn containing(term: Seq<char>) -> Seq<char> {
    seq!['%'] + escaped(term) + seq!['%']
}

/// The pattern of a literal text: each metacharacter behind a backslash.
pub fn escape_like(term: &str) -> (r: String)
    ensures
        r@ == escaped(term@),
{
    let chars = chars_of(term);
    let mut out = String::new();
    let mut i: usize = 0;
    assert(term@.skip(0) =~= term@);
    assert(out@ + escaped(term@) =~= escaped(term@));
    while i < chars.len()
        invariant
            i <= chars@.len(),
            chars@ == term@,
            out@ + escaped(term@.skip(i as int)) == escaped(term@),
        decreases chars@.len() - i,
    {
        let ghost before = out@;
        let ghost rest = term@.skip(i as int);
        let c = chars[i];
        if c == '\\' || c == '%' || c == '_' {
            out.push('\\');
        }
        out.push(c);
        assert(rest[0] == c);
        assert(rest.skip(1) =~= term@.skip(i + 1));
        assert(out@ =~= before + escaped_char(c));
        assert(out@ + escaped(term@.skip(i + 1)) =~= before + escaped(rest));
        i += 1;
    }
    assert(term@.skip(term@.len() as int) =~= seq![]);
    assert(out@ + Seq::<char>::empty() =~= out@);
    out
}

/// Writes the text of one edge.
pub fn upsert_edge_text(edge_id: &str, edge_text: &str) -> (r: Statement)
    ensures
        r@ == upsert_command(edge_id@, edge_text@),
{
    Statement::new(UPSERT_EDGE_TEXT).with_text(edge_id).with_text(edge_text)
}

/// The statement that writes the text of one edge.
pub open spec fn upsert_command(edge_id: Seq<char>, edge_text: Seq<char>) -> Command {
    command(UPSERT_EDGE_TEXT, seq![text(edge_id), text(edge_text)])
}

/// Writes the texts of several edges, in one transaction. No edges need none.
pub fn upsert_edge_texts(items: &Vec<(String, String)>) -> (r: Vec<Statement>)
    ensures
        commands(r@) == items@.map_values(
            |item: (String, String)| upsert_command(item.0@, item.1@),
        ),
{
    let mut out: Vec<Statement> = Vec::new();
    let ghost expected = items@.map_values(
        |item: (String, String)| upsert_command(item.0@, item.1@),
    );
    let mut i: usize = 0;
    while i < items.len()
        invariant
            i <= items@.len(),
            expected == items@.map_values(
                |item: (String, String)| upsert_command(item.0@, item.1@),
            ),
            commands(out@) =~= expected.take(i as int),
        decreases items@.len() - i,
    {
        let ghost before = out@;
        let statement = upsert_edge_text(items[i].0.as_str(), items[i].1.as_str());
        out.push(statement);
        assert(commands(out@) =~= commands(before).push(statement@));
        i += 1;
    }
    out
}

/// The statement that removes the text of one edge.
pub open spec fn delete_command(edge_id: Seq<char>) -> Command {
    command(DELETE_EDGE_TEXT, seq![text(edge_id)])
}

/// Removes the texts of several edges.
pub fn delete_edge_texts(edge_ids: &Vec<String>) -> (r: Vec<Statement>)
    ensures
        commands(r@) == edge_ids@.map_values(|edge_id: String| delete_command(edge_id@)),
{
    let mut out: Vec<Statement> = Vec::new();
    let ghost expected = edge_ids@.map_values(|edge_id: String| delete_command(edge_id@));
    let mut i: usize = 0;
    while i < edge_ids.len()
        invariant
            i <= edge_ids@.len(),
            expected == edge_ids@.map_values(|edge_id: String| delete_command(edge_id@)),
            commands(out@) =~= expected.take(i as int),
        decreases edge_ids@.len() - i,
    {
        let ghost before = out@;
        let statement = Statement::new(DELETE_EDGE_TEXT).with_text(edge_ids[i].as_str());
        out.push(statement);
        assert(commands(out@) =~= commands(before).push(statement@));
        i += 1;
    }
    out
}

/// Searches for the edges whose text holds the term literally. An empty term, or one of white
/// space alone, finds nothing and asks for nothing.
pub fn search_edge_texts(term: &str) -> (r: Option<Statement>)
    ensures
        match r {
            Some(statement) => trimmed(term@).len() > 0 && statement@ == command(
                SEARCH_EDGE_TEXTS,
                seq![text(containing(term@)), text(term@)],
            ),
            None => trimmed(term@).len() == 0,
        },
{
    let content = trim(term);
    let chars = chars_of(content.as_str());
    if chars.len() == 0 {
        return None;
    }
    let mut pattern = "%".to_owned();
    pattern.append(escape_like(term).as_str());
    pattern.append("%");
    proof {
        reveal_strlit("%");
        assert("%"@ =~= seq!['%']);
    }
    Some(Statement::new(SEARCH_EDGE_TEXTS).with_text(pattern.as_str()).with_text(term))
}

/// The edges that have a text.
pub fn list_edge_text_ids() -> (r: Statement)
    ensures
        r@ == command(SELECT_EDGE_TEXT_IDS, seq![]),
{
    Statement::new(SELECT_EDGE_TEXT_IDS)
}

/// The edges with their texts.
pub fn list_edge_texts() -> (r: Statement)
    ensures
        r@ == command(SELECT_EDGE_TEXTS, seq![]),
{
    Statement::new(SELECT_EDGE_TEXTS)
}

/// The lower case of an ASCII letter; any other character itself.
pub open spec fn ascii_lower(c: char) -> int {
    if 'A' <= c <= 'Z' {
        c as int + 32
    } else {
        c as int
    }
}

/// Whether `LIKE` takes the characters for the same: it does not tell the case of
/// ASCII letters apart.
pub open spec fn alike(a: char, b: char) -> bool {
    ascii_lower(a) == ascii_lower(b)
}

/// Whether the text matches the pattern, under `LIKE` with the escape character
/// backslash.
pub open spec fn like(pattern: Seq<char>, content: Seq<char>) -> bool
    decreases pattern.len(), content.len(),
{
    if pattern.len() == 0 {
        content.len() == 0
    } else if pattern[0] == '%' {
        like(pattern.skip(1), content) || (content.len() > 0 && like(pattern, content.skip(1)))
    } else if content.len() == 0 {
        false
    } else if pattern[0] == '_' {
        like(pattern.skip(1), content.skip(1))
    } else if pattern[0] == '\\' {
        pattern.len() > 1 && alike(pattern[1], content[0]) && like(
            pattern.skip(2),
            content.skip(1),
        )
    } else {
        alike(pattern[0], content[0]) && like(pattern.skip(1), content.skip(1))
    }
}

/// Whether the term stands in the text at a position, up to the case of ASCII
/// letters.
spec fn stands_at(term: Seq<char>, content: Seq<char>, at: int) -> bool {
    &&& 0 <= at <= content.len() - term.len()
    &&& forall|j: int| 0 <= j < term.len() ==> alike(#[trigger] term[j], content[at + j])
}

proof fn lemma_any(content: Seq<char>)
    ensures
        like(seq!['%'], content),
    decreases content.len(),
{
    assert(seq!['%'].skip(1) =~= seq![]);
    if content.len() > 0 {
        lemma_any(content.skip(1));
    } else {
        reveal_with_fuel(like, 2);
    }
}

proof fn lemma_prefix(term: Seq<char>, content: Seq<char>)
    ensures
        like(escaped(term) + seq!['%'], content) == stands_at(term, content, 0),
    decreases term.len(),
{
    let pattern = escaped(term) + seq!['%'];
    if term.len() == 0 {
        assert(pattern =~= seq!['%']);
        lemma_any(content);
    } else {
        let rest = escaped(term.skip(1)) + seq!['%'];
        let piece = escaped_char(term[0]);
        assert(pattern =~= piece + rest);
        if content.len() > 0 {
            assert(pattern.skip(piece.len() as int) =~= rest);
            lemma_prefix(term.skip(1), content.skip(1));
            assert(pattern[0] == piece[0]);
            assert(like(pattern, content) == (alike(term[0], content[0]) && like(
                rest,
                content.skip(1),
            )));
            if alike(term[0], content[0]) && stands_at(term.skip(1), content.skip(1), 0) {
                assert forall|j: int| 0 <= j < term.len() implies alike(
                    #[trigger] term[j],
                    content[0 + j],
                ) by {
                    if j > 0 {
                        assert(alike(term.skip(1)[j - 1], content.skip(1)[0 + (j - 1)]));
                    }
                }
            }
            if stands_at(term, content, 0) {
                assert(alike(term[0], content[0]));
                assert forall|j: int| 0 <= j < term.skip(1).len() implies alike(
                    #[trigger] term.skip(1)[j],
                    content.skip(1)[0 + j],
                ) by {
                    assert(alike(term[j + 1], content[0 + (j + 1)]));
                }
            }
        } else {
            assert(pattern[0] == piece[0]);
            assert(!like(pattern, content));
        }
    }
}

proof fn lemma_anywhere(tail: Seq<char>, content: Seq<char>)
    ensures
        like(seq!['%'] + tail, content) == exists|at: int|
            0 <= at <= content.len() && like(tail, #[trigger] content.skip(at)),
    decreases content.len(),
{
    let pattern = seq!['%'] + tail;
    assert(pattern.skip(1) =~= tail);
    assert(content.skip(0) =~= content);
    if content.len() > 0 {
        let rest = content.skip(1);
        lemma_anywhere(tail, rest);
        if like(pattern, rest) {
            let at = choose|at: int| 0 <= at <= rest.len() && like(tail, #[trigger] rest.skip(at));
            assert(content.skip(at + 1) =~= rest.skip(at));
        }
        if exists|at: int| 0 <= at <= content.len() && like(tail, #[trigger] content.skip(at)) {
            let at = choose|at: int|
                0 <= at <= content.len() && like(tail, #[trigger] content.skip(at));
            if at > 0 {
                assert(content.skip(at) =~= rest.skip(at - 1));
            }
        }
    } else {
        if exists|at: int| 0 <= at <= content.len() && like(tail, #[trigger] content.skip(at)) {
            let at = choose|at: int|
                0 <= at <= content.len() && like(tail, #[trigger] content.skip(at));
            assert(at == 0);
        }
        if like(pattern, content) {
            assert(like(tail, content.skip(0)));
        }
    }
}

/// Whether the term stands in the text at a position, letter for letter.
pub open spec fn occurs_at(term: Seq<char>, content: Seq<char>, at: int) -> bool {
    0 <= at <= content.len() - term.len() && content.subrange(at, at + term.len()) == term
}

/// Whether the text holds the term: what `instr` with a result above zero tells.
pub open spec fn holds(content: Seq<char>, term: Seq<char>) -> bool {
    exists|at: int| #[trigger] occurs_at(term, content, at)
}

/// Whether `SEARCH_EDGE_TEXTS`, with the parameters of a search for the term, gives the
/// edge with the text.
pub open spec fn found(term: Seq<char>, content: Seq<char>) -> bool {
    like(containing(term), content) && holds(content, term)
}

proof fn lemma_pattern(term: Seq<char>, content: Seq<char>)
    ensures
        like(containing(term), content) <==> exists|at: int| #[trigger]
            stands_at(term, content, at),
{
    let tail = escaped(term) + seq!['%'];
    assert(containing(term) =~= seq!['%'] + tail);
    lemma_anywhere(tail, content);
    if like(containing(term), content) {
        let at = choose|at: int| 0 <= at <= content.len() && like(tail, #[trigger] content.skip(at));
        let rest = content.skip(at);
        lemma_prefix(term, rest);
        assert forall|j: int| 0 <= j < term.len() implies alike(
            #[trigger] term[j],
            content[at + j],
        ) by {
            assert(alike(term[j], rest[0 + j]));
        }
        assert(stands_at(term, content, at));
    }
    if exists|at: int| #[trigger] stands_at(term, content, at) {
        let at = choose|at: int| #[trigger] stands_at(term, content, at);
        let rest = content.skip(at);
        lemma_prefix(term, rest);
        assert forall|j: int| 0 <= j < term.len() implies alike(
            #[trigger] term[j],
            rest[0 + j],
        ) by {
            assert(alike(term[j], content[at + j]));
        }
        assert(stands_at(term, rest, 0));
        assert(like(tail, content.skip(at)));
    }
}

/// A search finds exactly the texts in which the term occurs literally: no character of
/// the term acts as a wildcard, and none matches in another case.
pub proof fn law_search_is_literal(term: Seq<char>, content: Seq<char>)
    ensures
        found(term, content) <==> exists|at: int|
            0 <= at <= content.len() - term.len() && #[trigger] content.subrange(
                at,
                at + term.len(),
            ) == term,
{
    if holds(content, term) {
        let at = choose|at: int| #[trigger] occurs_at(term, content, at);
        assert forall|j: int| 0 <= j < term.len() implies alike(
            #[trigger] term[j],
            content[at + j],
        ) by {
            assert(content.subrange(at, at + term.len())[j] == content[at + j]);
        }
        assert(stands_at(term, content, at));
        lemma_pattern(term, content);
        assert(content.subrange(at, at + term.len()) == term);
    }
    if exists|at: int|
        0 <= at <= content.len() - term.len() && #[trigger] content.subrange(at, at + term.len())
            == term {
        let at = choose|at: int|
            0 <= at <= content.len() - term.len() && #[trigger] content.subrange(
                at,
                at + term.len(),
            ) == term;
        assert(occurs_at(term, content, at));
    }
}

} // verus!
