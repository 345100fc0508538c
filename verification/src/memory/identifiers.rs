//! Deterministic node identifiers.
//!
//! An identifier is a name-based UUID over a key of the node: the same key always
//! gives the same identifier.

use crate::sequence::{kept, lemma_kept_joined, lemma_kept_push};
use crate::text::{
    chars_of, concat3, i64_text, int_text, is_digit, is_white_space, lemma_int_text_plain,
    lemma_int_text_reads_back, text_of, white_space,
};
use vstd::prelude::*;

verus! {

/// The namespace of all identifiers. It never changes: a change would give every
/// node a new identifier.
pub const NAMESPACE: u128 = 0x9068d01a_4a83_4ef0_971b_751eafe829b0;

/// The hyphenated text of the name-based (SHA-1) UUID of a name in a namespace.
pub uninterp spec fn uuid_v5_text(namespace: u128, name: Seq<char>) -> Seq<char>;

/// The Unicode normalization form KC of a text.
pub uninterp spec fn nfkc_text(text: Seq<char>) -> Seq<char>;

/// The lowercase mapping of a character.
pub uninterp spec fn lowercase(c: char) -> Seq<char>;

/// Whether the text has the shape of a hyphenated UUID: 36 characters, hyphens
/// after the groups of 8, 4, 4 and 4, lowercase hexadecimal digits elsewhere, the first
/// digit of the third group the version.
pub open spec fn uuid_shaped(text: Seq<char>) -> bool {
    &&& text.len() == 36
    &&& text[14] == '5'
    &&& forall|i: int|
        0 <= i < 36 ==> if i == 8 || i == 13 || i == 18 || i == 23 {
            #[trigger] text[i] == '-'
        } else {
            is_digit(text[i]) || 'a' <= text[i] <= 'f'
        }
}

/// `uuid::Uuid::new_v5` and its hyphenated lowercase text, with the version digit 5.
#[verifier::external_body]
fn uuid_v5(namespace: u128, name: &str) -> (r: String)
    ensures
        r@ == uuid_v5_text(namespace, name@),
        uuid_shaped(r@),
{
    let namespace = uuid::Uuid::from_u128(namespace);
    uuid::Uuid::new_v5(&namespace, name.as_bytes()).hyphenated().to_string()
}

/// Whether the character is an ASCII one.
pub open spec fn is_ascii_char(c: char) -> bool {
    c <= '\u{7f}'
}

/// Whether every character of the text is an ASCII one.
pub open spec fn is_ascii_text(text: Seq<char>) -> bool {
    forall|i: int| 0 <= i < text.len() ==> is_ascii_char(#[trigger] text[i])
}

/// The lower case of an ASCII letter; any other character itself.
pub open spec fn ascii_lowercase(c: char) -> char {
    if 'A' <= c <= 'Z' {
        (c as int + 32) as char
    } else {
        c
    }
}

/// `unicode_normalization::UnicodeNormalization::nfkc` on a text. A text of ASCII
/// characters is in normalization form KC already.
#[verifier::external_body]
fn nfkc(text: &str) -> (r: String)
    ensures
        r@ == nfkc_text(text@),
        is_ascii_text(text@) ==> r@ == text@,
{
    unicode_normalization::UnicodeNormalization::nfkc(text).collect()
}

/// `char::to_lowercase`. An ASCII character has one lowercase character: that of an
/// ASCII letter is the ASCII letter, and any other one is its own.
#[verifier::external_body]
fn lowercase_of(c: char) -> (r: Vec<char>)
    ensures
        r@ == lowercase(c),
        is_ascii_char(c) ==> r@ == seq![ascii_lowercase(c)],
{
    c.to_lowercase().collect()
}

/// The lowercase mappings of the characters but `@`, one after the other.
pub open spec fn lowered(text: Seq<char>) -> Seq<char>
    decreases text.len(),
{
    if text.len() == 0 {
        Seq::empty()
    } else if text.last() == '@' {
        lowered(text.drop_last())
    } else {
        lowered(text.drop_last()) + lowercase(text.last())
    }
}

/// The lower case of an ASCII text without `@`.
pub open spec fn ascii_lowered(text: Seq<char>) -> Seq<char>
    decreases text.len(),
{
    if text.len() == 0 {
        Seq::empty()
    } else if text.last() == '@' {
        ascii_lowered(text.drop_last())
    } else {
        ascii_lowered(text.drop_last()).push(ascii_lowercase(text.last()))
    }
}

/// The text with each run of white space as one space, and none at the start.
pub open spec fn collapsed(text: Seq<char>) -> Seq<char>
    decreases text.len(),
{
    if text.len() == 0 {
        Seq::empty()
    } else {
        let before = collapsed(text.drop_last());
        if !white_space(text.last()) {
            before.push(text.last())
        } else if before.len() == 0 || before.last() == ' ' {
            before
        } else {
            before.push(' ')
        }
    }
}

/// The text with its words separated by one space, and no space around them.
pub open spec fn words(text: Seq<char>) -> Seq<char> {
    let spaced = collapsed(text);
    if spaced.len() > 0 && spaced.last() == ' ' {
        spaced.drop_last()
    } else {
        spaced
    }
}

/// Whether the character is an ASCII letter.
pub open spec fn is_letter(c: char) -> bool {
    'a' <= c <= 'z' || 'A' <= c <= 'Z'
}

/// Whether one of the characters is an ASCII letter and the other an ASCII digit.
pub open spec fn letter_digit(a: char, b: char) -> bool {
    is_letter(a) && is_digit(b) || is_digit(a) && is_letter(b)
}

/// Whether the character at `i` is a space between an ASCII letter and an ASCII
/// digit.
pub open spec fn folds_at(text: Seq<char>, i: int) -> bool {
    0 < i < text.len() - 1 && text[i] == ' ' && letter_digit(text[i - 1], text[i + 1])
}

/// The text without its spaces between an ASCII letter and an ASCII digit.
pub open spec fn folded(text: Seq<char>) -> Seq<char> {
    kept(
        Seq::new(
            text.len(),
            |i: int|
                if folds_at(text, i) {
                    None
                } else {
                    Some(text[i])
                },
        ),
    )
}

/// The normalized form of a text: NFKC, no `@`, lowercase, single spaces between
/// words, and no space between an ASCII letter and an ASCII digit.
pub open spec fn normalized(text: Seq<char>) -> Seq<char> {
    folded(words(lowered(nfkc_text(text))))
}

/// The normalized form of an ASCII text.
pub open spec fn ascii_normalized(text: Seq<char>) -> Seq<char> {
    folded(words(ascii_lowered(text)))
}

fn letter_or_digit_boundary(a: char, b: char) -> (r: bool)
    ensures
        r == letter_digit(a, b),
{
    let letter_a = ('a' <= a && a <= 'z') || ('A' <= a && a <= 'Z');
    let letter_b = ('a' <= b && b <= 'z') || ('A' <= b && b <= 'Z');
    let digit_a = '0' <= a && a <= '9';
    let digit_b = '0' <= b && b <= '9';
    (letter_a && digit_b) || (digit_a && letter_b)
}

/// Removes each space between an ASCII letter and an ASCII digit.
pub fn fold_letter_digit_boundaries(text: &str) -> (r: String)
    ensures
        r@ == folded(text@),
{
    let chars = chars_of(text);
    let mut out = String::new();
    let ghost marks = Seq::new(
        text@.len(),
        |i: int|
            if folds_at(text@, i) {
                None
            } else {
                Some(text@[i])
            },
    );
    let mut i: usize = 0;
    assert(kept(marks.take(0)) =~= Seq::<char>::empty());
    while i < chars.len()
        invariant
            i <= chars@.len(),
            chars@ == text@,
            marks == Seq::new(
                text@.len(),
                |i: int|
                    if folds_at(text@, i) {
                        None
                    } else {
                        Some(text@[i])
                    },
            ),
            out@ == kept(marks.take(i as int)),
        decreases chars@.len() - i,
    {
        proof {
            lemma_kept_push(marks, i as int);
        }
        let fold = chars[i] == ' ' && i > 0 && i < chars.len() - 1 && letter_or_digit_boundary(
            chars[i - 1],
            chars[i + 1],
        );
        if !fold {
            out.push(chars[i]);
        }
        i += 1;
    }
    assert(marks.take(i as int) =~= marks);
    out
}

/// Separates the words of a text by single spaces and removes each space between an
/// ASCII letter and an ASCII digit.
pub fn normalize_spacing(text: &str) -> (r: String)
    ensures
        r@ == folded(words(text@)),
{
    let chars = chars_of(text);
    let mut out: Vec<char> = Vec::new();
    let mut i: usize = 0;
    while i < chars.len()
        invariant
            i <= chars@.len(),
            chars@ == text@,
            out@ == collapsed(text@.take(i as int)),
        decreases chars@.len() - i,
    {
        assert(text@.take(i + 1).drop_last() =~= text@.take(i as int));
        if is_white_space(chars[i]) {
            if out.len() > 0 && out[out.len() - 1] != ' ' {
                out.push(' ');
            }
        } else {
            out.push(chars[i]);
        }
        i += 1;
    }
    assert(text@.take(i as int) =~= text@);
    if out.len() > 0 && out[out.len() - 1] == ' ' {
        let _ = out.pop();
    }
    let spaced = text_of(&out);
    fold_letter_digit_boundaries(spaced.as_str())
}

/// Normalizes a text that is already in normalization form KC.
pub fn normalize_composed(text: &str) -> (r: String)
    ensures
        r@ == folded(words(lowered(text@))),
        r@ == folded(
            words(
                text@.filter(|c: char| c != '@').map_values(|c: char| lowercase(c)).flatten(),
            ),
        ),
        is_ascii_text(text@) ==> lowered(text@) == ascii_lowered(text@),
{
    let chars = chars_of(text);
    let mut out = String::new();
    let mut i: usize = 0;
    while i < chars.len()
        invariant
            i <= chars@.len(),
            chars@ == text@,
            out@ == lowered(text@.take(i as int)),
            is_ascii_text(text@) ==> out@ == ascii_lowered(text@.take(i as int)),
        decreases chars@.len() - i,
    {
        assert(text@.take(i + 1).drop_last() =~= text@.take(i as int));
        assert(is_ascii_text(text@) ==> is_ascii_char(text@[i as int]));
        let ghost before = out@;
        if chars[i] != '@' {
            let lower = lowercase_of(chars[i]);
            let piece = text_of(&lower);
            out.append(piece.as_str());
            assert(is_ascii_text(text@) ==> out@ =~= before.push(
                ascii_lowercase(text@[i as int]),
            ));
        }
        i += 1;
    }
    assert(text@.take(i as int) =~= text@);
    proof {
        law_every_character_is_lowered(text@);
    }
    normalize_spacing(out.as_str())
}

/// Normalizes a surface form or a canonical name. What becomes of an ASCII text is
/// known in full.
pub fn normalize(text: &str) -> (r: String)
    ensures
        r@ == normalized(text@),
        is_ascii_text(text@) ==> r@ == ascii_normalized(text@),
{
    let composed = nfkc(text);
    normalize_composed(composed.as_str())
}

/// The identifier of a key.
pub open spec fn identifier(key: Seq<char>) -> Seq<char> {
    uuid_v5_text(NAMESPACE, key)
}

/// The identifier of an alias.
pub open spec fn alias_identifier(surface_form: Seq<char>) -> Seq<char> {
    identifier("alias:"@ + normalized(surface_form))
}

/// The identifier of a person, from the user identifier.
pub fn person_id(user_id: &str) -> (r: String)
    ensures
        r@ == identifier("tg_user:"@ + user_id@),
        uuid_shaped(r@),
{
    let key = "tg_user:".to_owned().concat(user_id);
    uuid_v5(NAMESPACE, key.as_str())
}

/// The identifier of an alias, from its surface form.
pub fn alias_id(surface_form: &str) -> (r: String)
    ensures
        r@ == alias_identifier(surface_form@),
        is_ascii_text(surface_form@) ==> r@ == identifier(
            "alias:"@ + ascii_normalized(surface_form@),
        ),
        uuid_shaped(r@),
{
    let normal = normalize(surface_form);
    let key = "alias:".to_owned().concat(normal.as_str());
    uuid_v5(NAMESPACE, key.as_str())
}

/// The identifier of a concept, from its canonical name.
pub fn concept_id(canonical_name: &str) -> (r: String)
    ensures
        r@ == identifier("concept:"@ + normalized(canonical_name@)),
        is_ascii_text(canonical_name@) ==> r@ == identifier(
            "concept:"@ + ascii_normalized(canonical_name@),
        ),
        uuid_shaped(r@),
{
    let normal = normalize(canonical_name);
    let key = "concept:".to_owned().concat(normal.as_str());
    uuid_v5(NAMESPACE, key.as_str())
}

/// The key of a batch: its first and last message.
pub open spec fn batch_key(first_msg_id: int, last_msg_id: int) -> Seq<char> {
    "batch:"@ + int_text(first_msg_id) + ":"@ + int_text(last_msg_id)
}

/// The identifier of a batch, from its first and last message.
pub fn batch_id(first_msg_id: i64, last_msg_id: i64) -> (r: String)
    ensures
        r@ == identifier(batch_key(first_msg_id as int, last_msg_id as int)),
        uuid_shaped(r@),
{
    let first = i64_text(first_msg_id);
    let last = i64_text(last_msg_id);
    let mut key = concat3("batch:", first.as_str(), ":");
    key.append(last.as_str());
    uuid_v5(NAMESPACE, key.as_str())
}

// ----- laws -----

/// Whether every white space in the text is one space between two characters that
/// are no white space.
pub open spec fn single_spaced(text: Seq<char>) -> bool {
    forall|i: int|
        0 <= i < text.len() && white_space(#[trigger] text[i]) ==> {
            &&& text[i] == ' '
            &&& 0 < i < text.len() - 1
            &&& !white_space(text[i - 1])
            &&& !white_space(text[i + 1])
        }
}

/// Whether no space stands between an ASCII letter and an ASCII digit.
pub open spec fn no_split_boundary(text: Seq<char>) -> bool {
    forall|i: int|
        0 < i < text.len() - 1 && #[trigger] text[i] == ' ' ==> !letter_digit(
            text[i - 1],
            text[i + 1],
        )
}

/// Every white space but a trailing one is single between two words.
spec fn spaced_so_far(text: Seq<char>) -> bool {
    forall|i: int|
        0 <= i < text.len() && white_space(#[trigger] text[i]) ==> {
            &&& text[i] == ' '
            &&& 0 < i
            &&& !white_space(text[i - 1])
        }
}

proof fn lemma_collapsed_spaced(text: Seq<char>)
    ensures
        spaced_so_far(collapsed(text)),
    decreases text.len(),
{
    if text.len() > 0 {
        lemma_collapsed_spaced(text.drop_last());
        let before = collapsed(text.drop_last());
        let after = collapsed(text);
        assert forall|i: int| 0 <= i < after.len() && white_space(#[trigger] after[i]) implies {
            &&& after[i] == ' '
            &&& 0 < i
            &&& !white_space(after[i - 1])
        } by {
            if i < before.len() {
                assert(after[i] == before[i]);
                if i > 0 {
                    assert(after[i - 1] == before[i - 1]);
                }
            } else {
                assert(before.len() > 0 && before.last() != ' ');
                if white_space(before[before.len() - 1]) {
                    assert(before[before.len() - 1] == ' ');
                }
            }
        }
    }
}

proof fn lemma_words_spaced(text: Seq<char>)
    ensures
        single_spaced(words(text)),
{
    lemma_collapsed_spaced(text);
    let spaced = collapsed(text);
    let r = words(text);
    assert forall|i: int| 0 <= i < r.len() && white_space(#[trigger] r[i]) implies {
        &&& r[i] == ' '
        &&& 0 < i < r.len() - 1
        &&& !white_space(r[i - 1])
        &&& !white_space(r[i + 1])
    } by {
        assert(r[i] == spaced[i]);
        if i == r.len() - 1 {
            // The last character is no space, so a space before it was dropped.
            if spaced.len() > r.len() {
                assert(white_space(spaced[i + 1]));
            }
        } else {
            if white_space(spaced[i + 1]) {
                assert(!white_space(spaced[i]));
            }
        }
    }
}

/// What folding a prefix of a single-spaced text leaves.
spec fn folded_so_far(text: Seq<char>, n: int, out: Seq<char>) -> bool {
    &&& n > 0 ==> out.len() > 0
    &&& n > 0 && !folds_at(text, n - 1) ==> out.last() == text[n - 1]
    &&& n > 1 && folds_at(text, n - 1) ==> out.last() == text[n - 2]
    &&& n > 1 && text[n - 1] == ' ' && !folds_at(text, n - 1) ==> out.len() > 1 && out[out.len()
        - 2] == text[n - 2]
    &&& forall|i: int|
        0 <= i < out.len() && white_space(#[trigger] out[i]) ==> {
            &&& out[i] == ' '
            &&& 0 < i
            &&& !white_space(out[i - 1])
            &&& i < out.len() - 1 ==> !white_space(out[i + 1]) && !letter_digit(
                out[i - 1],
                out[i + 1],
            )
        }
}

proof fn lemma_folded_prefix(text: Seq<char>, n: int)
    requires
        single_spaced(text),
        0 <= n <= text.len(),
    ensures
        ({
            let marks = Seq::new(
                text.len(),
                |i: int|
                    if folds_at(text, i) {
                        None
                    } else {
                        Some(text[i])
                    },
            );
            folded_so_far(text, n, kept(marks.take(n)))
        }),
    decreases n,
{
    let marks = Seq::new(
        text.len(),
        |i: int|
            if folds_at(text, i) {
                None
            } else {
                Some(text[i])
            },
    );
    let out = kept(marks.take(n));
    if n == 0 {
        assert(marks.take(0).len() == 0);
        assert(out.len() == 0);
    } else {
        lemma_folded_prefix(text, n - 1);
        lemma_kept_push(marks, n - 1);
        let before = kept(marks.take(n - 1));
        let c = text[n - 1];
        if n == 1 {
            assert(before.len() == 0) by {
                assert(marks.take(0).len() == 0);
            }
            assert(!white_space(c));
        } else {
            if folds_at(text, n - 1) {
                assert(white_space(c));
                assert(!white_space(text[n - 2]));
            } else {
                if white_space(c) {
                    assert(!white_space(text[n - 2]));
                    assert(!folds_at(text, n - 2));
                }
                if white_space(before.last()) {
                    assert(before.last() == text[n - 2]);
                    assert(!folds_at(text, n - 2));
                }
                assert forall|i: int| 0 <= i < out.len() && white_space(#[trigger] out[i]) implies {
                    &&& out[i] == ' '
                    &&& 0 < i
                    &&& !white_space(out[i - 1])
                    &&& i < out.len() - 1 ==> !white_space(out[i + 1]) && !letter_digit(
                        out[i - 1],
                        out[i + 1],
                    )
                } by {
                    if i < before.len() {
                        assert(out[i] == before[i]);
                        assert(i > 0);
                        assert(out[i - 1] == before[i - 1]);
                        if i < before.len() - 1 {
                            assert(out[i + 1] == before[i + 1]);
                        } else {
                            assert(out[i + 1] == c);
                        }
                    }
                }
            }
        }
    }
}

/// A normalized text has no white space at its ends, only single spaces between
/// words, and no space between an ASCII letter and an ASCII digit.
pub proof fn law_normalized_spacing(text: Seq<char>)
    ensures
        single_spaced(normalized(text)),
        no_split_boundary(normalized(text)),
{
    lemma_spacing(lowered(nfkc_text(text)));
}

proof fn lemma_spacing(text: Seq<char>)
    ensures
        single_spaced(folded(words(text))),
        no_split_boundary(folded(words(text))),
{
    let spaced = words(text);
    let r = folded(spaced);
    lemma_words_spaced(text);
    lemma_folded_prefix(spaced, spaced.len() as int);
    let marks = Seq::new(
        spaced.len(),
        |i: int|
            if folds_at(spaced, i) {
                None
            } else {
                Some(spaced[i])
            },
    );
    assert(marks.take(spaced.len() as int) =~= marks);
    assert(r == kept(marks));
    if spaced.len() > 0 {
        assert(!white_space(spaced[spaced.len() - 1]));
        assert(r.last() == spaced[spaced.len() - 1]);
    }
    assert forall|i: int| 0 <= i < r.len() && white_space(#[trigger] r[i]) implies {
        &&& r[i] == ' '
        &&& 0 < i < r.len() - 1
        &&& !white_space(r[i - 1])
        &&& !white_space(r[i + 1])
    } by {
        if spaced.len() == 0 {
            assert(marks.len() == 0);
        }
        if i == r.len() - 1 {
            assert(r[i] == r.last());
        }
    }
    assert forall|i: int| 0 < i < r.len() - 1 && #[trigger] r[i] == ' ' implies !letter_digit(
        r[i - 1],
        r[i + 1],
    ) by {
        assert(white_space(r[i]));
    }
}

proof fn lemma_collapsed_keeps(text: Seq<char>)
    requires
        spaced_so_far(text),
    ensures
        collapsed(text) == text,
    decreases text.len(),
{
    if text.len() > 0 {
        let before = text.drop_last();
        assert forall|i: int| 0 <= i < before.len() && white_space(#[trigger] before[i]) implies {
            &&& before[i] == ' '
            &&& 0 < i
            &&& !white_space(before[i - 1])
        } by {
            assert(text[i] == before[i]);
        }
        lemma_collapsed_keeps(before);
        let last = text[text.len() - 1];
        if white_space(last) {
            assert(!white_space(text[text.len() - 2]));
            assert(before.last() == text[text.len() - 2]);
            assert(before.last() != ' ');
        }
        assert(collapsed(text) =~= text);
    }
}

proof fn lemma_folded_keeps(text: Seq<char>)
    requires
        no_split_boundary(text),
    ensures
        folded(text) == text,
{
    let marks = Seq::new(
        text.len(),
        |i: int|
            if folds_at(text, i) {
                None
            } else {
                Some(text[i])
            },
    );
    assert forall|n: int| 0 <= n <= text.len() implies kept(#[trigger] marks.take(n)) == text.take(
        n,
    ) by {
        lemma_folded_keeps_prefix(text, marks, n);
    }
    assert(marks.take(text.len() as int) =~= marks);
    assert(text.take(text.len() as int) =~= text);
}

proof fn lemma_folded_keeps_prefix(text: Seq<char>, marks: Seq<Option<char>>, n: int)
    requires
        marks.len() == text.len(),
        forall|i: int| 0 <= i < text.len() ==> #[trigger] marks[i] == Some(text[i]),
        0 <= n <= text.len(),
    ensures
        kept(marks.take(n)) == text.take(n),
    decreases n,
{
    if n == 0 {
        assert(marks.take(0).len() == 0);
        assert(text.take(0) =~= Seq::empty());
    } else {
        lemma_folded_keeps_prefix(text, marks, n - 1);
        lemma_kept_push(marks, n - 1);
        assert(text.take(n - 1).push(text[n - 1]) =~= text.take(n));
    }
}

/// Spacing a text that is spaced already changes nothing.
pub proof fn law_spacing_is_idempotent(text: Seq<char>)
    ensures
        folded(words(folded(words(text)))) == folded(words(text)),
{
    let r = folded(words(text));
    lemma_spacing(text);
    lemma_collapsed_keeps(r);
    if r.len() > 0 {
        let last = r[r.len() - 1];
        if last == ' ' {
            assert(white_space(last));
        }
    }
    assert(words(r) == r);
    lemma_folded_keeps(r);
}

/// The upper case of an ASCII letter; any other character itself.
pub open spec fn ascii_uppercase(c: char) -> char {
    if 'a' <= c <= 'z' {
        (c as int - 32) as char
    } else {
        c
    }
}

/// Whether lowering leaves every character of the text: an ASCII one, no capital and
/// no `@`.
spec fn settled(text: Seq<char>) -> bool {
    forall|i: int|
        0 <= i < text.len() ==> is_ascii_char(#[trigger] text[i]) && !('A' <= text[i] <= 'Z')
            && text[i] != '@'
}

proof fn lemma_lowered_settled(text: Seq<char>)
    requires
        is_ascii_text(text),
    ensures
        settled(ascii_lowered(text)),
    decreases text.len(),
{
    if text.len() > 0 {
        assert(is_ascii_char(text[text.len() - 1]));
        assert forall|i: int| 0 <= i < text.drop_last().len() implies is_ascii_char(
            #[trigger] text.drop_last()[i],
        ) by {
            assert(is_ascii_char(text[i]));
        }
        lemma_lowered_settled(text.drop_last());
    }
}

proof fn lemma_settled_lowered(text: Seq<char>)
    requires
        settled(text),
    ensures
        ascii_lowered(text) == text,
    decreases text.len(),
{
    if text.len() > 0 {
        assert(text[text.len() - 1] != '@');
        assert forall|i: int| 0 <= i < text.drop_last().len() implies is_ascii_char(
            #[trigger] text.drop_last()[i],
        ) && !('A' <= text.drop_last()[i] <= 'Z') && text.drop_last()[i] != '@' by {
            assert(is_ascii_char(text[i]));
        }
        lemma_settled_lowered(text.drop_last());
    }
    assert(ascii_lowered(text) =~= text);
}

proof fn lemma_collapsed_settled(text: Seq<char>)
    requires
        settled(text),
    ensures
        settled(collapsed(text)),
    decreases text.len(),
{
    if text.len() > 0 {
        assert(is_ascii_char(text[text.len() - 1]));
        assert forall|i: int| 0 <= i < text.drop_last().len() implies is_ascii_char(
            #[trigger] text.drop_last()[i],
        ) && !('A' <= text.drop_last()[i] <= 'Z') && text.drop_last()[i] != '@' by {
            assert(is_ascii_char(text[i]));
        }
        lemma_collapsed_settled(text.drop_last());
    }
}

proof fn lemma_kept_settled(text: Seq<char>, marks: Seq<Option<char>>, n: int)
    requires
        settled(text),
        marks.len() == text.len(),
        forall|i: int|
            0 <= i < text.len() ==> (#[trigger] marks[i] is None || marks[i] == Some(text[i])),
        0 <= n <= text.len(),
    ensures
        settled(kept(marks.take(n))),
    decreases n,
{
    if n == 0 {
        assert(marks.take(0).len() == 0);
    } else {
        lemma_kept_settled(text, marks, n - 1);
        lemma_kept_push(marks, n - 1);
        assert(is_ascii_char(text[n - 1]));
        assert(marks[n - 1] is None || marks[n - 1] == Some(text[n - 1]));
    }
}

proof fn lemma_spacing_settled(text: Seq<char>)
    requires
        settled(text),
    ensures
        settled(folded(words(text))),
{
    lemma_collapsed_settled(text);
    let spaced = words(text);
    assert forall|i: int| 0 <= i < spaced.len() implies is_ascii_char(#[trigger] spaced[i]) && !(
    'A' <= spaced[i] <= 'Z') && spaced[i] != '@' by {
        assert(is_ascii_char(collapsed(text)[i]));
    }
    let marks = Seq::new(
        spaced.len(),
        |i: int|
            if folds_at(spaced, i) {
                None
            } else {
                Some(spaced[i])
            },
    );
    lemma_kept_settled(spaced, marks, spaced.len() as int);
    assert(marks.take(spaced.len() as int) =~= marks);
}

proof fn lemma_uppercase_lowered(text: Seq<char>)
    requires
        is_ascii_text(text),
    ensures
        ascii_lowered(text.map_values(|c: char| ascii_uppercase(c))) == ascii_lowered(text),
    decreases text.len(),
{
    let upper = text.map_values(|c: char| ascii_uppercase(c));
    if text.len() > 0 {
        assert(is_ascii_char(text[text.len() - 1]));
        assert forall|i: int| 0 <= i < text.drop_last().len() implies is_ascii_char(
            #[trigger] text.drop_last()[i],
        ) by {
            assert(is_ascii_char(text[i]));
        }
        lemma_uppercase_lowered(text.drop_last());
        assert(upper.drop_last() =~= text.drop_last().map_values(|c: char| ascii_uppercase(c)));
        assert(upper.last() == ascii_uppercase(text.last()));
    } else {
        assert(upper =~= text);
    }
}

proof fn lemma_mention_lowered(text: Seq<char>)
    ensures
        ascii_lowered(text.filter(|c: char| c != '@')) == ascii_lowered(text),
    decreases text.len(),
{
    reveal(Seq::filter);
    let bare = text.filter(|c: char| c != '@');
    if text.len() > 0 {
        let before = text.drop_last();
        lemma_mention_lowered(before);
        if text.last() != '@' {
            assert(bare == before.filter(|c: char| c != '@').push(text.last()));
            assert(bare.drop_last() =~= before.filter(|c: char| c != '@'));
        }
    }
}

/// The normalized form of an ASCII text is an ASCII text that is its own normalized form,
/// and neither the case of the letters nor an `@` makes a difference.
pub proof fn law_ascii_normal_form(text: Seq<char>)
    requires
        is_ascii_text(text),
    ensures
        is_ascii_text(ascii_normalized(text)),
        ascii_normalized(ascii_normalized(text)) == ascii_normalized(text),
        ascii_normalized(text.map_values(|c: char| ascii_uppercase(c))) == ascii_normalized(text),
        ascii_normalized(text.filter(|c: char| c != '@')) == ascii_normalized(text),
{
    let lower = ascii_lowered(text);
    let r = ascii_normalized(text);
    lemma_lowered_settled(text);
    lemma_spacing_settled(lower);
    lemma_settled_lowered(r);
    law_spacing_is_idempotent(lower);
    lemma_uppercase_lowered(text);
    lemma_mention_lowered(text);
}

/// Two surface forms with one normalized form carry one identifier, as aliases and
/// as concepts.
pub proof fn law_equal_forms_equal_identifiers(a: Seq<char>, b: Seq<char>)
    requires
        normalized(a) == normalized(b),
    ensures
        alias_identifier(a) == alias_identifier(b),
        identifier("concept:"@ + normalized(a)) == identifier("concept:"@ + normalized(b)),
{
}

/// The keys of persons, aliases, concepts and batches are kept apart by their prefixes,
/// whatever the names are.
pub proof fn law_key_spaces_are_apart(a: Seq<char>, b: Seq<char>)
    ensures
        "concept:"@ + a != "alias:"@ + b,
        "concept:"@ + a != "tg_user:"@ + b,
        "alias:"@ + a != "tg_user:"@ + b,
        forall|first: int, last: int|
            #![trigger batch_key(first, last)]
            batch_key(first, last) != "concept:"@ + a && batch_key(first, last) != "alias:"@ + a
                && batch_key(first, last) != "tg_user:"@ + a,
{
    reveal_strlit("concept:");
    reveal_strlit("alias:");
    reveal_strlit("tg_user:");
    reveal_strlit("batch:");
    assert(("concept:"@ + a)[0] == 'c');
    assert(("alias:"@ + a)[0] == 'a');
    assert(("alias:"@ + b)[0] == 'a');
    assert(("tg_user:"@ + a)[0] == 't');
    assert(("tg_user:"@ + b)[0] == 't');
    assert forall|first: int, last: int|
        #![trigger batch_key(first, last)]
        batch_key(first, last) != "concept:"@ + a && batch_key(first, last) != "alias:"@ + a
            && batch_key(first, last) != "tg_user:"@ + a by {
        assert(batch_key(first, last)[0] == 'b');
    }
}

/// Within one prefix, two names give one key only where they are the same.
pub proof fn law_key_determines_name(prefix: Seq<char>, a: Seq<char>, b: Seq<char>)
    ensures
        prefix + a == prefix + b <==> a == b,
{
    if prefix + a == prefix + b {
        assert(a =~= (prefix + a).skip(prefix.len() as int));
        assert(b =~= (prefix + b).skip(prefix.len() as int));
    }
}

/// Two batches have one key only where they have the same first and the same last
/// message.
pub proof fn law_batch_key_determines_range(
    first: int,
    last: int,
    other_first: int,
    other_last: int,
)
    requires
        batch_key(first, last) == batch_key(other_first, other_last),
    ensures
        first == other_first,
        last == other_last,
{
    reveal_strlit("batch:");
    reveal_strlit(":");
    let a = int_text(first);
    let b = int_text(other_first);
    let key = batch_key(first, last);
    let n = a.len() as int;
    let m = b.len() as int;
    lemma_int_text_plain(first);
    lemma_int_text_plain(other_first);
    assert(key.subrange(6, 6 + n) =~= a);
    assert(key[6 + n] == ':');
    assert(key =~= batch_key(other_first, other_last));
    assert(key.subrange(6, 6 + m) =~= b);
    assert(key[6 + m] == ':');
    if n < m {
        assert(b[n] == key[6 + n]);
    }
    if m < n {
        assert(a[m] == key[6 + m]);
    }
    assert(a =~= b);
    assert(int_text(last) =~= key.skip(7 + n));
    assert(int_text(other_last) =~= key.skip(7 + m));
    lemma_int_text_reads_back(first);
    lemma_int_text_reads_back(other_first);
    lemma_int_text_reads_back(last);
    lemma_int_text_reads_back(other_last);
}

/// The ASCII characters are the first 128; the lower case of a capital among them lies 32
/// behind it, and any other one is its own.
pub proof fn law_ascii_characters(c: char, text: Seq<char>)
    ensures
        is_ascii_char(c) <==> (c as int) < 128,
        is_ascii_text(text) <==> forall|i: int|
            0 <= i < text.len() ==> (#[trigger] text[i]) as int <= 127,
        65 <= c as int <= 90 ==> ascii_lowercase(c) as int == c as int + 32,
        !(65 <= c as int <= 90) ==> ascii_lowercase(c) == c,
{
    if forall|i: int| 0 <= i < text.len() ==> (#[trigger] text[i]) as int <= 127 {
        assert forall|i: int| 0 <= i < text.len() implies is_ascii_char(#[trigger] text[i]) by {
            assert(text[i] as int <= 127);
        }
    }
    if is_ascii_text(text) {
        assert forall|i: int| 0 <= i < text.len() implies (#[trigger] text[i]) as int <= 127 by {
            assert(is_ascii_char(text[i]));
        }
    }
}

/// Lowering a text maps each of its characters but `@` to its own lowercase mapping, in
/// order: no other character is lost, and nothing else is added.
pub proof fn law_every_character_is_lowered(text: Seq<char>)
    ensures
        lowered(text) == text.filter(|c: char| c != '@').map_values(
            |c: char| lowercase(c),
        ).flatten(),
    decreases text.len(),
{
    reveal(Seq::filter);
    let bare = text.filter(|c: char| c != '@');
    let pieces = bare.map_values(|c: char| lowercase(c));
    if text.len() == 0 {
        assert(pieces.len() == 0);
        assert(pieces.flatten() =~= Seq::empty());
    } else {
        let before = text.drop_last();
        law_every_character_is_lowered(before);
        if text.last() != '@' {
            let front = before.filter(|c: char| c != '@');
            assert(bare == front.push(text.last()));
            assert(pieces =~= front.map_values(|c: char| lowercase(c)).push(
                lowercase(text.last()),
            ));
            front.map_values(|c: char| lowercase(c)).lemma_flatten_push(lowercase(text.last()));
        }
    }
}

/// Spacing a text keeps every character that is no white space, in order, and adds none.
pub proof fn law_spacing_keeps_the_characters(text: Seq<char>)
    ensures
        folded(words(text)).filter(|c: char| !white_space(c)) == text.filter(
            |c: char| !white_space(c),
        ),
{
    reveal(Seq::filter);
    let spaced = collapsed(text);
    lemma_collapsed_characters(text);
    let marks = Seq::new(
        words(text).len(),
        |i: int|
            if folds_at(words(text), i) {
                None
            } else {
                Some(words(text)[i])
            },
    );
    lemma_folded_characters(words(text), marks, words(text).len() as int);
    assert(marks.take(words(text).len() as int) =~= marks);
    assert(words(text).take(words(text).len() as int) =~= words(text));
}

proof fn lemma_collapsed_characters(text: Seq<char>)
    ensures
        collapsed(text).filter(|c: char| !white_space(c)) == text.filter(
            |c: char| !white_space(c),
        ),
    decreases text.len(),
{
    reveal(Seq::filter);
    if text.len() > 0 {
        lemma_collapsed_characters(text.drop_last());
        let before = collapsed(text.drop_last());
        let after = collapsed(text);
        if after != before {
            assert(after.drop_last() =~= before);
        }
    }
}

proof fn lemma_folded_characters(text: Seq<char>, marks: Seq<Option<char>>, n: int)
    requires
        marks.len() == text.len(),
        forall|i: int|
            0 <= i < text.len() ==> #[trigger] marks[i] == Some(text[i]) || marks[i] is None
                && text[i] == ' ',
        0 <= n <= text.len(),
    ensures
        kept(marks.take(n)).filter(|c: char| !white_space(c)) == text.take(n).filter(
            |c: char| !white_space(c),
        ),
    decreases n,
{
    reveal(Seq::filter);
    if n == 0 {
        assert(marks.take(0).len() == 0);
        assert(text.take(0) =~= Seq::empty());
    } else {
        lemma_folded_characters(text, marks, n - 1);
        lemma_kept_push(marks, n - 1);
        assert(text.take(n).drop_last() =~= text.take(n - 1));
        assert(text.take(n).last() == text[n - 1]);
        let before = kept(marks.take(n - 1));
        let after = kept(marks.take(n));
        assert(marks[n - 1] == Some(text[n - 1]) || marks[n - 1] is None && text[n - 1] == ' ');
        if marks[n - 1] is Some {
            assert(after.drop_last() =~= before);
        }
    }
}

/// Normalizing keeps every character but `@` and white space: those of the normalized
/// text are the lowercase mappings of those of the text in normalization form KC.
pub proof fn law_normalizing_keeps_the_characters(text: Seq<char>)
    ensures
        normalized(text).filter(|c: char| !white_space(c)) == nfkc_text(text).filter(
            |c: char| c != '@',
        ).map_values(|c: char| lowercase(c)).flatten().filter(|c: char| !white_space(c)),
{
    law_every_character_is_lowered(nfkc_text(text));
    law_spacing_keeps_the_characters(lowered(nfkc_text(text)));
}

/// A text in normalization form KC without `@`, whose characters are their own lowercase
/// mappings, with single spaces between its words and none between a letter and a digit,
/// is its own normalized form. So two such texts share an identifier only where they are
/// the same.
pub proof fn law_normal_forms_stay(text: Seq<char>)
    requires
        nfkc_text(text) == text,
        forall|i: int|
            0 <= i < text.len() ==> #[trigger] text[i] != '@' && lowercase(text[i])
                == seq![text[i]],
        single_spaced(text),
        no_split_boundary(text),
    ensures
        normalized(text) == text,
{
    lemma_own_lowercase(text);
    lemma_collapsed_keeps(text);
    if text.len() > 0 && text.last() == ' ' {
        assert(white_space(text[text.len() - 1]));
    }
    lemma_folded_keeps(text);
}

proof fn lemma_own_lowercase(text: Seq<char>)
    requires
        forall|i: int|
            0 <= i < text.len() ==> #[trigger] text[i] != '@' && lowercase(text[i])
                == seq![text[i]],
    ensures
        lowered(text) == text,
    decreases text.len(),
{
    if text.len() > 0 {
        let before = text.drop_last();
        assert forall|i: int| 0 <= i < before.len() implies #[trigger] before[i] != '@'
            && lowercase(before[i]) == seq![before[i]] by {
            assert(before[i] == text[i]);
        }
        lemma_own_lowercase(before);
        assert(text[text.len() - 1] != '@');
        assert(lowered(text) =~= text);
    }
}

proof fn lemma_collapsed_joined(a: Seq<char>, b: Seq<char>)
    ensures
        collapsed(a + b) == ({
            let ca = collapsed(a);
            if ca.len() == 0 || ca.last() == ' ' || b.len() == 0 || !white_space(b[0]) {
                ca + collapsed(b)
            } else {
                ca.push(' ') + collapsed(b)
            }
        }),
    decreases b.len(),
{
    let ca = collapsed(a);
    lemma_collapsed_spaced(a);
    if b.len() == 0 {
        assert(a + b =~= a);
        assert(ca + collapsed(b) =~= ca);
    } else {
        let front = b.drop_last();
        assert((a + b).drop_last() =~= a + front);
        assert((a + b).last() == b.last());
        lemma_collapsed_joined(a, front);
        lemma_collapsed_spaced(front);
        let cf = collapsed(front);
        if front.len() > 0 {
            assert(front[0] == b[0]);
        }
        if cf.len() == 0 {
            lemma_collapsed_empty(front);
        }
        if ca.len() > 0 && white_space(ca[ca.len() - 1]) {
            assert(ca.last() == ' ');
        }
        assert(collapsed(a + b) =~= if ca.len() == 0 || ca.last() == ' ' || b.len() == 0
            || !white_space(b[0]) {
            ca + collapsed(b)
        } else {
            ca.push(' ') + collapsed(b)
        });
    }
}

proof fn lemma_collapsed_empty(text: Seq<char>)
    requires
        collapsed(text).len() == 0,
    ensures
        forall|i: int| 0 <= i < text.len() ==> white_space(#[trigger] text[i]),
    decreases text.len(),
{
    if text.len() > 0 {
        lemma_collapsed_empty(text.drop_last());
        assert forall|i: int| 0 <= i < text.len() implies white_space(#[trigger] text[i]) by {
            if i < text.len() - 1 {
                assert(text.drop_last()[i] == text[i]);
            }
        }
    }
}

/// White space between two texts becomes one space between their words; beside a text
/// without words it becomes nothing. A text without white space is one word as it is.
pub proof fn law_words_are_joined(a: Seq<char>, space: char, b: Seq<char>)
    requires
        white_space(space),
    ensures
        words(a + seq![space] + b) == if words(a).len() == 0 {
            words(b)
        } else if words(b).len() == 0 {
            words(a)
        } else {
            words(a) + seq![' '] + words(b)
        },
        (forall|i: int| 0 <= i < a.len() ==> !white_space(#[trigger] a[i])) ==> words(a) == a,
{
    let left = a + seq![space];
    assert(left.drop_last() =~= a);
    lemma_collapsed_spaced(a);
    lemma_collapsed_spaced(b);
    lemma_collapsed_joined(left, b);
    let ca = collapsed(a);
    let cb = collapsed(b);
    let cl = collapsed(left);
    if ca.len() > 0 {
        assert(!white_space(ca[0]));
    }
    if cb.len() > 0 {
        assert(!white_space(cb[0]));
    }
    assert(words(a).len() == 0 <==> ca.len() == 0);
    assert(words(b).len() == 0 <==> cb.len() == 0);
    assert(ca.len() > 0 ==> cl =~= words(a) + seq![' ']);
    assert(collapsed(left + b) == cl + cb);
    let expected = if words(a).len() == 0 {
        words(b)
    } else if words(b).len() == 0 {
        words(a)
    } else {
        words(a) + seq![' '] + words(b)
    };
    assert(words(left + b) =~= expected);
    if forall|i: int| 0 <= i < a.len() ==> !white_space(#[trigger] a[i]) {
        lemma_collapsed_keeps(a);
        if a.len() > 0 && a.last() == ' ' {
            assert(white_space(a[a.len() - 1]));
        }
    }
}

/// A space between two texts goes where an ASCII letter and an ASCII digit meet, in
/// either order, and stays elsewhere. A text without spaces stays as it is.
pub proof fn law_spaces_are_folded(a: Seq<char>, b: Seq<char>)
    requires
        a.len() > 0,
        b.len() > 0,
    ensures
        ({
            let x = a.last();
            let y = b[0];
            let x_letter = 'a' <= x <= 'z' || 'A' <= x <= 'Z';
            let y_letter = 'a' <= y <= 'z' || 'A' <= y <= 'Z';
            let x_digit = '0' <= x <= '9';
            let y_digit = '0' <= y <= '9';
            folded(a + seq![' '] + b) == if x_letter && y_digit || x_digit && y_letter {
                folded(a) + folded(b)
            } else {
                folded(a) + seq![' '] + folded(b)
            }
        }),
        (forall|i: int| 0 <= i < a.len() ==> #[trigger] a[i] != ' ') ==> folded(a) == a,
{
    let text = a + seq![' '] + b;
    let marks = fold_marks(text);
    let n = a.len() as int;
    assert(marks.take(n) =~= fold_marks(a)) by {
        assert forall|i: int| 0 <= i < n implies marks.take(n)[i] == fold_marks(a)[i] by {
            assert(text[i] == a[i]);
            if i == n - 1 {
                assert(text[i + 1] == ' ');
            } else {
                assert(text[i + 1] == a[i + 1]);
            }
        }
    }
    assert(marks.skip(n + 1) =~= fold_marks(b)) by {
        assert forall|i: int| 0 <= i < b.len() implies marks.skip(n + 1)[i] == fold_marks(
            b,
        )[i] by {
            assert(text[n + 1 + i] == b[i]);
            if i == 0 {
                assert(text[n] == ' ');
            } else {
                assert(text[n + i] == b[i - 1]);
            }
            if i < b.len() - 1 {
                assert(text[n + 2 + i] == b[i + 1]);
            }
        }
    }
    lemma_kept_push(marks, n);
    lemma_kept_joined(marks.take(n + 1), marks.skip(n + 1));
    assert(marks.take(n + 1) + marks.skip(n + 1) =~= marks);
    assert(text[n - 1] == a.last());
    assert(text[n] == ' ');
    assert(text[n + 1] == b[0]);
    assert(folded(text) == kept(marks));
    assert(folded(a) == kept(fold_marks(a)));
    assert(folded(b) == kept(fold_marks(b)));
    assert(folded(a) + seq![' '] =~= folded(a).push(' '));
    if forall|i: int| 0 <= i < a.len() ==> #[trigger] a[i] != ' ' {
        lemma_folded_keeps(a);
    }
}

spec fn fold_marks(text: Seq<char>) -> Seq<Option<char>> {
    Seq::new(
        text.len(),
        |i: int|
            if folds_at(text, i) {
                None
            } else {
                Some(text[i])
            },
    )
}

/// Every key is hashed in the one namespace, which never changes.
pub proof fn law_one_namespace(key: Seq<char>)
    ensures
        identifier(key) == uuid_v5_text(0x9068d01a_4a83_4ef0_971b_751eafe829b0, key),
        alias_identifier(key) == uuid_v5_text(
            0x9068d01a_4a83_4ef0_971b_751eafe829b0,
            "alias:"@ + normalized(key),
        ),
{
}

/// The key of a batch names its first message before its last one.
pub proof fn law_batch_key_parts(first: int, last: int)
    ensures
        batch_key(first, last) == "batch:"@ + int_text(first) + ":"@ + int_text(last),
        identifier(batch_key(first, last)) == uuid_v5_text(
            0x9068d01a_4a83_4ef0_971b_751eafe829b0,
            "batch:"@ + int_text(first) + ":"@ + int_text(last),
        ),
{
}

} // verus!
