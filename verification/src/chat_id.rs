//! Chat identifiers as directory names.

use vstd::prelude::*;

verus! {

/// Whether the chat identifier can name a directory: it is not empty and holds no
/// separator, no NUL and no parent reference.
pub open spec fn is_valid_chat_id(chat_id: Seq<char>) -> bool {
    &&& chat_id.len() > 0
    &&& !chat_id.contains('/')
    &&& !chat_id.contains('\\')
    &&& !chat_id.contains('\0')
    &&& forall|i: int|
        0 <= i < chat_id.len() - 1 ==> !(#[trigger] chat_id[i] == '.' && chat_id[i + 1] == '.')
}

/// Whether the chat identifier can name a directory.
pub fn names_directory(chat_id: &str) -> (r: bool)
    ensures
        r == is_valid_chat_id(chat_id@),
{
    let chars = crate::text::chars_of(chat_id);
    if chars.len() == 0 {
        return false;
    }
    let mut i: usize = 0;
    while i < chars.len()
        invariant
            i <= chars@.len(),
            chars@ == chat_id@,
            forall|k: int|
                0 <= k < i ==> #[trigger] chars@[k] != '/' && chars@[k] != '\\' && chars@[k] != '\0',
            forall|k: int|
                0 <= k < i && k < chars@.len() - 1 ==> !(#[trigger] chars@[k] == '.' && chars@[k
                    + 1] == '.'),
        decreases chars@.len() - i,
    {
        let c = chars[i];
        if c == '/' || c == '\\' || c == '\0' {
            assert(chat_id@[i as int] == c);
            return false;
        }
        if c == '.' && i < chars.len() - 1 && chars[i + 1] == '.' {
            assert(chat_id@[i as int] == '.');
            return false;
        }
        i += 1;
    }
    true
}

/// A chat identifier with a separator, a NUL or two dots in a row anywhere is refused, and
/// so is an empty one.
pub proof fn law_paths_are_refused(a: Seq<char>, b: Seq<char>)
    ensures
        !is_valid_chat_id(Seq::empty()),
        !is_valid_chat_id(a + seq!['/'] + b),
        !is_valid_chat_id(a + seq!['\\'] + b),
        !is_valid_chat_id(a + seq!['\0'] + b),
        !is_valid_chat_id(a + seq!['.', '.'] + b),
{
    let n = a.len() as int;
    assert((a + seq!['/'] + b)[n] == '/');
    assert((a + seq!['\\'] + b)[n] == '\\');
    assert((a + seq!['\0'] + b)[n] == '\0');
    let dots = a + seq!['.', '.'] + b;
    assert(dots[n] == '.' && dots[n + 1] == '.');
}

/// Any other chat identifier is accepted.
pub proof fn law_names_are_accepted(chat_id: Seq<char>)
    requires
        chat_id.len() > 0,
        forall|i: int|
            0 <= i < chat_id.len() ==> #[trigger] chat_id[i] != '/' && chat_id[i] != '\\'
                && chat_id[i] != '\0' && (i + 1 < chat_id.len() && chat_id[i] == '.' ==> chat_id[i
                + 1] != '.'),
    ensures
        is_valid_chat_id(chat_id),
{
}

} // verus!
