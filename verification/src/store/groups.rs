//! The open groups of a store.

use crate::chat_id::{is_valid_chat_id, names_directory};
use crate::store::error::{Result, StoreError};
use crate::text::same_text;
use vstd::prelude::*;

verus! {

/// Refuses a chat identifier that could leave the directory of its group.
pub fn validate_chat_id(chat_id: &str) -> (r: Result<()>)
    ensures
        match r {
            Ok(()) => is_valid_chat_id(chat_id@),
            Err(StoreError::InvalidChatId(refused)) => !is_valid_chat_id(chat_id@) && refused@
                == chat_id@,
            Err(_) => false,
        },
{
    if names_directory(chat_id) {
        Ok(())
    } else {
        Err(StoreError::InvalidChatId(chat_id.to_owned()))
    }
}

/// Which groups of a store are open. Each group has a database of its own.
#[derive(Debug)]
pub struct OpenGroups {
    chats: Vec<String>,
}

impl View for OpenGroups {
    type V = Set<Seq<char>>;

    closed spec fn view(&self) -> Set<Seq<char>> {
        Set::new(|chat: Seq<char>| exists|i: int|
            0 <= i < self.chats@.len() && (#[trigger] self.chats@[i])@ == chat)
    }
}

impl OpenGroups {
    #[verifier::type_invariant]
    spec fn distinct(self) -> bool {
        forall|i: int, j: int|
            0 <= i < j < self.chats@.len() ==> (#[trigger] self.chats@[i])@ != (
            #[trigger] self.chats@[j])@
    }

    /// No open group.
    pub fn new() -> (r: OpenGroups)
        ensures
            r@ == Set::<Seq<char>>::empty(),
    {
        let r = OpenGroups { chats: Vec::new() };
        assert(r@ =~= Set::<Seq<char>>::empty());
        r
    }

    /// Whether the group is open.
    pub fn is_open(&self, chat_id: &str) -> (r: bool)
        ensures
            r == self@.contains(chat_id@),
    {
        let mut i: usize = 0;
        while i < self.chats.len()
            invariant
                i <= self.chats@.len(),
                forall|k: int| 0 <= k < i ==> (#[trigger] self.chats@[k])@ != chat_id@,
            decreases self.chats@.len() - i,
        {
            if same_text(self.chats[i].as_str(), chat_id) {
                assert(self.chats@[i as int]@ == chat_id@);
                return true;
            }
            i += 1;
        }
        false
    }

    /// Opens a group, under its validated identifier. Opening an open group again
    /// changes nothing, and a refused identifier opens nothing.
    pub fn open_group(self, chat_id: &str) -> (r: (OpenGroups, Result<()>))
        ensures
            match r.1 {
                Ok(()) => is_valid_chat_id(chat_id@) && r.0@ == self@.insert(chat_id@),
                Err(StoreError::InvalidChatId(refused)) => !is_valid_chat_id(chat_id@) && refused@
                    == chat_id@ && r.0@ == self@,
                Err(_) => false,
            },
    {
        match validate_chat_id(chat_id) {
            Ok(()) => {
                if self.is_open(chat_id) {
                    assert(self@.insert(chat_id@) =~= self@);
                    (self, Ok(()))
                } else {
                    proof {
                        use_type_invariant(&self);
                    }
                    let ghost before = self;
                    let mut chats = self.chats;
                    let chat = chat_id.to_owned();
                    let ghost old_chats = chats@;
                    assert forall|i: int| 0 <= i < old_chats.len() implies (#[trigger] old_chats[i])@
                        != chat@ by {
                        assert(before@.contains(old_chats[i]@));
                    }
                    chats.push(chat);
                    let r = OpenGroups { chats };
                    assert forall|c: Seq<char>| #[trigger] r@.contains(c) <==> before@.insert(
                        chat_id@,
                    ).contains(c) by {
                        if before@.contains(c) {
                            let k = choose|k: int|
                                0 <= k < old_chats.len() && (#[trigger] old_chats[k])@ == c;
                            assert(r.chats@[k]@ == c);
                        }
                        if c == chat_id@ {
                            assert(r.chats@[old_chats.len() as int]@ == c);
                        }
                    }
                    assert(r@ =~= before@.insert(chat_id@));
                    (r, Ok(()))
                }
            },
            Err(error) => (self, Err(error)),
        }
    }

    /// The group that helpers without a chat identifier work on: the only open one.
    pub fn single_group(&self) -> (r: Result<String>)
        ensures
            match r {
                Ok(chat) => self@ == set![chat@] && self@.finite() && self@.len() == 1,
                Err(StoreError::AmbiguousGroup(open)) => self@.finite() && self@.len() == open
                    && open != 1,
                Err(_) => false,
            },
    {
        proof {
            use_type_invariant(self);
        }
        let open: usize = self.chats.len();
        if open == 1 {
            let chat = self.chats[0].clone();
            assert(self.chats@[0]@ == chat@);
            assert(self@ =~= set![chat@]);
            Ok(chat)
        } else {
            proof {
                lemma_distinct_count(self.chats@);
                assert(self@ =~= names(self.chats@));
            }
            Err(StoreError::AmbiguousGroup(open))
        }
    }
}

spec fn names(chats: Seq<String>) -> Set<Seq<char>> {
    Set::new(|chat: Seq<char>| exists|i: int|
        0 <= i < chats.len() && (#[trigger] chats[i])@ == chat)
}

proof fn lemma_distinct_count(chats: Seq<String>)
    requires
        forall|i: int, j: int|
            0 <= i < j < chats.len() ==> (#[trigger] chats[i])@ != (#[trigger] chats[j])@,
    ensures
        names(chats).finite(),
        names(chats).len() == chats.len(),
    decreases chats.len(),
{
    if chats.len() == 0 {
        assert(names(chats) =~= Set::<Seq<char>>::empty());
    } else {
        let shorter = chats.drop_last();
        let last = chats.last()@;
        assert forall|i: int, j: int| 0 <= i < j < shorter.len() implies (#[trigger] shorter[i])@
            != (#[trigger] shorter[j])@ by {
            assert(chats[i]@ != chats[j]@);
        }
        lemma_distinct_count(shorter);
        assert(!names(shorter).contains(last)) by {
            if names(shorter).contains(last) {
                let i = choose|i: int| 0 <= i < shorter.len() && (#[trigger] shorter[i])@ == last;
                assert(chats[i]@ == chats[chats.len() - 1]@);
            }
        }
        assert forall|c: Seq<char>| #[trigger] names(chats).contains(c) <==> names(shorter).insert(
            last,
        ).contains(c) by {
            if names(shorter).contains(c) {
                let i = choose|i: int| 0 <= i < shorter.len() && (#[trigger] shorter[i])@ == c;
                assert(chats[i]@ == c);
            }
            if c == last {
                assert(chats[chats.len() - 1]@ == c);
            }
            if names(chats).contains(c) && c != last {
                let i = choose|i: int| 0 <= i < chats.len() && (#[trigger] chats[i])@ == c;
                assert(shorter[i]@ == c);
            }
        }
        assert(names(chats) =~= names(shorter).insert(last));
    }
}

} // verus!
