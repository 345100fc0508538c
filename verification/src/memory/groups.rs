//! The chat identifiers of the memory layer.

use crate::chat_id::{is_valid_chat_id, names_directory};
use crate::memory::types::{MemoryError, Result};
use vstd::prelude::*;

verus! {

/// Refuses a chat identifier that could leave the directory of its group.
pub fn validate_chat_id(chat_id: &str) -> (r: Result<()>)
    ensures
        match r {
            Ok(()) => is_valid_chat_id(chat_id@),
            Err(MemoryError::InvalidChatId(refused)) => !is_valid_chat_id(chat_id@) && refused@
                == chat_id@,
            Err(_) => false,
        },
{
    if names_directory(chat_id) {
        Ok(())
    } else {
        Err(MemoryError::InvalidChatId(chat_id.to_owned()))
    }
}

} // verus!
