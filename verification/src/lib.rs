//! The memory, persona, store and vision layers of a group-chat companion.

pub mod chat_id;
pub mod memory;
pub mod persona;
pub mod sequence;
pub mod store;
pub mod text;
pub mod text_laws;
pub mod timestamp;
pub mod vision;
