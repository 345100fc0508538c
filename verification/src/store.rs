//! The relational store of a group: statements, rows and rules.

pub mod dead_letters;
pub mod edge_texts;
pub mod embedding_queue;
pub mod embeddings;
pub mod error;
pub mod groups;
pub mod log;
pub mod log_laws;
pub mod media;
pub mod memories;
pub mod merge_audit;
pub mod queue_laws;
pub mod reactions;
pub mod record_laws;
pub mod related_pairs;
pub mod schema;
pub mod session_keys;
pub mod state;
pub mod statement;
pub mod table_laws;
pub mod tables;
