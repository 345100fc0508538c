//! The graph memory of one chat group: its data, its write plans and its reads.

pub mod batch;
pub mod batch_laws;
pub mod cypher;
pub mod edge_id;
pub mod edge_id_laws;
pub mod facts;
pub mod graph;
pub mod groups;
pub mod identifiers;
pub mod json;
pub mod manual;
pub mod merge;
pub mod merge_course;
pub mod merge_laws;
pub mod recall;
pub mod recall_laws;
pub mod request_laws;
pub mod row_laws;
pub mod rows;
pub mod single_value;
pub mod single_value_laws;
pub mod statement_laws;
pub mod step_laws;
pub mod transaction;
pub mod types;
pub mod value;
pub mod write_laws;
