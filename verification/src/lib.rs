//! Planning and execution logic of a full text search index inside a Postgres server.

pub mod attname;
pub mod catalog;
pub mod item_pointer;
pub mod node;
pub mod numeric;
pub mod numeric_laws;
pub mod numeric_run_laws;
pub mod numeric_step_laws;
pub mod placeholder_laws;
pub mod placeholders;
pub mod projection_laws;
pub mod projections;
pub mod scan;
pub mod scan_laws;
pub mod scan_run_laws;
pub mod scan_step_laws;
pub mod search;
pub mod search_laws;
pub mod tree_laws;
