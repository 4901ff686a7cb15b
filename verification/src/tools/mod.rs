//! The query tools: their inputs and results, and the computation around
//! their database queries.
pub mod search_symbols;
pub mod search_text;
pub mod go_to_definition;
pub mod find_references;
pub mod list_files;
pub mod read_file;
pub mod index_status;
pub mod ast_query;
