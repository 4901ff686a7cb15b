use vstd::prelude::*;

pub mod cli;
pub mod db;
pub mod indexer;
pub mod lsp;
pub mod paths;
pub mod pattern;
pub mod symbol;
pub mod syntax;
pub mod text;
pub mod tools;

verus! {
} // verus!
