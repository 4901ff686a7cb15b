//! The Java symbol extractor.
use vstd::prelude::*;

use crate::indexer::treesitter::{extract_with, ts_symbols};
use crate::symbol::{symbol_views, Symbol};
use crate::syntax::Grammar;

verus! {

/// The Java symbols of a source, in the order the tree walk finds them;
/// none when it does not parse.
pub fn extract_symbols(source: &str) -> (r: Vec<Symbol>)
    ensures
        symbol_views(r@) == ts_symbols(Grammar::Java, source@),
{
    extract_with(Grammar::Java, source)
}

} // verus!
