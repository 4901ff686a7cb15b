//! `find_references`: the lines that use a symbol.
use vstd::prelude::*;

use crate::text::{chars_of, string_from_chars};
use crate::tools::search_text::{escape_fts5_trigram, fts_phrase};

verus! {

/// Input of `find_references`.
pub struct FindReferencesInput {
    /// Symbol name to find references to
    pub symbol: String,
    /// Filter by language (optional)
    pub language: Option<String>,
    /// Maximum results (default: 100)
    pub limit: Option<i64>,
}

/// One line that references the symbol.
pub struct ReferenceResult {
    pub file: String,
    pub line_no: i64,
    pub content: String,
    pub language: String,
}

/// The lookups for a symbol's references: the FTS5 phrase (trigram index),
/// the `LIKE` pattern used while the index is rebuilt, and the limit.
pub struct ReferenceSearch {
    pub fts_query: String,
    pub like_pattern: String,
    pub limit: i64,
}

/// The reference limit: 100 by default, between 0 and 500.
pub open spec fn reference_limit(limit: Option<i64>) -> i64 {
    match limit {
        Some(l) => if l < 0 {
            0
        } else if l < 500 {
            l
        } else {
            500
        },
        None => 100,
    }
}

/// The lookups for a symbol's references.
pub fn plan_references(input: &FindReferencesInput) -> (r: ReferenceSearch)
    ensures
        r.fts_query@ == fts_phrase(input.symbol@),
        r.like_pattern@ == seq!['%'] + input.symbol@ + seq!['%'],
        r.limit == reference_limit(input.limit),
{
    let mut like: Vec<char> = Vec::new();
    like.push('%');
    crate::text::extend_chars(&mut like, &chars_of(input.symbol.as_str()));
    like.push('%');
    assert(like@ =~= seq!['%'] + input.symbol@ + seq!['%']);
    ReferenceSearch {
        fts_query: escape_fts5_trigram(input.symbol.as_str()),
        like_pattern: string_from_chars(&like),
        limit: match input.limit {
            Some(l) => if l < 0 {
                0
            } else if l < 500 {
                l
            } else {
                500
            },
            None => 100,
        },
    }
}

/// The 0-based position of an anchor found by text search: the 1-based line
/// and column less one each (not below `i64::MIN`), as the language server's
/// `u32` line and column.
pub fn anchor_lsp_position(line_no: i64, col_1based: i64) -> (r: (u32, u32))
    ensures
        r.0 == (if line_no == i64::MIN { line_no as int } else { line_no - 1 }) as u32,
        r.1 == (if col_1based == i64::MIN { col_1based as int } else { col_1based - 1 }) as u32,
{
    let l = if line_no == i64::MIN { line_no } else { line_no - 1 };
    let c = if col_1based == i64::MIN { col_1based } else { col_1based - 1 };
    (l as u32, c as u32)
}

/// The 1-based line number of a 0-based line a language server reports.
pub fn reference_line_no(lsp_line: u32) -> (r: i64)
    ensures
        r == lsp_line + 1,
{
    lsp_line as i64 + 1
}

/// At most 500 references are returned: the limit asked for when it is
/// between 0 and 500, 500 above that, none below 0, and 100 by default.
pub proof fn law_reference_limit(limit: Option<i64>)
    ensures
        0 <= reference_limit(limit) <= 500,
        limit is None ==> reference_limit(limit) == 100,
        forall|l: i64| limit == Some(l) && 0 <= l <= 500 ==> reference_limit(limit) == l,
        forall|l: i64| limit == Some(l) && l > 500 ==> reference_limit(limit) == 500,
        forall|l: i64| limit == Some(l) && l < 0 ==> reference_limit(limit) == 0,
{
}

} // verus!
