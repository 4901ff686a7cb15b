//! `list_files`: the indexed files, by path and language.
use vstd::prelude::*;

use crate::text::{chars_of, has_char, has_char_exec, string_from_chars};

verus! {

/// Input of `list_files`.
pub struct ListFilesInput {
    /// Path substring or glob to filter by (e.g. "frameworks/base", "*.java")
    pub path_filter: Option<String>,
    /// Filter by language: java, kotlin, c, cpp
    pub language: Option<String>,
    /// Maximum results (default: 200)
    pub limit: Option<i64>,
}

/// One indexed file.
pub struct FileEntry {
    pub path: String,
    pub language: String,
}

/// The text with each `*` replaced by `%`.
pub open spec fn star_to_percent(s: Seq<char>) -> Seq<char> {
    s.map_values(|c: char| if c == '*' { '%' } else { c })
}

/// The SQL `LIKE` pattern of a path filter: a glob has its `*` turned into
/// `%`; any other filter matches as a substring.
pub open spec fn like_pattern_of(filter: Seq<char>) -> Seq<char> {
    if has_char(filter, '*') {
        star_to_percent(filter)
    } else {
        seq!['%'] + filter + seq!['%']
    }
}

/// The SQL `LIKE` pattern of a path filter.
pub fn path_pattern(filter: &str) -> (r: String)
    ensures
        r@ == like_pattern_of(filter@),
{
    let f = chars_of(filter);
    let mut out: Vec<char> = Vec::new();
    if has_char_exec(&f, '*') {
        let mut i: usize = 0;
        while i < f.len()
            invariant
                i <= f@.len(),
                out@ == star_to_percent(f@.take(i as int)),
            decreases f@.len() - i,
        {
            let c = f[i];
            out.push(if c == '*' { '%' } else { c });
            i = i + 1;
            assert(out@ =~= star_to_percent(f@.take(i as int)));
        }
        assert(f@.take(f@.len() as int) =~= f@);
    } else {
        out.push('%');
        crate::text::extend_chars(&mut out, &f);
        out.push('%');
        assert(out@ =~= seq!['%'] + f@ + seq!['%']);
    }
    string_from_chars(&out)
}

/// The listing limit: 200 by default, between 0 and 2000.
pub fn list_limit(limit: Option<i64>) -> (r: i64)
    ensures
        r == match limit {
            Some(l) => if l < 0 {
                0
            } else if l < 2000 {
                l
            } else {
                2000
            },
            None => 200,
        },
{
    match limit {
        Some(l) => if l < 0 {
            0
        } else if l < 2000 {
            l
        } else {
            2000
        },
        None => 200,
    }
}

} // verus!
