//! `search_symbols`: symbol lookup by name.
use vstd::prelude::*;

use crate::text::{chars_of, has_char, has_char_exec, string_from_chars, trim, trim_chars, utf8_len};
use crate::tools::search_text::{escape_fts5_trigram, fts_phrase, strip_glob_wildcards, without_wildcards};

verus! {

/// Input of `search_symbols`.
pub struct SearchSymbolsInput {
    /// Symbol name or glob pattern (e.g. "Activity", "on*", "Binder*")
    pub query: String,
    /// Filter by language: java, kotlin, c, cpp (optional)
    pub language: Option<String>,
    /// Filter by kind: class, method, function, field, property, etc. (optional)
    pub kind: Option<String>,
    /// Maximum results to return (default: 50)
    pub limit: Option<i64>,
}

/// One symbol found by `search_symbols`.
pub struct SymbolResult {
    pub name: String,
    pub kind: String,
    pub container: String,
    pub file: String,
    pub language: String,
    pub start_line: i64,
    pub start_col: i64,
    pub signature: String,
}

/// The text `str::to_lowercase` gives: the Unicode lower-case mapping of
/// each char (with the final-sigma rule).
pub uninterp spec fn unicode_lowercase(s: Seq<char>) -> Seq<char>;

/// `str::to_lowercase`.
#[verifier::external_body]
pub(crate) fn to_lowercase(s: &str) -> (r: String)
    ensures
        r@ == unicode_lowercase(s@),
{
    s.to_lowercase()
}

/// The result limit: 50 by default, clamped to 1..=500.
pub open spec fn limit_of(limit: Option<i64>) -> i64 {
    let l = match limit {
        Some(l) => l,
        None => 50,
    };
    if l < 1 {
        1
    } else if l > 500 {
        500
    } else {
        l
    }
}

/// The result limit: 50 by default, clamped to 1..=500.
pub fn sanitize_limit(limit: Option<i64>) -> (r: i64)
    ensures
        r == limit_of(limit),
        1 <= r <= 500,
{
    let l = match limit {
        Some(l) => l,
        None => 50,
    };
    if l < 1 {
        1
    } else if l > 500 {
        500
    } else {
        l
    }
}

/// An optional filter: absent when missing or blank, else trimmed.
pub open spec fn filter_of(value: Option<Seq<char>>) -> Option<Seq<char>> {
    match value {
        Some(v) => if trim(v).len() == 0 {
            None
        } else {
            Some(trim(v))
        },
        None => None,
    }
}

/// An optional filter: absent when missing or blank, else trimmed.
pub fn normalize_optional_filter(value: Option<String>) -> (r: Option<String>)
    ensures
        r.deep_view() == filter_of(value.deep_view()),
{
    match value {
        Some(v) => {
            let t = trim_chars(&chars_of(v.as_str()));
            if t.len() == 0 {
                None
            } else {
                Some(string_from_chars(&t))
            }
        },
        None => None,
    }
}

/// The SQL `LIKE` text for one char of a glob: `*` and `?` become `%` and
/// `_`; `%`, `_` and `\` are escaped with `\`.
pub open spec fn like_char(c: char) -> Seq<char> {
    if c == '*' {
        seq!['%']
    } else if c == '?' {
        seq!['_']
    } else if c == '%' || c == '_' || c == '\\' {
        seq!['\\', c]
    } else {
        seq![c]
    }
}

/// A glob as an SQL `LIKE` pattern (escape char `\`).
pub open spec fn glob_like(s: Seq<char>) -> Seq<char>
    decreases s.len(),
{
    if s.len() == 0 {
        seq![]
    } else {
        glob_like(s.drop_last()) + like_char(s.last())
    }
}

/// The name pattern of a query that is a glob (it holds `*` or `?` once
/// trimmed): the `LIKE` pattern that names must match; none otherwise.
pub open spec fn name_glob(query: Seq<char>) -> Option<Seq<char>> {
    let t = trim(query);
    if has_char(t, '*') || has_char(t, '?') {
        Some(glob_like(t))
    } else {
        None
    }
}

/// The `LIKE` pattern that names are matched by when the index is not used:
/// the glob pattern for a glob, else any name that holds the trimmed query.
pub open spec fn name_like(query: Seq<char>) -> Seq<char> {
    match name_glob(query) {
        Some(p) => p,
        None => contains_like(trim(query)),
    }
}

/// The `LIKE` pattern (escape char `\\`) of the texts that hold `s`.
pub open spec fn contains_like(s: Seq<char>) -> Seq<char> {
    seq!['%'] + glob_like(s) + seq!['%']
}

/// The `LIKE` pattern (escape char `\\`) of the texts that hold `s`.
pub fn contains_like_exec(s: &[char]) -> (r: String)
    ensures
        r@ == contains_like(s@),
{
    let mut out: Vec<char> = Vec::new();
    out.push('%');
    crate::text::extend_chars(&mut out, &glob_like_exec(s));
    out.push('%');
    assert(out@ =~= contains_like(s@));
    string_from_chars(&out)
}

fn glob_like_exec(t: &[char]) -> (out: Vec<char>)
    ensures
        out@ == glob_like(t@),
{
    let mut out: Vec<char> = Vec::new();
    let mut i: usize = 0;
    while i < t.len()
        invariant
            i <= t@.len(),
            out@ == glob_like(t@.take(i as int)),
        decreases t@.len() - i,
    {
        let c = t[i];
        assert(t@.take(i + 1).drop_last() =~= t@.take(i as int));
        assert(t@.take(i + 1).last() == c);
        if c == '*' {
            out.push('%');
        } else if c == '?' {
            out.push('_');
        } else if c == '%' || c == '_' || c == '\\' {
            out.push('\\');
            out.push(c);
        } else {
            out.push(c);
        }
        i = i + 1;
        assert(out@ =~= glob_like(t@.take(i as int)));
    }
    assert(t@.take(t@.len() as int) =~= t@);
    out
}

fn name_glob_exec(query: &str) -> (r: Option<String>)
    ensures
        r.deep_view() == name_glob(query@),
{
    let t = trim_chars(&chars_of(query));
    if !(has_char_exec(&t, '*') || has_char_exec(&t, '?')) {
        return None;
    }
    Some(string_from_chars(&glob_like_exec(&t)))
}

fn name_like_exec(query: &str) -> (r: String)
    ensures
        r@ == name_like(query@),
{
    match name_glob_exec(query) {
        Some(p) => p,
        None => contains_like_exec(&trim_chars(&chars_of(query))),
    }
}

/// The lookup that `search_symbols` runs: the FTS5 phrase for the name, the
/// `LIKE` pattern names must match when the query is a glob, the
/// lower-cased language and kind filters, and the limit.
pub struct SymbolSearch {
    pub fts_query: String,
    /// Whether candidates come from the trigram index; not for a glob whose
    /// literal text is under 3 bytes, which the index cannot match.
    pub use_fts: bool,
    pub name_pattern: Option<String>,
    /// The `LIKE` pattern for names when the index is not used or finds
    /// nothing.
    pub like_pattern: String,
    pub language: Option<String>,
    pub kind: Option<String>,
    pub limit: i64,
}

/// The lower-cased form of an optional filter.
pub open spec fn lowered(v: Option<Seq<char>>) -> Option<Seq<char>> {
    match v {
        Some(s) => Some(unicode_lowercase(s)),
        None => None,
    }
}

fn lower_filter(value: Option<String>) -> (r: Option<String>)
    ensures
        r.deep_view() == lowered(value.deep_view()),
{
    match value {
        Some(v) => Some(to_lowercase(v.as_str())),
        None => None,
    }
}

/// The lookup for an input: none when the name is empty once wildcards and
/// surrounding whitespace are removed. A glob query also restricts names
/// to its pattern.
pub fn plan_search(input: SearchSymbolsInput) -> (r: Option<SymbolSearch>)
    ensures
        r is None <==> without_wildcards(input.query@).len() == 0,
        r matches Some(s) ==> {
            &&& s.fts_query@ == fts_phrase(without_wildcards(input.query@))
            &&& s.name_pattern.deep_view() == name_glob(input.query@)
            &&& s.like_pattern@ == name_like(input.query@)
            &&& s.use_fts == !(name_glob(input.query@) is Some && utf8_len(without_wildcards(input.query@)) < 3)
            &&& s.language.deep_view() == lowered(filter_of(input.language.deep_view()))
            &&& s.kind.deep_view() == lowered(filter_of(input.kind.deep_view()))
            &&& s.limit == limit_of(input.limit)
        },
{
    let query = strip_glob_wildcards(input.query.as_str());
    if query.as_str().is_empty() {
        return None;
    }
    let name_pattern = name_glob_exec(input.query.as_str());
    let use_fts = !(name_pattern.is_some() && crate::text::utf8_len_exec(&chars_of(query.as_str())) < 3);
    let language = lower_filter(normalize_optional_filter(input.language));
    let kind = lower_filter(normalize_optional_filter(input.kind));
    Some(
        SymbolSearch {
            fts_query: escape_fts5_trigram(query.as_str()),
            use_fts,
            name_pattern,
            like_pattern: name_like_exec(input.query.as_str()),
            language,
            kind,
            limit: sanitize_limit(input.limit),
        },
    )
}

/// Symbol search returns between 1 and 500 symbols: the limit asked for when
/// it is in that range, the nearer bound otherwise, and 50 by default.
pub proof fn law_symbol_limit(limit: Option<i64>)
    ensures
        1 <= limit_of(limit) <= 500,
        limit is None ==> limit_of(limit) == 50,
        forall|l: i64| limit == Some(l) && 1 <= l <= 500 ==> limit_of(limit) == l,
        forall|l: i64| limit == Some(l) && l > 500 ==> limit_of(limit) == 500,
        forall|l: i64| limit == Some(l) && l < 1 ==> limit_of(limit) == 1,
{
}

} // verus!
