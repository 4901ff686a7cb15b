//! `search_text`: full-text and regex search over indexed lines.
use vstd::prelude::*;

use crate::pattern::{compile_regex, is_match, regex_captures, regex_compiles, CompiledRegex};
use crate::tools::search_symbols::{contains_like, contains_like_exec};
use crate::text::{chars_of, is_ws, occurs_at, string_from_chars, trim, trim_chars, trim_end, trim_start, utf8_len, utf8_len_exec};

verus! {

/// The text with every `*` and `?` removed.
pub open spec fn remove_wildcards(s: Seq<char>) -> Seq<char>
    decreases s.len(),
{
    if s.len() == 0 {
        seq![]
    } else if s.last() == '*' || s.last() == '?' {
        remove_wildcards(s.drop_last())
    } else {
        remove_wildcards(s.drop_last()).push(s.last())
    }
}

/// A query with its glob wildcards removed and then trimmed.
pub open spec fn without_wildcards(s: Seq<char>) -> Seq<char> {
    trim(remove_wildcards(s))
}

/// Strips glob wildcards (`*`, `?`) and surrounding whitespace: the trigram
/// index already matches substrings.
pub fn strip_glob_wildcards(query: &str) -> (r: String)
    ensures
        r@ == without_wildcards(query@),
{
    let q = chars_of(query);
    let mut kept: Vec<char> = Vec::new();
    let mut i: usize = 0;
    while i < q.len()
        invariant
            i <= q@.len(),
            kept@ == remove_wildcards(q@.take(i as int)),
        decreases q@.len() - i,
    {
        assert(q@.take(i + 1).drop_last() =~= q@.take(i as int));
        let c = q[i];
        if c != '*' && c != '?' {
            kept.push(c);
        }
        i = i + 1;
    }
    assert(q@.take(q@.len() as int) =~= q@);
    string_from_chars(&trim_chars(&kept))
}

/// The text with every `"` doubled.
pub open spec fn double_quotes(s: Seq<char>) -> Seq<char>
    decreases s.len(),
{
    if s.len() == 0 {
        seq![]
    } else if s.last() == '"' {
        double_quotes(s.drop_last()) + seq!['"', '"']
    } else {
        double_quotes(s.drop_last()).push(s.last())
    }
}

/// An FTS5 phrase: the text in double quotes, inner quotes doubled.
pub open spec fn fts_phrase(s: Seq<char>) -> Seq<char> {
    seq!['"'] + double_quotes(s) + seq!['"']
}

/// Quotes a query as an FTS5 phrase, so that the trigram tokenizer matches
/// it as a substring.
pub fn escape_fts5_trigram(query: &str) -> (r: String)
    ensures
        r@ == fts_phrase(query@),
{
    let q = chars_of(query);
    let mut out: Vec<char> = Vec::new();
    out.push('"');
    let mut i: usize = 0;
    while i < q.len()
        invariant
            i <= q@.len(),
            out@ == seq!['"'] + double_quotes(q@.take(i as int)),
        decreases q@.len() - i,
    {
        assert(q@.take(i + 1).drop_last() =~= q@.take(i as int));
        let c = q[i];
        if c == '"' {
            out.push('"');
            out.push('"');
        } else {
            out.push(c);
        }
        i = i + 1;
        assert(out@ =~= seq!['"'] + double_quotes(q@.take(i as int)));
    }
    out.push('"');
    assert(q@.take(q@.len() as int) =~= q@);
    assert(out@ =~= fts_phrase(q@));
    string_from_chars(&out)
}

/// Input of `search_text`.
pub struct SearchTextInput {
    /// Text or regex pattern to search for
    pub query: String,
    /// Treat query as a regex (default: false, plain substring)
    pub regex: Option<bool>,
    /// Filter by language: java, kotlin, c, cpp (optional)
    pub language: Option<String>,
    /// Filter to files matching this path substring (optional)
    pub path_filter: Option<String>,
    /// Maximum results (default: 100)
    pub limit: Option<i64>,
    /// Lines of context around each match (default: 2)
    pub context_lines: Option<i64>,
}

/// One matching line with the lines around it.
pub struct TextMatch {
    pub file: String,
    pub line_no: i64,
    pub content: String,
    pub context_before: Vec<String>,
    pub context_after: Vec<String>,
}

/// Escapes that stand for a class of chars, not for a literal char.
pub open spec fn is_class_escape(c: char) -> bool {
    c == 'n' || c == 't' || c == 'r' || c == 'd' || c == 'w' || c == 's' || c == 'D' || c == 'W'
        || c == 'S' || c == 'b' || c == 'B'
}

/// Regex metacharacters.
pub open spec fn is_meta(c: char) -> bool {
    c == '.' || c == '*' || c == '+' || c == '?' || c == '^' || c == '$' || c == '{' || c == '}'
        || c == '(' || c == ')' || c == '|' || c == '[' || c == ']'
}

/// The longer (in UTF-8 bytes) of the best run so far and the current run;
/// the best one on a tie.
pub open spec fn longer(best: Seq<char>, cur: Seq<char>) -> Seq<char> {
    if utf8_len(cur) > utf8_len(best) {
        cur
    } else {
        best
    }
}

/// The best literal run, the current run, and whether a `\` is pending,
/// after reading a pattern.
pub open spec fn literal_scan(p: Seq<char>) -> (Seq<char>, Seq<char>, bool)
    decreases p.len(),
{
    if p.len() == 0 {
        (seq![], seq![], false)
    } else {
        let (best, cur, esc) = literal_scan(p.drop_last());
        let c = p.last();
        if esc {
            if is_class_escape(c) {
                (longer(best, cur), seq![], false)
            } else {
                (best, cur.push(c), false)
            }
        } else if c == '\\' {
            (best, cur, true)
        } else if is_meta(c) {
            (longer(best, cur), seq![], false)
        } else {
            (best, cur.push(c), false)
        }
    }
}

/// The longest run of literal chars in a regex pattern (escaped literal
/// chars count, class escapes and metacharacters break runs); the first
/// such run when several are equally long; none when the pattern has none.
pub open spec fn longest_literal(p: Seq<char>) -> Option<Seq<char>> {
    let (best, cur, esc) = literal_scan(p);
    let b = longer(best, cur);
    if b.len() == 0 {
        None
    } else {
        Some(b)
    }
}

fn is_class_escape_exec(c: char) -> (r: bool)
    ensures
        r == is_class_escape(c),
{
    c == 'n' || c == 't' || c == 'r' || c == 'd' || c == 'w' || c == 's' || c == 'D' || c == 'W'
        || c == 'S' || c == 'b' || c == 'B'
}

fn is_meta_exec(c: char) -> (r: bool)
    ensures
        r == is_meta(c),
{
    c == '.' || c == '*' || c == '+' || c == '?' || c == '^' || c == '$' || c == '{' || c == '}'
        || c == '(' || c == ')' || c == '|' || c == '[' || c == ']'
}

fn longer_exec(best: Vec<char>, cur: Vec<char>) -> (r: Vec<char>)
    ensures
        r@ == longer(best@, cur@),
{
    if utf8_len_exec(&cur) > utf8_len_exec(&best) {
        cur
    } else {
        best
    }
}

/// Extracts the longest literal substring of a regex pattern, used to
/// pre-filter candidate lines through the trigram index.
pub fn extract_longest_literal(pattern: &str) -> (r: Option<String>)
    ensures
        r.deep_view() == longest_literal(pattern@),
{
    let p = chars_of(pattern);
    let mut best: Vec<char> = Vec::new();
    let mut cur: Vec<char> = Vec::new();
    let mut esc = false;
    let mut i: usize = 0;
    while i < p.len()
        invariant
            i <= p@.len(),
            (best@, cur@, esc) == literal_scan(p@.take(i as int)),
        decreases p@.len() - i,
    {
        assert(p@.take(i + 1).drop_last() =~= p@.take(i as int));
        let c = p[i];
        if esc {
            if is_class_escape_exec(c) {
                best = longer_exec(best, cur);
                cur = Vec::new();
            } else {
                cur.push(c);
            }
            esc = false;
        } else if c == '\\' {
            esc = true;
        } else if is_meta_exec(c) {
            best = longer_exec(best, cur);
            cur = Vec::new();
        } else {
            cur.push(c);
        }
        i = i + 1;
    }
    assert(p@.take(p@.len() as int) =~= p@);
    let b = longer_exec(best, cur);
    if b.len() == 0 {
        None
    } else {
        Some(string_from_chars(&b))
    }
}

/// How a text search runs: the stripped query, whether it is a regex, the
/// FTS5 phrase that selects candidate lines (none: scan every line), the
/// filters, the limit and the number of context lines.
pub struct TextSearch {
    pub query: String,
    pub use_regex: bool,
    pub fts_query: Option<String>,
    /// The `LIKE` pattern of the lines that hold a plain query, for when the
    /// trigram index cannot find it.
    pub like_pattern: String,
    pub language: Option<String>,
    pub path_filter: Option<String>,
    pub limit: i64,
    pub context: i64,
}

/// Chars after which a regex's literal runs need not occur in a match:
/// alternation, optional or repeated-zero-times parts, groups, classes and
/// escapes.
pub open spec fn breaks_literals(c: char) -> bool {
    c == '|' || c == '?' || c == '*' || c == '{' || c == '[' || c == '(' || c == '\\'
}

/// Whether every match of a regex holds each of its literal runs: it has
/// none of the constructs of `breaks_literals`.
pub open spec fn literals_required(p: Seq<char>) -> bool {
    forall|i: int| 0 <= i < p.len() ==> !breaks_literals(#[trigger] p[i])
}

/// The candidate phrase of a search: the quoted query itself for a plain
/// search of at least 3 bytes (shorter ones are found by `LIKE`); for a regex, its longest literal when it has at least 3 bytes and
/// every match must hold it (else none, and every line is a candidate).
pub open spec fn candidate_phrase(query: Seq<char>, use_regex: bool) -> Option<Seq<char>> {
    if !use_regex {
        if utf8_len(query) >= 3 {
            Some(fts_phrase(query))
        } else {
            None
        }
    } else if !literals_required(query) {
        None
    } else {
        match longest_literal(query) {
            Some(lit) => if utf8_len(lit) >= 3 {
                Some(fts_phrase(lit))
            } else {
                None
            },
            None => None,
        }
    }
}

/// The query a search runs: a regex as given; a plain query with its glob
/// wildcards and surrounding whitespace removed.
pub open spec fn search_query(query: Seq<char>, use_regex: bool) -> Seq<char> {
    if use_regex {
        query
    } else {
        without_wildcards(query)
    }
}

/// A limit clamped to `0..=max`, `default` when absent.
pub open spec fn clamped(v: Option<i64>, default: i64, max: i64) -> i64 {
    match v {
        Some(l) => if l < 0 {
            0
        } else if l > max {
            max
        } else {
            l
        },
        None => default,
    }
}

fn clamp_exec(v: Option<i64>, default: i64, max: i64) -> (r: i64)
    ensures
        r == clamped(v, default, max),
{
    match v {
        Some(l) => if l < 0 {
            0
        } else if l > max {
            max
        } else {
            l
        },
        None => default,
    }
}

/// The search for an input: none when its query is empty; else at most
/// 100 results by default (between 0 and 1000) with 2 context lines by
/// default (between 0 and 10).
pub fn plan_text_search(input: SearchTextInput) -> (r: Option<TextSearch>)
    ensures
        r is None <==> search_query(input.query@, input.regex == Some(true)).len() == 0,
        r matches Some(t) ==> {
            &&& t.query@ == search_query(input.query@, input.regex == Some(true))
            &&& t.use_regex == (input.regex == Some(true))
            &&& t.fts_query.deep_view() == candidate_phrase(t.query@, t.use_regex)
            &&& t.like_pattern@ == contains_like(t.query@)
            &&& t.language.deep_view() == input.language.deep_view()
            &&& t.path_filter.deep_view() == input.path_filter.deep_view()
            &&& t.limit == clamped(input.limit, 100, 1000)
            &&& t.context == clamped(input.context_lines, 2, 10)
        },
{
    let limit = clamp_exec(input.limit, 100, 1000);
    let context = clamp_exec(input.context_lines, 2, 10);
    let use_regex = match input.regex {
        Some(b) => b,
        None => false,
    };
    let query = if use_regex {
        crate::text::copy_string(input.query.as_str())
    } else {
        strip_glob_wildcards(input.query.as_str())
    };
    if query.as_str().is_empty() {
        return None;
    }
    let fts_query = if !use_regex {
        if utf8_len_exec(&chars_of(query.as_str())) >= 3 {
            Some(escape_fts5_trigram(query.as_str()))
        } else {
            None
        }
    } else if !literals_required_exec(query.as_str()) {
        None
    } else {
        match extract_longest_literal(query.as_str()) {
            Some(lit) => {
                let l = chars_of(lit.as_str());
                if utf8_len_exec(&l) >= 3 {
                    Some(escape_fts5_trigram(lit.as_str()))
                } else {
                    None
                }
            },
            None => None,
        }
    };
    let like_pattern = contains_like_exec(&chars_of(query.as_str()));
    Some(
        TextSearch {
            query,
            use_regex,
            fts_query,
            like_pattern,
            language: input.language,
            path_filter: input.path_filter,
            limit,
            context,
        },
    )
}

/// A candidate line: file id, line number, content.
pub type LineRow = (i64, i64, String);

/// The value of a candidate row.
pub open spec fn row_view(r: LineRow) -> (i64, i64, Seq<char>) {
    (r.0, r.1, r.2@)
}

/// The values of candidate rows.
pub open spec fn rows_view(rows: Seq<LineRow>) -> Seq<(i64, i64, Seq<char>)> {
    rows.map_values(|r: LineRow| row_view(r))
}

/// The rows whose content the pattern matches.
pub open spec fn matching_rows(pattern: Seq<char>, rows: Seq<(i64, i64, Seq<char>)>) -> Seq<(i64, i64, Seq<char>)>
    decreases rows.len(),
{
    if rows.len() == 0 {
        seq![]
    } else if regex_captures(pattern, rows.last().2) is Some {
        matching_rows(pattern, rows.drop_last()).push(rows.last())
    } else {
        matching_rows(pattern, rows.drop_last())
    }
}

/// At most `n` first elements.
pub open spec fn first_n<A>(s: Seq<A>, n: int) -> Seq<A> {
    if s.len() < n {
        s
    } else {
        s.take(n)
    }
}

/// The regex of a regex search: the query compiled, or the `regex` crate's
/// message when it does not compile.
pub fn search_regex(query: &str) -> (r: Result<CompiledRegex, String>)
    ensures
        r is Ok <==> regex_compiles(query@),
        r matches Ok(re) ==> re@ == query@,
{
    compile_regex(query)
}

fn literals_required_exec(p: &str) -> (r: bool)
    ensures
        r == literals_required(p@),
{
    let c = chars_of(p);
    let mut i: usize = 0;
    while i < c.len()
        invariant
            i <= c@.len(),
            c@ == p@,
            forall|j: int| 0 <= j < i ==> !breaks_literals(#[trigger] c@[j]),
        decreases c@.len() - i,
    {
        let ch = c[i];
        if ch == '|' || ch == '?' || ch == '*' || ch == '{' || ch == '[' || ch == '(' || ch == '\\' {
            assert(breaks_literals(c@[i as int]));
            return false;
        }
        i = i + 1;
    }
    true
}

/// Keeps, in order, the candidate rows that the regex matches, at most
/// `limit as usize` of them.
pub fn filter_regex_rows(re: &CompiledRegex, rows: &Vec<LineRow>, limit: i64) -> (r: Vec<LineRow>)
    ensures
        rows_view(r@) == first_n(matching_rows(re@, rows_view(rows@)), (limit as usize) as int),
{
    let cap = limit as usize;
    let mut out: Vec<LineRow> = Vec::new();
    let mut i: usize = 0;
    let n = rows.len();
    let ghost all = rows_view(rows@);
    while i < n && out.len() < cap
        invariant
            i <= n,
            n == rows@.len(),
            all == rows_view(rows@),
            out@.len() <= cap,
            rows_view(out@) == first_n(matching_rows(re@, all.take(i as int)), cap as int),
        decreases n - i,
    {
        assert(all.take(i + 1).drop_last() =~= all.take(i as int));
        assert(all.take(i + 1).last() == row_view(rows@[i as int]));
        let row = (rows[i].0, rows[i].1, rows[i].2.clone());
        let ghost before = out@;
        if is_match(re, row.2.as_str()) {
            out.push(row);
            assert(rows_view(out@) =~= rows_view(before).push(row_view(row)));
        }
        i = i + 1;
    }
    proof {
        lemma_matching_rows_prefix(re@, all, i as int);
        if i == n {
            assert(all.take(n as int) =~= all);
        } else {
            let mi = matching_rows(re@, all.take(i as int));
            let ma = matching_rows(re@, all);
            assert(out@.len() == cap);
            assert(mi.len() >= cap);
            assert(first_n(ma, cap as int) =~= first_n(mi, cap as int));
        }
    }
    out
}

proof fn lemma_matching_rows_prefix(pattern: Seq<char>, rows: Seq<(i64, i64, Seq<char>)>, i: int)
    requires
        0 <= i <= rows.len(),
    ensures
        matching_rows(pattern, rows.take(i)).len() <= matching_rows(pattern, rows).len(),
        forall|k: int| 0 <= k < matching_rows(pattern, rows.take(i)).len() ==>
            matching_rows(pattern, rows.take(i))[k] == matching_rows(pattern, rows)[k],
    decreases rows.len() - i,
{
    if i < rows.len() {
        lemma_matching_rows_prefix(pattern, rows.drop_last(), i);
        assert(rows.drop_last().take(i) =~= rows.take(i));
    } else {
        assert(rows.take(i) =~= rows);
    }
}

/// The ids sorted increasingly, each once.
pub open spec fn sorted_unique(v: Seq<i64>) -> bool {
    forall|a: int, b: int| 0 <= a < b < v.len() ==> v[a] < v[b]
}

/// The distinct file ids of the matches, in increasing order.
pub fn distinct_file_ids(matches: &Vec<LineRow>) -> (r: Vec<i64>)
    ensures
        sorted_unique(r@),
        forall|x: i64| r@.contains(x) <==> exists|k: int| 0 <= k < matches@.len() && matches@[k].0 == x,
{
    let mut ids: Vec<i64> = Vec::new();
    let mut i: usize = 0;
    while i < matches.len()
        invariant
            i <= matches@.len(),
            sorted_unique(ids@),
            forall|x: i64| ids@.contains(x) <==> exists|k: int| 0 <= k < i && matches@[k].0 == x,
        decreases matches@.len() - i,
    {
        let x = matches[i].0;
        let ghost old_ids = ids@;
        let mut j: usize = 0;
        while j < ids.len() && ids[j] < x
            invariant
                j <= ids@.len(),
                forall|a: int| 0 <= a < j ==> ids@[a] < x,
            decreases ids@.len() - j,
        {
            j = j + 1;
        }
        if j < ids.len() && ids[j] == x {
            assert(ids@.contains(x));
            assert forall|y: i64| ids@.contains(y) <==> (old_ids.contains(y) || y == x) by {}
        } else {
            let ghost before = ids@;
            ids.insert(j, x);
            assert forall|y: i64| ids@.contains(y) <==> (before.contains(y) || y == x) by {
                if ids@.contains(y) {
                    let k = choose|k: int| 0 <= k < ids@.len() && ids@[k] == y;
                    if k < j {
                        assert(before[k] == y);
                    } else if k > j {
                        assert(before[k - 1] == y);
                    }
                }
                if before.contains(y) {
                    let k = choose|k: int| 0 <= k < before.len() && before[k] == y;
                    if k < j {
                        assert(ids@[k] == y);
                    } else {
                        assert(ids@[k + 1] == y);
                    }
                }
                if y == x {
                    assert(ids@[j as int] == x);
                }
            }
        }
        assert forall|y: i64| ids@.contains(y) <==> exists|k: int| 0 <= k < i + 1 && matches@[k].0 == y by {
            assert(ids@.contains(y) <==> (old_ids.contains(y) || y == x));
            assert(old_ids.contains(y) <==> exists|k: int| 0 <= k < i && matches@[k].0 == y);
            if y == x {
                assert(matches@[i as int].0 == y);
            }
            if exists|k: int| 0 <= k < i + 1 && matches@[k].0 == y {
                let k = choose|k: int| 0 <= k < i + 1 && matches@[k].0 == y;
                if k < i {
                    assert(old_ids.contains(y));
                }
            }
        }
        i = i + 1;
    }
    ids
}

/// The contents of the rows before (`before == true`) or after the line.
pub open spec fn context_side(rows: Seq<(i64, String)>, line_no: i64, before: bool) -> Seq<Seq<char>>
    decreases rows.len(),
{
    if rows.len() == 0 {
        seq![]
    } else {
        let prev = context_side(rows.drop_last(), line_no, before);
        let (ln, c) = rows.last();
        if (before && ln < line_no) || (!before && ln > line_no) {
            prev.push(c@)
        } else {
            prev
        }
    }
}

/// The first and last line numbers of the context window: `ctx` lines
/// around the match, not before line 1.
pub fn context_window(line_no: i64, ctx: i64) -> (r: (i64, i64))
    requires
        i64::MIN <= line_no - ctx <= i64::MAX,
        i64::MIN <= line_no + ctx <= i64::MAX,
    ensures
        r.0 == (if line_no - ctx > 1 { line_no - ctx } else { 1 }),
        r.1 == line_no + ctx,
{
    let s = line_no - ctx;
    (if s > 1 { s } else { 1 }, line_no + ctx)
}

/// Splits the context rows of a match into the lines before and after it,
/// in the order of the rows.
pub fn split_context(rows: &Vec<(i64, String)>, line_no: i64) -> (r: (Vec<String>, Vec<String>))
    ensures
        r.0.deep_view() == context_side(rows@, line_no, true),
        r.1.deep_view() == context_side(rows@, line_no, false),
{
    let mut before: Vec<String> = Vec::new();
    let mut after: Vec<String> = Vec::new();
    let mut i: usize = 0;
    while i < rows.len()
        invariant
            i <= rows@.len(),
            before.deep_view() == context_side(rows@.take(i as int), line_no, true),
            after.deep_view() == context_side(rows@.take(i as int), line_no, false),
        decreases rows@.len() - i,
    {
        assert(rows@.take(i + 1).drop_last() =~= rows@.take(i as int));
        let ln = rows[i].0;
        let c = chars_of(rows[i].1.as_str());
        if ln < line_no {
            let ghost b0 = before.deep_view();
            let s = string_from_chars(&c);
            before.push(s);
            assert(before.deep_view() =~= b0.push(s@));
        } else if ln > line_no {
            let ghost a0 = after.deep_view();
            let s = string_from_chars(&c);
            after.push(s);
            assert(after.deep_view() =~= a0.push(s@));
        }
        i = i + 1;
    }
    assert(rows@.take(rows@.len() as int) =~= rows@);
    (before, after)
}

proof fn lemma_remove_wildcards_clean(s: Seq<char>)
    ensures
        !remove_wildcards(s).contains('*'),
        !remove_wildcards(s).contains('?'),
    decreases s.len(),
{
    if s.len() > 0 {
        lemma_remove_wildcards_clean(s.drop_last());
        let prev = remove_wildcards(s.drop_last());
        if !(s.last() == '*' || s.last() == '?') {
            assert forall|i: int| 0 <= i < prev.push(s.last()).len() implies prev.push(s.last())[i] != '*' && prev.push(s.last())[i] != '?' by {
                if i < prev.len() {
                    assert(prev.push(s.last())[i] == prev[i]);
                }
            }
        }
    }
}

proof fn lemma_trim_start_within(s: Seq<char>, c: char)
    ensures
        trim_start(s).contains(c) ==> s.contains(c),
    decreases s.len(),
{
    if s.len() > 0 && is_ws(s[0]) {
        lemma_trim_start_within(s.drop_first(), c);
        if s.drop_first().contains(c) {
            let i = choose|i: int| 0 <= i < s.drop_first().len() && s.drop_first()[i] == c;
            assert(s[i + 1] == c);
        }
    }
}

proof fn lemma_trim_end_within(s: Seq<char>, c: char)
    ensures
        trim_end(s).contains(c) ==> s.contains(c),
    decreases s.len(),
{
    if s.len() > 0 && is_ws(s.last()) {
        lemma_trim_end_within(s.drop_last(), c);
        if s.drop_last().contains(c) {
            let i = choose|i: int| 0 <= i < s.drop_last().len() && s.drop_last()[i] == c;
            assert(s[i] == c);
        }
    }
}

/// A text query keeps no glob wildcard once they are stripped.
pub proof fn law_no_wildcards_left(query: Seq<char>)
    ensures
        !without_wildcards(query).contains('*'),
        !without_wildcards(query).contains('?'),
{
    lemma_remove_wildcards_clean(query);
    let r = remove_wildcards(query);
    lemma_trim_start_within(r, '*');
    lemma_trim_start_within(r, '?');
    lemma_trim_end_within(trim_start(r), '*');
    lemma_trim_end_within(trim_start(r), '?');
}

/// The text an FTS5 string literal denotes, read from just after its
/// opening quote: a doubled `"` stands for one `"`, a lone `"` closes the
/// literal, which must end the input; `None` when it does not.
pub open spec fn fts_literal_body(s: Seq<char>) -> Option<Seq<char>>
    decreases s.len(),
{
    if s.len() == 0 {
        None
    } else if s[0] == '"' {
        if s.len() >= 2 && s[1] == '"' {
            match fts_literal_body(s.skip(2)) {
                Some(t) => Some(seq!['"'] + t),
                None => None,
            }
        } else if s.len() == 1 {
            Some(seq![])
        } else {
            None
        }
    } else {
        match fts_literal_body(s.drop_first()) {
            Some(t) => Some(seq![s[0]] + t),
            None => None,
        }
    }
}

/// The text an FTS5 string literal denotes; `None` when the input is not
/// exactly one literal.
pub open spec fn fts_literal(s: Seq<char>) -> Option<Seq<char>> {
    if s.len() > 0 && s[0] == '"' {
        fts_literal_body(s.drop_first())
    } else {
        None
    }
}

proof fn lemma_double_quotes_concat(a: Seq<char>, b: Seq<char>)
    ensures
        double_quotes(a + b) == double_quotes(a) + double_quotes(b),
    decreases b.len(),
{
    if b.len() == 0 {
        assert(a + b =~= a);
        assert(double_quotes(a) + double_quotes(b) =~= double_quotes(a));
    } else {
        lemma_double_quotes_concat(a, b.drop_last());
        assert((a + b).drop_last() =~= a + b.drop_last());
        assert((a + b).last() == b.last());
        if b.last() == '"' {
            assert(double_quotes(a) + double_quotes(b) =~= double_quotes(a) + double_quotes(b.drop_last()) + seq!['"', '"']);
        } else {
            assert(double_quotes(a) + double_quotes(b) =~= (double_quotes(a) + double_quotes(b.drop_last())).push(b.last()));
        }
    }
}

proof fn lemma_literal_body_of_doubled(q: Seq<char>)
    ensures
        fts_literal_body(double_quotes(q) + seq!['"']) == Some(q),
    decreases q.len(),
{
    if q.len() == 0 {
        assert(double_quotes(q) + seq!['"'] =~= seq!['"']);
    } else {
        let c = q[0];
        let rest = q.drop_first();
        lemma_literal_body_of_doubled(rest);
        assert(q =~= seq![c] + rest);
        lemma_double_quotes_concat(seq![c], rest);
        assert(seq![c].drop_last() =~= Seq::<char>::empty());
        assert(seq![c].last() == c);
        assert(double_quotes(Seq::<char>::empty()) =~= Seq::<char>::empty());
        let s = double_quotes(q) + seq!['"'];
        if c == '"' {
            assert(double_quotes(seq![c]) =~= seq!['"', '"']);
            assert(s =~= seq!['"', '"'] + (double_quotes(rest) + seq!['"']));
            assert(s.skip(2) =~= double_quotes(rest) + seq!['"']);
            assert(seq!['"'] + rest =~= q);
        } else {
            assert(double_quotes(seq![c]) =~= seq![c]);
            assert(s =~= seq![c] + (double_quotes(rest) + seq!['"']));
            assert(s.drop_first() =~= double_quotes(rest) + seq!['"']);
        }
    }
}

/// A query quoted as an FTS5 phrase is one string literal that denotes
/// exactly the query: quotes inside it cannot end the phrase early.
pub proof fn law_phrase_denotes_query(query: Seq<char>)
    ensures
        fts_literal(fts_phrase(query)) == Some(query),
{
    lemma_literal_body_of_doubled(query);
    assert(fts_phrase(query).drop_first() =~= double_quotes(query) + seq!['"']);
}

/// Whether a text holds none of the chars with a meaning of their own in a
/// regex: `. * + ? ^ $ { } ( ) | [ ]` and `\\`.
pub open spec fn free_of_regex_syntax(s: Seq<char>) -> bool {
    forall|i: int|
        0 <= i < s.len() ==> {
            let c = #[trigger] s[i];
            c != '.' && c != '*' && c != '+' && c != '?' && c != '^' && c != '$' && c != '{' && c != '}'
                && c != '(' && c != ')' && c != '|' && c != '[' && c != ']' && c != '\\'
        }
}

proof fn lemma_occurs_in_longer(p: Seq<char>, x: Seq<char>, a: int)
    requires
        p.len() > 0,
        occurs_at(p.drop_last(), x, a),
    ensures
        occurs_at(p, x, a),
{
    assert(p.subrange(a, a + x.len()) =~= p.drop_last().subrange(a, a + x.len()));
}

proof fn lemma_plain_scan(p: Seq<char>)
    requires
        forall|i: int| 0 <= i < p.len() ==> p[i] != '\\',
    ensures
        ({
            let (best, cur, esc) = literal_scan(p);
            &&& !esc
            &&& free_of_regex_syntax(best)
            &&& free_of_regex_syntax(cur)
            &&& occurs_at(p, cur, p.len() - cur.len())
            &&& exists|a: int| occurs_at(p, best, a)
        }),
    decreases p.len(),
{
    if p.len() == 0 {
        assert(p.subrange(0, 0) =~= Seq::<char>::empty());
        assert(occurs_at(p, Seq::<char>::empty(), 0));
    } else {
        let d = p.drop_last();
        assert forall|i: int| 0 <= i < d.len() implies d[i] != '\\' by {
            assert(d[i] == p[i]);
        }
        lemma_plain_scan(d);
        let (best, cur, esc) = literal_scan(d);
        let c = p.last();
        assert(c == p[p.len() - 1]);
        let a = choose|a: int| occurs_at(d, best, a);
        lemma_occurs_in_longer(p, best, a);
        lemma_occurs_in_longer(p, cur, d.len() - cur.len());
        if is_meta(c) {
            assert(occurs_at(p, Seq::<char>::empty(), p.len() as int)) by {
                assert(p.subrange(p.len() as int, p.len() as int) =~= Seq::<char>::empty());
            }
        } else {
            let nc = cur.push(c);
            assert(p.subrange(p.len() - nc.len(), p.len() as int) =~= d.subrange(d.len() - cur.len(), d.len() as int).push(c));
            assert(occurs_at(p, nc, p.len() - nc.len()));
            assert forall|i: int| 0 <= i < nc.len() implies {
                let x = #[trigger] nc[i];
                x != '.' && x != '*' && x != '+' && x != '?' && x != '^' && x != '$' && x != '{' && x != '}'
                    && x != '(' && x != ')' && x != '|' && x != '[' && x != ']' && x != '\\'
            } by {
                if i < cur.len() {
                    assert(nc[i] == cur[i]);
                }
            }
        }
    }
}

proof fn lemma_utf8_len_suffix(s: Seq<char>, k: int)
    requires
        0 <= k <= s.len(),
    ensures
        utf8_len(s.skip(k)) <= utf8_len(s),
    decreases k,
{
    if k > 0 {
        crate::text::lemma_utf8_len_first(s);
        lemma_utf8_len_suffix(s.drop_first(), k - 1);
        assert(s.drop_first().skip(k - 1) =~= s.skip(k));
    } else {
        assert(s.skip(0) =~= s);
    }
}

proof fn lemma_plain_scan_longest(p: Seq<char>)
    requires
        forall|i: int| 0 <= i < p.len() ==> p[i] != '\\',
    ensures
        ({
            let (best, cur, esc) = literal_scan(p);
            &&& cur.len() <= p.len()
            &&& (p.len() - cur.len() == 0 || is_meta(p[p.len() - cur.len() - 1]))
            &&& forall|a: int, b: int|
                0 <= a <= b <= p.len() && free_of_regex_syntax(#[trigger] p.subrange(a, b)) ==> utf8_len(p.subrange(a, b))
                    <= utf8_len(longer(best, cur))
        }),
    decreases p.len(),
{
    lemma_plain_scan(p);
    if p.len() == 0 {
        assert forall|a: int, b: int|
            0 <= a <= b <= p.len() && free_of_regex_syntax(#[trigger] p.subrange(a, b)) implies utf8_len(p.subrange(a, b))
                <= utf8_len(longer(seq![], seq![])) by {
            assert(p.subrange(a, b) =~= Seq::<char>::empty());
        }
    } else {
        let d = p.drop_last();
        assert forall|i: int| 0 <= i < d.len() implies d[i] != '\\' by {
            assert(d[i] == p[i]);
        }
        lemma_plain_scan(d);
        lemma_plain_scan_longest(d);
        let (best, cur, esc) = literal_scan(d);
        let (nb, nc, ne) = literal_scan(p);
        let c = p.last();
        assert(c == p[p.len() - 1]);
        let m = longer(best, cur);
        let nm = longer(nb, nc);
        if !is_meta(c) {
            crate::text::lemma_utf8_len_push(cur, c);
            assert(nc == cur.push(c));
            assert(nb == best);
        } else {
            assert(nb == m && nc.len() == 0);
        }
        assert(utf8_len(nm) >= utf8_len(m));
        assert forall|a: int, b: int|
            0 <= a <= b <= p.len() && free_of_regex_syntax(#[trigger] p.subrange(a, b)) implies utf8_len(p.subrange(a, b))
                <= utf8_len(nm) by {
            let w = p.subrange(a, b);
            if b < p.len() {
                assert(w =~= d.subrange(a, b));
            } else if a == b {
                assert(w =~= Seq::<char>::empty());
            } else {
                assert(w[w.len() - 1] == c);
                if is_meta(c) {
                    assert(false);
                } else {
                    let start = d.len() - cur.len();
                    if a < start {
                        assert(w[start - 1 - a] == p[start - 1]);
                        assert(p[start - 1] == d[start - 1]);
                        assert(false);
                    }
                    assert(occurs_at(p, nc, p.len() - nc.len()));
                    assert(w =~= nc.skip(a - start));
                    lemma_utf8_len_suffix(nc, a - start);
                }
            }
        }
        if !is_meta(c) && d.len() - cur.len() > 0 {
            assert(p[p.len() - nc.len() - 1] == d[d.len() - cur.len() - 1]);
        }
    }
}

/// The literal that prefilters a regex search is a piece of the pattern
/// that holds no regex syntax (anchors, repetition, groups, classes,
/// alternation, escapes), so every match of the regex holds it: for `^import`
/// it is `import`; and no such piece of the pattern is longer (in bytes).
/// A regex search gets a candidate phrase only for such a
/// literal of at least 3 bytes, quoted as an FTS5 phrase.
pub proof fn law_prefilter_literal_is_plain_text(query: Seq<char>)
    ensures
        (forall|i: int| 0 <= i < query.len() ==> query[i] != '\\') ==> (longest_literal(query) matches Some(lit)
            ==> free_of_regex_syntax(lit) && lit.len() > 0 && exists|a: int| occurs_at(query, lit, a)),
        (forall|i: int| 0 <= i < query.len() ==> query[i] != '\\') ==> forall|a: int, b: int|
            0 <= a <= b <= query.len() && free_of_regex_syntax(#[trigger] query.subrange(a, b)) ==> utf8_len(
                query.subrange(a, b),
            ) <= match longest_literal(query) {
                Some(lit) => utf8_len(lit),
                None => 0,
            },
        candidate_phrase(query, true) matches Some(ph) ==> exists|lit: Seq<char>|
            #[trigger] fts_phrase(lit) == ph && free_of_regex_syntax(lit) && utf8_len(lit) >= 3 && exists|a: int|
                occurs_at(query, lit, a),
{
    if forall|i: int| 0 <= i < query.len() ==> query[i] != '\\' {
        lemma_plain_scan(query);
        lemma_plain_scan_longest(query);
        let (best, cur, esc) = literal_scan(query);
        let a = choose|a: int| occurs_at(query, best, a);
        assert(occurs_at(query, cur, query.len() - cur.len()));
    }
    if candidate_phrase(query, true) is Some {
        assert forall|i: int| 0 <= i < query.len() implies query[i] != '\\' by {
            assert(!breaks_literals(query[i]));
        }
        let lit = longest_literal(query)->0;
        assert(fts_phrase(lit) == candidate_phrase(query, true)->0);
    }
}

/// A clamped limit is the value asked for when it lies in `0..=max`, `max`
/// above, 0 below, and the default when none is asked for; so text search
/// returns at most 1000 lines (100 by default) with at most 10 context
/// lines (2 by default).
pub proof fn law_clamped_limits(v: Option<i64>, default: i64, max: i64)
    requires
        0 <= default <= max,
    ensures
        0 <= clamped(v, default, max) <= max,
        v is None ==> clamped(v, default, max) == default,
        forall|l: i64| v == Some(l) && 0 <= l <= max ==> clamped(v, default, max) == l,
        forall|l: i64| v == Some(l) && l > max ==> clamped(v, default, max) == max,
        forall|l: i64| v == Some(l) && l < 0 ==> clamped(v, default, max) == 0,
{
}

/// A regex query is searched for as given; a plain query without its glob
/// wildcards and surrounding whitespace.
pub proof fn law_search_query(query: Seq<char>)
    ensures
        search_query(query, true) == query,
        search_query(query, false) == without_wildcards(query),
{
}

} // verus!
