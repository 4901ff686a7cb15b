//! `ast_query`: tree-sitter query patterns run on one source file.
use vstd::prelude::*;

use crate::indexer::{language_of_path, Language, LanguageView};
use crate::syntax::{byte_index, byte_slice, byte_slice_exec, capture_views, compile_query, is_byte_index, parse_source, query_captures, ts_parses, ts_query_captures, ts_query_error, CaptureInfo, CaptureView, Grammar};
use crate::text::{chars_of, copy_string, extend_chars, string_from_chars};

verus! {

/// Input of `ast_query`.
pub struct AstQueryInput {
    /// Absolute path to the source file to query
    pub file_path: String,
    /// tree-sitter S-expression query pattern
    pub pattern: String,
}

/// One captured node: the capture's name, the node's text and its span.
pub struct AstMatch {
    pub capture_name: String,
    pub text: String,
    pub start_line: u32,
    pub start_col: u32,
    pub end_line: u32,
    pub end_col: u32,
}

/// The value an `AstMatch` holds.
pub struct AstMatchView {
    pub capture_name: Seq<char>,
    pub text: Seq<char>,
    pub start_line: u32,
    pub start_col: u32,
    pub end_line: u32,
    pub end_col: u32,
}

impl View for AstMatch {
    type V = AstMatchView;

    open spec fn view(&self) -> AstMatchView {
        AstMatchView {
            capture_name: self.capture_name@,
            text: self.text@,
            start_line: self.start_line,
            start_col: self.start_col,
            end_line: self.end_line,
            end_col: self.end_col,
        }
    }
}

/// The values of a list of matches.
pub open spec fn match_views(v: Seq<AstMatch>) -> Seq<AstMatchView> {
    v.map_values(|m: AstMatch| m@)
}

/// Why a query gave no matches.
pub enum AstQueryError {
    /// The path has no indexed language.
    UnsupportedFileType(String),
    /// The file's language has no grammar for queries.
    NotSupported(String),
    /// The file is indexed as text only (its extension, then the path).
    LanguageNotSupported(String, String),
    /// The parser gave no tree.
    ParseFailed(String),
    /// The pattern does not compile; tree-sitter's message.
    InvalidQuery(String),
}

/// The grammar queries on a language use: Java, Kotlin, and C++ for C and
/// C++; none for the others.
pub open spec fn ast_grammar(l: LanguageView) -> Option<Grammar> {
    match l {
        LanguageView::Java => Some(Grammar::Java),
        LanguageView::Kotlin => Some(Grammar::Kotlin),
        LanguageView::C => Some(Grammar::Cpp),
        LanguageView::Cpp => Some(Grammar::Cpp),
        _ => None,
    }
}

/// The match for a capture: its name, the captured text, and the node's
/// span with rows and columns cast to `u32`.
pub open spec fn capture_match(src: Seq<char>, c: CaptureView) -> AstMatchView {
    AstMatchView {
        capture_name: c.name,
        text: byte_slice(src, c.start_byte as int, c.end_byte as int),
        start_line: c.start_row as u32,
        start_col: c.start_col as u32,
        end_line: c.end_row as u32,
        end_col: c.end_col as u32,
    }
}

/// The matches for a list of captures, in order.
pub open spec fn capture_matches(src: Seq<char>, cs: Seq<CaptureView>) -> Seq<AstMatchView> {
    cs.map_values(|c: CaptureView| capture_match(src, c))
}

/// The matches for the captures a query found in a source.
pub fn matches_from_captures(source: &str, captures: &Vec<CaptureInfo>) -> (r: Vec<AstMatch>)
    ensures
        match_views(r@) == capture_matches(source@, capture_views(captures@)),
{
    let src = chars_of(source);
    let ix = byte_index(&src);
    let mut out: Vec<AstMatch> = Vec::new();
    let mut k: usize = 0;
    while k < captures.len()
        invariant
            k <= captures@.len(),
            src@ == source@,
            is_byte_index(ix.offsets@, src@),
            match_views(out@) == capture_matches(source@, capture_views(captures@)).take(k as int),
        decreases captures@.len() - k,
    {
        let c = &captures[k];
        let m = AstMatch {
            capture_name: string_from_chars(&chars_of(c.name.as_str())),
            text: string_from_chars(&byte_slice_exec(&ix, &src, c.start_byte, c.end_byte)),
            start_line: c.start_row as u32,
            start_col: c.start_col as u32,
            end_line: c.end_row as u32,
            end_col: c.end_col as u32,
        };
        assert(capture_views(captures@)[k as int] == captures@[k as int]@);
        let ghost before = match_views(out@);
        out.push(m);
        assert(match_views(out@) =~= before.push(m@));
        assert(match_views(out@) =~= capture_matches(source@, capture_views(captures@)).take(k + 1));
        k = k + 1;
    }
    assert(capture_matches(source@, capture_views(captures@)).take(captures@.len() as int) =~= capture_matches(source@, capture_views(captures@)));
    out
}

/// The text of an error: the message for its case, naming the file.
pub open spec fn error_message(e: AstQueryError) -> Seq<char> {
    match e {
        AstQueryError::UnsupportedFileType(f) => "Unsupported file type: "@ + f@,
        AstQueryError::NotSupported(f) => "AST query is not supported for file "@ + f@,
        AstQueryError::LanguageNotSupported(n, f) => "AST query is not supported for language '"@ + n@ + "' in file "@ + f@,
        AstQueryError::ParseFailed(f) => "Failed to parse "@ + f@,
        AstQueryError::InvalidQuery(m) => m@,
    }
}

fn concat(parts: &Vec<&str>) -> (r: String)
    ensures
        r@ == parts@.fold_left(Seq::<char>::empty(), |acc: Seq<char>, p: &str| acc + p@),
{
    let mut out: Vec<char> = Vec::new();
    let mut k: usize = 0;
    while k < parts.len()
        invariant
            k <= parts@.len(),
            out@ == parts@.take(k as int).fold_left(Seq::<char>::empty(), |acc: Seq<char>, p: &str| acc + p@),
        decreases parts@.len() - k,
    {
        extend_chars(&mut out, &chars_of(parts[k]));
        assert(parts@.take(k + 1).drop_last() =~= parts@.take(k as int));
        k = k + 1;
    }
    assert(parts@.take(parts@.len() as int) =~= parts@);
    string_from_chars(&out)
}

impl AstQueryError {
    /// The text of the error.
    pub fn message(&self) -> (r: String)
        ensures
            r@ == error_message(*self),
    {
        let parts: Vec<&str> = match self {
            AstQueryError::UnsupportedFileType(f) => vec!["Unsupported file type: ", f.as_str()],
            AstQueryError::NotSupported(f) => vec!["AST query is not supported for file ", f.as_str()],
            AstQueryError::LanguageNotSupported(n, f) => vec!["AST query is not supported for language '", n.as_str(), "' in file ", f.as_str()],
            AstQueryError::ParseFailed(f) => vec!["Failed to parse ", f.as_str()],
            AstQueryError::InvalidQuery(m) => vec![m.as_str()],
        };
        let r = concat(&parts);
        proof {
            reveal_with_fuel(Seq::fold_left, 5);
        }
        r
    }
}

/// The tool that runs tree-sitter queries.
pub struct AstQueryTool;

/// The language of the file a query reads, or the error for a path with no
/// indexed language.
pub fn query_language(file_path: &str) -> (r: Result<Language, AstQueryError>)
    ensures
        language_of_path(file_path@) is None ==> (r matches Err(AstQueryError::UnsupportedFileType(f)) && f@ == file_path@),
        language_of_path(file_path@) matches Some(l) ==> (r matches Ok(x) && x@ == l),
{
    match Language::from_path(file_path) {
        Some(l) => Ok(l),
        None => Err(AstQueryError::UnsupportedFileType(copy_string(file_path))),
    }
}

impl AstQueryTool {
    /// Runs the input's pattern on the source of the input's file: the
    /// captures of every match, in the order tree-sitter reports them.
    /// Files of no indexed language, of a language without a query grammar
    /// (Java, Kotlin, C and C++ have one), sources that do not parse and
    /// patterns that do not compile give their error.
    pub fn query(&self, input: &AstQueryInput, source: &str) -> (r: Result<Vec<AstMatch>, AstQueryError>)
        ensures
            ({
                let file = input.file_path@;
                match language_of_path(file) {
                    None => r matches Err(AstQueryError::UnsupportedFileType(f)) && f@ == file,
                    Some(LanguageView::Other(name)) => r matches Err(AstQueryError::LanguageNotSupported(n, f)) && n@ == name && f@ == file,
                    Some(l) => match ast_grammar(l) {
                        None => r matches Err(AstQueryError::NotSupported(f)) && f@ == file,
                        Some(g) => if !ts_parses(g, source@) {
                            r matches Err(AstQueryError::ParseFailed(f)) && f@ == file
                        } else {
                            match ts_query_error(g, input.pattern@) {
                                Some(msg) => r matches Err(AstQueryError::InvalidQuery(m)) && m@ == msg,
                                None => r matches Ok(v) && match_views(v@) == capture_matches(source@, ts_query_captures(g, source@, input.pattern@)),
                            }
                        },
                    },
                }
            }),
            ({
                let file = input.file_path@;
                (language_of_path(file) == Some(LanguageView::C) || language_of_path(file) == Some(LanguageView::Cpp)) ==> {
                    &&& !(r matches Err(AstQueryError::NotSupported(_)))
                    &&& (ts_parses(Grammar::Cpp, source@) && ts_query_error(Grammar::Cpp, input.pattern@) is None) ==> (r matches Ok(v)
                        && match_views(v@) == capture_matches(source@, ts_query_captures(Grammar::Cpp, source@, input.pattern@)))
                }
            }),
    {
        let file = input.file_path.as_str();
        let lang = match query_language(file) {
            Ok(l) => l,
            Err(e) => {
                return Err(e);
            },
        };
        let g = match lang {
            Language::Java => Grammar::Java,
            Language::Kotlin => Grammar::Kotlin,
            Language::C => Grammar::Cpp,
            Language::Cpp => Grammar::Cpp,
            Language::Other(name) => {
                return Err(AstQueryError::LanguageNotSupported(copy_string(name.as_str()), copy_string(file)));
            },
            _ => {
                return Err(AstQueryError::NotSupported(copy_string(file)));
            },
        };
        let t = match parse_source(g, source) {
            Some(t) => t,
            None => {
                return Err(AstQueryError::ParseFailed(copy_string(file)));
            },
        };
        let q = match compile_query(g, input.pattern.as_str()) {
            Ok(q) => q,
            Err(m) => {
                return Err(AstQueryError::InvalidQuery(m));
            },
        };
        let captures = query_captures(&t, &q, source);
        Ok(matches_from_captures(source, &captures))
    }
}

/// Queries have a grammar exactly for Java, Kotlin, C and C++; C sources
/// are queried with the C++ grammar, as C++ sources are.
pub proof fn law_query_grammars(l: LanguageView)
    ensures
        ast_grammar(l) is Some <==> (l == LanguageView::Java || l == LanguageView::Kotlin || l == LanguageView::C || l
            == LanguageView::Cpp),
        l == LanguageView::Java ==> ast_grammar(l) == Some(Grammar::Java),
        l == LanguageView::Kotlin ==> ast_grammar(l) == Some(Grammar::Kotlin),
        l == LanguageView::C || l == LanguageView::Cpp ==> ast_grammar(l) == Some(Grammar::Cpp),
{
}

} // verus!
