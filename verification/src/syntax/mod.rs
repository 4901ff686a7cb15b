//! Syntax trees from tree-sitter, held as plain values.
//!
//! A parsed file is read node by node in pre-order (tree-sitter's
//! descendant index): each node's kind, the field it fills in its parent,
//! its byte and row/column span, and how many children and descendants it
//! has. The tree shape follows from these counts: the first child of node
//! `i` is `i + 1`, and each next child follows the previous one's subtree.
pub mod walk;

use tree_sitter::StreamingIterator;
use vstd::prelude::*;

use crate::text::{chars_eq, chars_of, utf8_len};

verus! {

#[verifier::external_type_specification]
#[verifier::external_body]
pub struct ExTree(tree_sitter::Tree);

#[verifier::external_type_specification]
#[verifier::external_body]
pub struct ExQuery(tree_sitter::Query);

/// The tree-sitter grammars the extractors use.
#[derive(Clone, Copy, PartialEq, Eq, Debug)]
pub enum Grammar {
    Cpp,
    Go,
    Java,
    Json,
    Kotlin,
    Ruby,
}

/// One node of a syntax tree.
pub struct NodeInfo {
    pub kind: String,
    /// The field of its parent that the node fills, if any.
    pub field: Option<String>,
    pub start_byte: usize,
    pub end_byte: usize,
    pub start_row: usize,
    pub start_col: usize,
    pub end_row: usize,
    pub end_col: usize,
    pub child_count: usize,
    /// The number of nodes of its subtree, itself included.
    pub descendant_count: usize,
}

/// The value a `NodeInfo` holds.
pub struct NodeView {
    pub kind: Seq<char>,
    pub field: Option<Seq<char>>,
    pub start_byte: usize,
    pub end_byte: usize,
    pub start_row: usize,
    pub start_col: usize,
    pub end_row: usize,
    pub end_col: usize,
    pub child_count: usize,
    pub descendant_count: usize,
}

impl View for NodeInfo {
    type V = NodeView;

    open spec fn view(&self) -> NodeView {
        NodeView {
            kind: self.kind@,
            field: match self.field {
                Some(f) => Some(f@),
                None => None,
            },
            start_byte: self.start_byte,
            end_byte: self.end_byte,
            start_row: self.start_row,
            start_col: self.start_col,
            end_row: self.end_row,
            end_col: self.end_col,
            child_count: self.child_count,
            descendant_count: self.descendant_count,
        }
    }
}

/// The values of a list of nodes.
pub open spec fn node_views(v: Seq<NodeInfo>) -> Seq<NodeView> {
    v.map_values(|n: NodeInfo| n@)
}

/// Whether tree-sitter, set to the grammar, parses the source.
pub uninterp spec fn ts_parses(grammar: Grammar, source: Seq<char>) -> bool;

/// The node with the given pre-order index in the tree that tree-sitter
/// builds for the source: `TreeCursor::goto_descendant` from the root, then
/// the node's kind, the cursor's field name, its byte range, start and end
/// points, child count and descendant count.
pub uninterp spec fn ts_node(grammar: Grammar, source: Seq<char>, index: usize) -> NodeView;

/// A tree-sitter tree, with the grammar and source it was parsed from.
pub struct ParsedTree {
    tree: tree_sitter::Tree,
    grammar: Ghost<Grammar>,
    source: Ghost<Seq<char>>,
}

impl View for ParsedTree {
    type V = (Grammar, Seq<char>);

    closed spec fn view(&self) -> (Grammar, Seq<char>) {
        (self.grammar@, self.source@)
    }
}

/// `tree_sitter::Parser::parse` with the grammar's language set: the tree,
/// or `None` when the language cannot be set or the parser gives no tree.
#[verifier::external_body]
pub(crate) fn parse_source(grammar: Grammar, source: &str) -> (r: Option<ParsedTree>)
    ensures
        r is Some <==> ts_parses(grammar, source@),
        r matches Some(t) ==> t@ == (grammar, source@),
{
    let language: tree_sitter::Language = match grammar {
        Grammar::Cpp => tree_sitter_cpp::LANGUAGE.into(),
        Grammar::Go => tree_sitter_go::LANGUAGE.into(),
        Grammar::Java => tree_sitter_java::LANGUAGE.into(),
        Grammar::Json => tree_sitter_json::LANGUAGE.into(),
        Grammar::Kotlin => tree_sitter_kotlin_ng::LANGUAGE.into(),
        Grammar::Ruby => tree_sitter_ruby::LANGUAGE.into(),
    };
    let mut parser = tree_sitter::Parser::new();
    parser.set_language(&language).ok()?;
    let tree = parser.parse(source, None)?;
    Some(ParsedTree { tree, grammar: Ghost(grammar), source: Ghost(source@) })
}

/// `TreeCursor::goto_descendant` on a fresh cursor at the root, then what
/// the cursor and its node report. The result is `ts_node` of the tree's
/// grammar and source and the index.
#[verifier::external_body]
pub(crate) fn node_at(t: &ParsedTree, index: usize) -> (r: NodeInfo)
    ensures
        r@ == ts_node(t@.0, t@.1, index),
{
    let mut cursor = t.tree.walk();
    cursor.goto_descendant(index);
    let n = cursor.node();
    let field = match cursor.field_name() { Some(f) => Some(f.to_string()), None => None };
    let (s, e) = (n.start_position(), n.end_position());
    NodeInfo {
        kind: n.kind().to_string(), field, start_byte: n.start_byte(), end_byte: n.end_byte(),
        start_row: s.row, start_col: s.column, end_row: e.row, end_col: e.column,
        child_count: n.child_count() as usize, descendant_count: n.descendant_count(),
    }
}

/// The nodes of the tree tree-sitter builds, in pre-order: as many as the
/// root's descendant count.
pub open spec fn tree_nodes(grammar: Grammar, source: Seq<char>) -> Seq<NodeView> {
    let n = ts_node(grammar, source, 0).descendant_count;
    Seq::new(n as nat, |i: int| ts_node(grammar, source, i as usize))
}

/// Parses the source and reads all its nodes in pre-order.
pub fn syntax_nodes(grammar: Grammar, source: &str) -> (r: Option<Vec<NodeInfo>>)
    ensures
        r is Some <==> ts_parses(grammar, source@),
        r matches Some(v) ==> node_views(v@) == tree_nodes(grammar, source@),
{
    let t = match parse_source(grammar, source) {
        Some(t) => t,
        None => {
            return None;
        },
    };
    let root = node_at(&t, 0);
    let n = root.descendant_count;
    let mut out: Vec<NodeInfo> = Vec::new();
    let mut i: usize = 0;
    while i < n
        invariant
            i <= n,
            t@ == (grammar, source@),
            n == ts_node(grammar, source@, 0).descendant_count,
            node_views(out@) == tree_nodes(grammar, source@).take(i as int),
        decreases n - i,
    {
        let node = node_at(&t, i);
        let ghost before = node_views(out@);
        out.push(node);
        assert(node_views(out@) =~= before.push(node@));
        assert(node_views(out@) =~= tree_nodes(grammar, source@).take(i + 1));
        i = i + 1;
    }
    assert(tree_nodes(grammar, source@).take(n as int) =~= tree_nodes(grammar, source@));
    Some(out)
}

// ---------------------------------------------------------------------------
// Byte offsets and text
// ---------------------------------------------------------------------------
/// The char index at which byte offset `b` falls on a char boundary.
pub open spec fn char_at_byte(src: Seq<char>, b: int) -> Option<int> {
    if exists|a: int| 0 <= a <= src.len() && utf8_len(src.take(a)) == b {
        Some(choose|a: int| 0 <= a <= src.len() && utf8_len(src.take(a)) == b)
    } else {
        None
    }
}

/// `source.get(start..end).unwrap_or("")`: the text between two byte
/// offsets, empty unless both fall on char boundaries in order.
pub open spec fn byte_slice(src: Seq<char>, start: int, end: int) -> Seq<char> {
    match (char_at_byte(src, start), char_at_byte(src, end)) {
        (Some(a), Some(b)) => if a <= b {
            src.subrange(a, b)
        } else {
            seq![]
        },
        _ => seq![],
    }
}

/// The text of a node.
pub open spec fn node_text(src: Seq<char>, n: NodeView) -> Seq<char> {
    byte_slice(src, n.start_byte as int, n.end_byte as int)
}

proof fn lemma_utf8_len_strict(src: Seq<char>, a: int, b: int)
    requires
        0 <= a < b <= src.len(),
    ensures
        utf8_len(src.take(a)) < utf8_len(src.take(b)),
    decreases b - a,
{
    assert(src.take(b).drop_last() =~= src.take(b - 1));
    if a < b - 1 {
        lemma_utf8_len_strict(src, a, b - 1);
    }
}

/// The byte offset of each char boundary of a text.
pub struct ByteIndex {
    pub offsets: Vec<u128>,
}

/// The byte offsets of the char boundaries of `src`.
pub open spec fn is_byte_index(ix: Seq<u128>, src: Seq<char>) -> bool {
    &&& ix.len() == src.len() + 1
    &&& forall|a: int| 0 <= a <= src.len() ==> ix[a] == utf8_len(src.take(a))
}

/// Computes the byte offset of each char boundary.
pub fn byte_index(src: &[char]) -> (r: ByteIndex)
    ensures
        is_byte_index(r.offsets@, src@),
{
    let mut offsets: Vec<u128> = Vec::new();
    let mut acc: u128 = 0;
    offsets.push(0);
    assert(src@.take(0) =~= Seq::<char>::empty());
    let mut i: usize = 0;
    while i < src.len()
        invariant
            i <= src@.len(),
            offsets@.len() == i + 1,
            acc == utf8_len(src@.take(i as int)),
            acc <= 4 * i,
            forall|a: int| 0 <= a <= i ==> offsets@[a] == utf8_len(src@.take(a)),
        decreases src@.len() - i,
    {
        let u = src[i] as u32;
        let w: u128 = if u < 0x80 {
            1
        } else if u < 0x800 {
            2
        } else if u < 0x10000 {
            3
        } else {
            4
        };
        assert(src@.take(i + 1).drop_last() =~= src@.take(i as int));
        acc = acc + w;
        offsets.push(acc);
        i = i + 1;
    }
    ByteIndex { offsets }
}

/// The char index at which a byte offset falls on a char boundary.
pub fn char_at_byte_exec(ix: &ByteIndex, src: &[char], b: usize) -> (r: Option<usize>)
    requires
        is_byte_index(ix.offsets@, src@),
    ensures
        r is Some <==> char_at_byte(src@, b as int) is Some,
        r matches Some(a) ==> char_at_byte(src@, b as int) == Some(a as int) && a <= src@.len(),
{
    let n = src.len();
    let mut lo: usize = 0;
    let mut hi: usize = ix.offsets.len();
    assert(hi == n + 1);
    while lo < hi
        invariant
            lo <= hi <= n + 1,
            n == src@.len(),
            is_byte_index(ix.offsets@, src@),
            forall|a: int| 0 <= a < lo ==> utf8_len(src@.take(a)) < b,
            forall|a: int| hi <= a <= n ==> utf8_len(src@.take(a)) > b,
        decreases hi - lo,
    {
        let mid = lo + (hi - lo) / 2;
        let v = ix.offsets[mid];
        if v == b as u128 {
            proof {
                assert forall|a: int| 0 <= a <= n && utf8_len(src@.take(a)) == b implies a == mid by {
                    if a < mid {
                        lemma_utf8_len_strict(src@, a, mid as int);
                    } else if a > mid {
                        lemma_utf8_len_strict(src@, mid as int, a);
                    }
                }
            }
            return Some(mid);
        } else if v < b as u128 {
            proof {
                assert forall|a: int| 0 <= a < mid + 1 implies utf8_len(src@.take(a)) < b by {
                    if a < mid {
                        lemma_utf8_len_strict(src@, a, mid as int);
                    }
                }
            }
            lo = mid + 1;
        } else {
            proof {
                assert forall|a: int| mid <= a <= n implies utf8_len(src@.take(a)) > b by {
                    if a > mid {
                        lemma_utf8_len_strict(src@, mid as int, a);
                    }
                }
            }
            hi = mid;
        }
    }
    assert(!exists|a: int| 0 <= a <= src@.len() && utf8_len(src@.take(a)) == b);
    None
}

/// `source.get(start..end).unwrap_or("")` on chars.
pub fn byte_slice_exec(ix: &ByteIndex, src: &[char], start: usize, end: usize) -> (r: Vec<char>)
    requires
        is_byte_index(ix.offsets@, src@),
    ensures
        r@ == byte_slice(src@, start as int, end as int),
{
    let a = char_at_byte_exec(ix, src, start);
    let b = char_at_byte_exec(ix, src, end);
    match (a, b) {
        (Some(a), Some(b)) => {
            if a <= b {
                let mut out: Vec<char> = Vec::new();
                let mut k: usize = a;
                while k < b
                    invariant
                        a <= k <= b <= src@.len(),
                        out@ == src@.subrange(a as int, k as int),
                    decreases b - k,
                {
                    out.push(src[k]);
                    k = k + 1;
                    assert(out@ =~= src@.subrange(a as int, k as int));
                }
                out
            } else {
                Vec::new()
            }
        },
        _ => Vec::new(),
    }
}

/// The text of a node.
pub fn node_text_exec(ix: &ByteIndex, src: &[char], n: &NodeInfo) -> (r: Vec<char>)
    requires
        is_byte_index(ix.offsets@, src@),
    ensures
        r@ == node_text(src@, n@),
{
    byte_slice_exec(ix, src, n.start_byte, n.end_byte)
}

/// Whether a node's kind is the given text.
pub fn kind_is(n: &NodeInfo, kind: &str) -> (r: bool)
    ensures
        r == (n@.kind == kind@),
{
    chars_eq(&chars_of(n.kind.as_str()), &chars_of(kind))
}

// ---------------------------------------------------------------------------
// Queries
// ---------------------------------------------------------------------------
/// The error message tree-sitter gives for a query pattern it cannot
/// compile for the grammar; `None` when the pattern compiles.
pub uninterp spec fn ts_query_error(grammar: Grammar, pattern: Seq<char>) -> Option<Seq<char>>;

/// One capture of a query match: the capture's name and the span of the
/// captured node.
pub struct CaptureInfo {
    pub name: String,
    pub start_byte: usize,
    pub end_byte: usize,
    pub start_row: usize,
    pub start_col: usize,
    pub end_row: usize,
    pub end_col: usize,
}

/// The value a `CaptureInfo` holds.
pub struct CaptureView {
    pub name: Seq<char>,
    pub start_byte: usize,
    pub end_byte: usize,
    pub start_row: usize,
    pub start_col: usize,
    pub end_row: usize,
    pub end_col: usize,
}

impl View for CaptureInfo {
    type V = CaptureView;

    open spec fn view(&self) -> CaptureView {
        CaptureView {
            name: self.name@,
            start_byte: self.start_byte,
            end_byte: self.end_byte,
            start_row: self.start_row,
            start_col: self.start_col,
            end_row: self.end_row,
            end_col: self.end_col,
        }
    }
}

/// The values of a list of captures.
pub open spec fn capture_views(v: Seq<CaptureInfo>) -> Seq<CaptureView> {
    v.map_values(|c: CaptureInfo| c@)
}

/// The captures of all matches of a query pattern on the tree tree-sitter
/// builds for the source, in the order the query cursor reports them.
pub uninterp spec fn ts_query_captures(grammar: Grammar, source: Seq<char>, pattern: Seq<char>) -> Seq<CaptureView>;

/// A compiled tree-sitter query, with the grammar and pattern it was
/// compiled from.
pub struct CompiledQuery {
    query: tree_sitter::Query,
    grammar: Ghost<Grammar>,
    pattern: Ghost<Seq<char>>,
}

impl View for CompiledQuery {
    type V = (Grammar, Seq<char>);

    closed spec fn view(&self) -> (Grammar, Seq<char>) {
        (self.grammar@, self.pattern@)
    }
}

/// `tree_sitter::Query::new` for the grammar's language: the compiled
/// query, or the message of the `QueryError`.
#[verifier::external_body]
pub(crate) fn compile_query(grammar: Grammar, pattern: &str) -> (r: Result<CompiledQuery, String>)
    ensures
        r is Ok <==> ts_query_error(grammar, pattern@) is None,
        r matches Ok(q) ==> q@ == (grammar, pattern@),
        r matches Err(e) ==> ts_query_error(grammar, pattern@) == Some(e@),
{
    let language: tree_sitter::Language = match grammar {
        Grammar::Cpp => tree_sitter_cpp::LANGUAGE.into(),
        Grammar::Go => tree_sitter_go::LANGUAGE.into(),
        Grammar::Java => tree_sitter_java::LANGUAGE.into(),
        Grammar::Json => tree_sitter_json::LANGUAGE.into(),
        Grammar::Kotlin => tree_sitter_kotlin_ng::LANGUAGE.into(),
        Grammar::Ruby => tree_sitter_ruby::LANGUAGE.into(),
    };
    match tree_sitter::Query::new(&language, pattern) {
        Ok(query) => Ok(CompiledQuery { query, grammar: Ghost(grammar), pattern: Ghost(pattern@) }),
        Err(e) => Err(e.to_string()),
    }
}

/// `QueryCursor::matches` from the root of the tree: each capture of each
/// match, named by `Query::capture_names`, with the captured node's span.
#[verifier::external_body]
pub(crate) fn query_captures(t: &ParsedTree, q: &CompiledQuery, source: &str) -> (r: Vec<CaptureInfo>)
    requires
        t@.0 == q@.0,
        t@.1 == source@,
    ensures
        capture_views(r@) == ts_query_captures(t@.0, t@.1, q@.1),
{
    let mut cursor = tree_sitter::QueryCursor::new();
    let mut matches = cursor.matches(&q.query, t.tree.root_node(), source.as_bytes());
    let mut out = Vec::new();
    while let Some(m) = matches.next() {
        for c in m.captures() {
            let (n, name) = (c.node, q.query.capture_names()[c.index as usize]);
            let (s, e) = (n.start_position(), n.end_position());
            out.push(CaptureInfo { name: name.to_string(), start_byte: n.start_byte(), end_byte: n.end_byte(), start_row: s.row, start_col: s.column, end_row: e.row, end_col: e.column });
        }
    }
    out
}

} // verus!
