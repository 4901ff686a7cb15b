//! The tree-sitter based extractors: what each grammar's visitor records
//! for a node and which container it passes to the node's children.
use vstd::prelude::*;

use crate::symbol::{symbol_views, Symbol, SymbolView};
use crate::syntax::walk::{
    children, children_exec, children_size, continuation, field_child, field_child_exec,
    lemma_children_bounds, walk, walk_size, walk_tree,
};
use crate::syntax::{
    byte_index, is_byte_index, kind_is, node_text, node_text_exec, node_views, syntax_nodes,
    tree_nodes, ts_parses, ByteIndex, Grammar, NodeInfo, NodeView,
};
use crate::text::{chars_of, copy_chars, extend_chars, string_from_chars, trim, trim_chars};

verus! {

// ---------------------------------------------------------------------------
// Shared pieces
// ---------------------------------------------------------------------------
/// The symbol recorded for a node: its start and end points (row and
/// column, cast to `u32`).
pub open spec fn node_symbol(name: Seq<char>, kind: Seq<char>, n: NodeView, container: Seq<char>, signature: Seq<char>) -> SymbolView {
    SymbolView {
        name,
        kind,
        start_line: n.start_row as u32,
        start_col: n.start_col as u32,
        end_line: n.end_row as u32,
        end_col: n.end_col as u32,
        container,
        signature,
    }
}

/// A name nested in a container: the name alone at top level, else
/// `container`, the separator, and the name.
pub open spec fn nested(container: Seq<char>, sep: Seq<char>, name: Seq<char>) -> Seq<char> {
    if container.len() == 0 {
        name
    } else {
        container + sep + name
    }
}

/// The text of the node filling a field of node `i`.
pub open spec fn field_text(nodes: Seq<NodeView>, src: Seq<char>, i: int, f: Seq<char>) -> Option<Seq<char>> {
    match field_child(nodes, i, f) {
        Some(j) => Some(node_text(src, nodes[j])),
        None => None,
    }
}

/// The text of the node filling a field, empty when there is none.
pub open spec fn field_text_or_empty(nodes: Seq<NodeView>, src: Seq<char>, i: int, f: Seq<char>) -> Seq<char> {
    match field_text(nodes, src, i, f) {
        Some(t) => t,
        None => seq![],
    }
}

fn make_node_symbol(name: &[char], kind: &str, n: &NodeInfo, container: &[char], signature: &[char]) -> (r: Symbol)
    ensures
        r@ == node_symbol(name@, kind@, n@, container@, signature@),
{
    Symbol {
        name: string_from_chars(name),
        kind: String::from_str(kind),
        start_line: n.start_row as u32,
        start_col: n.start_col as u32,
        end_line: n.end_row as u32,
        end_col: n.end_col as u32,
        container: string_from_chars(container),
        signature: string_from_chars(signature),
    }
}

fn nested_exec(container: &[char], sep: &str, name: &[char]) -> (r: Vec<char>)
    ensures
        r@ == nested(container@, sep@, name@),
{
    if container.len() == 0 {
        copy_chars(name)
    } else {
        let mut out = copy_chars(container);
        extend_chars(&mut out, &chars_of(sep));
        extend_chars(&mut out, name);
        out
    }
}

fn field_text_exec(nodes: &Vec<NodeInfo>, src: &[char], ix: &ByteIndex, i: usize, f: &str) -> (r: Option<Vec<char>>)
    requires
        i < nodes@.len(),
        is_byte_index(ix.offsets@, src@),
    ensures
        r is None <==> field_text(node_views(nodes@), src@, i as int, f@) is None,
        r matches Some(t) ==> field_text(node_views(nodes@), src@, i as int, f@) == Some(t@),
{
    match field_child_exec(nodes, i, f) {
        Some(j) => {
            assert(node_views(nodes@)[j as int] == nodes@[j as int]@);
            Some(node_text_exec(ix, src, &nodes[j]))
        },
        None => None,
    }
}

fn field_text_or_empty_exec(nodes: &Vec<NodeInfo>, src: &[char], ix: &ByteIndex, i: usize, f: &str) -> (r: Vec<char>)
    requires
        i < nodes@.len(),
        is_byte_index(ix.offsets@, src@),
    ensures
        r@ == field_text_or_empty(node_views(nodes@), src@, i as int, f@),
{
    match field_text_exec(nodes, src, ix, i, f) {
        Some(t) => t,
        None => Vec::new(),
    }
}

fn one(s: Symbol) -> (r: Vec<Symbol>)
    ensures
        symbol_views(r@) == seq![s@],
{
    let mut v: Vec<Symbol> = Vec::new();
    v.push(s);
    assert(symbol_views(v@) =~= seq![s@]);
    v
}

fn none() -> (r: Vec<Symbol>)
    ensures
        symbol_views(r@) == Seq::<SymbolView>::empty(),
{
    let v: Vec<Symbol> = Vec::new();
    assert(symbol_views(v@) =~= Seq::<SymbolView>::empty());
    v
}

// ---------------------------------------------------------------------------
// JSON
// ---------------------------------------------------------------------------
/// The text with leading `"` removed.
pub open spec fn trim_quotes_start(s: Seq<char>) -> Seq<char>
    decreases s.len(),
{
    if s.len() > 0 && s[0] == '"' {
        trim_quotes_start(s.drop_first())
    } else {
        s
    }
}

/// The text with trailing `"` removed.
pub open spec fn trim_quotes_end(s: Seq<char>) -> Seq<char>
    decreases s.len(),
{
    if s.len() > 0 && s.last() == '"' {
        trim_quotes_end(s.drop_last())
    } else {
        s
    }
}

/// `trim_matches('"')`.
pub open spec fn trim_quotes(s: Seq<char>) -> Seq<char> {
    trim_quotes_end(trim_quotes_start(s))
}

proof fn lemma_trim_quotes_start_skip(s: Seq<char>, i: int)
    requires
        0 <= i <= s.len(),
        forall|j: int| 0 <= j < i ==> s[j] == '"',
    ensures
        trim_quotes_start(s) == trim_quotes_start(s.subrange(i, s.len() as int)),
    decreases i,
{
    if i > 0 {
        assert(s.drop_first().subrange(i - 1, s.drop_first().len() as int) =~= s.subrange(i, s.len() as int));
        lemma_trim_quotes_start_skip(s.drop_first(), i - 1);
    } else {
        assert(s.subrange(0, s.len() as int) =~= s);
    }
}

proof fn lemma_trim_quotes_end_cut(s: Seq<char>, j: int)
    requires
        0 <= j <= s.len(),
        forall|k: int| j <= k < s.len() ==> s[k] == '"',
    ensures
        trim_quotes_end(s) == trim_quotes_end(s.take(j)),
    decreases s.len() - j,
{
    if j < s.len() {
        assert(s.drop_last().take(j) =~= s.take(j));
        lemma_trim_quotes_end_cut(s.drop_last(), j);
    } else {
        assert(s.take(j) =~= s);
    }
}

fn trim_quotes_exec(s: &[char]) -> (r: Vec<char>)
    ensures
        r@ == trim_quotes(s@),
{
    let n = s.len();
    let mut i: usize = 0;
    while i < n && s[i] == '"'
        invariant
            i <= n,
            n == s@.len(),
            forall|j: int| 0 <= j < i ==> s@[j] == '"',
        decreases n - i,
    {
        i = i + 1;
    }
    proof {
        lemma_trim_quotes_start_skip(s@, i as int);
    }
    let ghost mid = s@.subrange(i as int, n as int);
    let mut j: usize = n;
    while j > i && s[j - 1] == '"'
        invariant
            i <= j <= n,
            n == s@.len(),
            forall|k: int| j <= k < n ==> s@[k] == '"',
        decreases j,
    {
        j = j - 1;
    }
    proof {
        lemma_trim_quotes_end_cut(mid, (j - i) as int);
        assert(mid.take((j - i) as int) =~= s@.subrange(i as int, j as int));
    }
    let mut r: Vec<char> = Vec::new();
    let mut k: usize = i;
    while k < j
        invariant
            i <= k <= j <= n,
            n == s@.len(),
            r@ == s@.subrange(i as int, k as int),
        decreases j - k,
    {
        r.push(s[k]);
        k = k + 1;
        assert(r@ =~= s@.subrange(i as int, k as int));
    }
    r
}

/// A JSON `pair` records its key (quotes trimmed) with the kind of its
/// value as signature, and nests what it holds under the dotted key path.
pub open spec fn visit_json(nodes: Seq<NodeView>, src: Seq<char>, i: int, container: Seq<char>) -> (Seq<SymbolView>, Option<Seq<char>>) {
    let n = nodes[i];
    if n.kind == "pair"@ && field_child(nodes, i, "key"@) is Some {
        let k = field_child(nodes, i, "key"@)->0;
        let key = trim_quotes(node_text(src, nodes[k]));
        let value_kind = match field_child(nodes, i, "value"@) {
            Some(v) => nodes[v].kind,
            None => seq![],
        };
        (seq![node_symbol(key, "key"@, nodes[k], container, value_kind)], Some(nested(container, "."@, key)))
    } else {
        (seq![], None)
    }
}

fn visit_json_exec(nodes: &Vec<NodeInfo>, src: &[char], ix: &ByteIndex, i: usize, container: &Vec<char>) -> (r: (Vec<Symbol>, Option<Vec<char>>))
    requires
        i < nodes@.len(),
        is_byte_index(ix.offsets@, src@),
    ensures
        symbol_views(r.0@) == visit_json(node_views(nodes@), src@, i as int, container@).0,
        r.1 is None <==> visit_json(node_views(nodes@), src@, i as int, container@).1 is None,
        r.1 matches Some(c) ==> visit_json(node_views(nodes@), src@, i as int, container@).1 == Some(c@),
{
    let ghost nv = node_views(nodes@);
    assert(nv[i as int] == nodes@[i as int]@);
    if kind_is(&nodes[i], "pair") {
        match field_child_exec(nodes, i, "key") {
            Some(k) => {
                assert(nv[k as int] == nodes@[k as int]@);
                let key = trim_quotes_exec(&node_text_exec(ix, src, &nodes[k]));
                let value_kind = match field_child_exec(nodes, i, "value") {
                    Some(v) => {
                        assert(nv[v as int] == nodes@[v as int]@);
                        chars_of(nodes[v].kind.as_str())
                    },
                    None => Vec::new(),
                };
                let sym = make_node_symbol(&key, "key", &nodes[k], container, &value_kind);
                let next = nested_exec(container, ".", &key);
                return (one(sym), Some(next));
            },
            None => {},
        }
    }
    (none(), None)
}

// ---------------------------------------------------------------------------
// Kotlin
// ---------------------------------------------------------------------------
/// The signature of a Kotlin function: `fun name(params)`, with
/// `: ReturnType` when it declares one.
pub open spec fn kotlin_fn_signature(nodes: Seq<NodeView>, src: Seq<char>, i: int) -> Seq<char> {
    let name = field_text_or_empty(nodes, src, i, "name"@);
    let params = field_text_or_empty(nodes, src, i, "function_value_parameters"@);
    let ret = field_text_or_empty(nodes, src, i, "return_type"@);
    if ret.len() == 0 {
        "fun "@ + name + params
    } else {
        "fun "@ + name + params + ": "@ + ret
    }
}

/// Kotlin: classes, objects and interfaces (nesting their members under
/// the dotted type path), functions and properties.
pub open spec fn visit_kotlin(nodes: Seq<NodeView>, src: Seq<char>, i: int, container: Seq<char>) -> (Seq<SymbolView>, Option<Seq<char>>) {
    let n = nodes[i];
    let name = field_text(nodes, src, i, "name"@);
    if (n.kind == "class_declaration"@ || n.kind == "object_declaration"@ || n.kind == "interface_declaration"@) && name is Some {
        let kind = if n.kind == "object_declaration"@ {
            "object"@
        } else if n.kind == "interface_declaration"@ {
            "interface"@
        } else {
            "class"@
        };
        (seq![node_symbol(name->0, kind, n, container, seq![])], Some(nested(container, "."@, name->0)))
    } else if n.kind == "function_declaration"@ && name is Some {
        (seq![node_symbol(name->0, "function"@, n, container, kotlin_fn_signature(nodes, src, i))], None)
    } else if n.kind == "property_declaration"@ && name is Some {
        (seq![node_symbol(name->0, "property"@, n, container, seq![])], None)
    } else {
        (seq![], None)
    }
}

fn visit_kotlin_exec(nodes: &Vec<NodeInfo>, src: &[char], ix: &ByteIndex, i: usize, container: &Vec<char>) -> (r: (Vec<Symbol>, Option<Vec<char>>))
    requires
        i < nodes@.len(),
        is_byte_index(ix.offsets@, src@),
    ensures
        symbol_views(r.0@) == visit_kotlin(node_views(nodes@), src@, i as int, container@).0,
        r.1 is None <==> visit_kotlin(node_views(nodes@), src@, i as int, container@).1 is None,
        r.1 matches Some(c) ==> visit_kotlin(node_views(nodes@), src@, i as int, container@).1 == Some(c@),
{
    let ghost nv = node_views(nodes@);
    assert(nv[i as int] == nodes@[i as int]@);
    let n = &nodes[i];
    let is_type = kind_is(n, "class_declaration") || kind_is(n, "object_declaration") || kind_is(n, "interface_declaration");
    let is_fn = kind_is(n, "function_declaration");
    let is_prop = kind_is(n, "property_declaration");
    if !is_type && !is_fn && !is_prop {
        return (none(), None);
    }
    let name = match field_text_exec(nodes, src, ix, i, "name") {
        Some(t) => t,
        None => {
            return (none(), None);
        },
    };
    if is_type {
        let kind = if kind_is(n, "object_declaration") {
            "object"
        } else if kind_is(n, "interface_declaration") {
            "interface"
        } else {
            "class"
        };
        let sym = make_node_symbol(&name, kind, n, container, &Vec::new());
        let next = nested_exec(container, ".", &name);
        (one(sym), Some(next))
    } else if is_fn {
        let params = field_text_or_empty_exec(nodes, src, ix, i, "function_value_parameters");
        let ret = field_text_or_empty_exec(nodes, src, ix, i, "return_type");
        let mut sig = chars_of("fun ");
        extend_chars(&mut sig, &name);
        extend_chars(&mut sig, &params);
        if ret.len() > 0 {
            extend_chars(&mut sig, &chars_of(": "));
            extend_chars(&mut sig, &ret);
        }
        let sym = make_node_symbol(&name, "function", n, container, &sig);
        (one(sym), None)
    } else {
        let sym = make_node_symbol(&name, "property", n, container, &Vec::new());
        (one(sym), None)
    }
}

// ---------------------------------------------------------------------------
// Ruby
// ---------------------------------------------------------------------------
/// Ruby: classes and modules (nesting their members under the `::` path,
/// with their whole text as signature), and methods.
pub open spec fn visit_ruby(nodes: Seq<NodeView>, src: Seq<char>, i: int, container: Seq<char>) -> (Seq<SymbolView>, Option<Seq<char>>) {
    let n = nodes[i];
    let name = field_text(nodes, src, i, "name"@);
    if (n.kind == "class"@ || n.kind == "module"@) && name is Some {
        let kind = if n.kind == "class"@ { "class"@ } else { "module"@ };
        (seq![node_symbol(name->0, kind, n, container, node_text(src, n))], Some(nested(container, "::"@, name->0)))
    } else if (n.kind == "method"@ || n.kind == "singleton_method"@) && name is Some {
        (seq![node_symbol(name->0, "method"@, n, container, node_text(src, n))], None)
    } else {
        (seq![], None)
    }
}

fn visit_ruby_exec(nodes: &Vec<NodeInfo>, src: &[char], ix: &ByteIndex, i: usize, container: &Vec<char>) -> (r: (Vec<Symbol>, Option<Vec<char>>))
    requires
        i < nodes@.len(),
        is_byte_index(ix.offsets@, src@),
    ensures
        symbol_views(r.0@) == visit_ruby(node_views(nodes@), src@, i as int, container@).0,
        r.1 is None <==> visit_ruby(node_views(nodes@), src@, i as int, container@).1 is None,
        r.1 matches Some(c) ==> visit_ruby(node_views(nodes@), src@, i as int, container@).1 == Some(c@),
{
    let ghost nv = node_views(nodes@);
    assert(nv[i as int] == nodes@[i as int]@);
    let n = &nodes[i];
    let is_type = kind_is(n, "class") || kind_is(n, "module");
    let is_method = kind_is(n, "method") || kind_is(n, "singleton_method");
    if !is_type && !is_method {
        return (none(), None);
    }
    let name = match field_text_exec(nodes, src, ix, i, "name") {
        Some(t) => t,
        None => {
            return (none(), None);
        },
    };
    let sig = node_text_exec(ix, src, n);
    if is_type {
        let kind = if kind_is(n, "class") { "class" } else { "module" };
        let sym = make_node_symbol(&name, kind, n, container, &sig);
        let next = nested_exec(container, "::", &name);
        (one(sym), Some(next))
    } else {
        let sym = make_node_symbol(&name, "method", n, container, &sig);
        (one(sym), None)
    }
}

// ---------------------------------------------------------------------------
// Go
// ---------------------------------------------------------------------------
/// The variables a Go `var_spec` or `const_spec` declares: one symbol per
/// identifier child, in order, with the spec's text as signature.
pub open spec fn go_identifiers(nodes: Seq<NodeView>, src: Seq<char>, i: int, cs: Seq<int>, container: Seq<char>) -> Seq<SymbolView>
    decreases cs.len(),
{
    if cs.len() == 0 {
        seq![]
    } else {
        let prev = go_identifiers(nodes, src, i, cs.drop_last(), container);
        let c = cs.last();
        if nodes[c].kind == "identifier"@ {
            prev.push(node_symbol(node_text(src, nodes[c]), "variable"@, nodes[c], container, node_text(src, nodes[i])))
        } else {
            prev
        }
    }
}

/// Go: the package (which becomes the container of everything below it),
/// types (struct, interface or other), functions, methods, variables and
/// constants; each with its text as signature.
pub open spec fn visit_go(nodes: Seq<NodeView>, src: Seq<char>, i: int, container: Seq<char>) -> (Seq<SymbolView>, Option<Seq<char>>) {
    let n = nodes[i];
    let name = field_text(nodes, src, i, "name"@);
    if n.kind == "package_clause"@ && name is Some {
        (seq![], Some(name->0))
    } else if n.kind == "type_spec"@ && name is Some {
        let kind = match field_child(nodes, i, "type"@) {
            Some(t) => if nodes[t].kind == "struct_type"@ {
                "struct"@
            } else if nodes[t].kind == "interface_type"@ {
                "interface"@
            } else {
                "type"@
            },
            None => "type"@,
        };
        (seq![node_symbol(name->0, kind, n, container, node_text(src, n))], None)
    } else if n.kind == "function_declaration"@ && name is Some {
        (seq![node_symbol(name->0, "function"@, n, container, node_text(src, n))], None)
    } else if n.kind == "method_declaration"@ && name is Some {
        (seq![node_symbol(name->0, "method"@, n, container, node_text(src, n))], None)
    } else if n.kind == "var_spec"@ || n.kind == "const_spec"@ {
        (go_identifiers(nodes, src, i, children(nodes, i), container), None)
    } else {
        (seq![], None)
    }
}

fn go_identifiers_exec(nodes: &Vec<NodeInfo>, src: &[char], ix: &ByteIndex, i: usize, container: &Vec<char>) -> (r: Vec<Symbol>)
    requires
        i < nodes@.len(),
        is_byte_index(ix.offsets@, src@),
    ensures
        symbol_views(r@) == go_identifiers(node_views(nodes@), src@, i as int, children(node_views(nodes@), i as int), container@),
{
    let ghost nv = node_views(nodes@);
    let cs = children_exec(nodes, i);
    proof {
        lemma_children_bounds(nv, i as int);
    }
    let ghost csv = cs@.map_values(|x: usize| x as int);
    assert(nv[i as int] == nodes@[i as int]@);
    let sig = node_text_exec(ix, src, &nodes[i]);
    let mut out: Vec<Symbol> = Vec::new();
    let mut k: usize = 0;
    while k < cs.len()
        invariant
            k <= cs@.len(),
            csv == cs@.map_values(|x: usize| x as int),
            csv == children(nv, i as int),
            nv == node_views(nodes@),
            is_byte_index(ix.offsets@, src@),
            i < nodes@.len(),
            sig@ == node_text(src@, nv[i as int]),
            forall|m: int| 0 <= m < csv.len() ==> (i as int) < #[trigger] csv[m] < nodes@.len(),
            symbol_views(out@) == go_identifiers(nv, src@, i as int, csv.take(k as int), container@),
        decreases cs@.len() - k,
    {
        let c = cs[k];
        assert(csv[k as int] == c as int);
        assert(csv.take(k + 1).drop_last() =~= csv.take(k as int));
        assert(csv.take(k + 1).last() == c as int);
        assert(nv[c as int] == nodes@[c as int]@);
        if kind_is(&nodes[c], "identifier") {
            let name = node_text_exec(ix, src, &nodes[c]);
            let sym = make_node_symbol(&name, "variable", &nodes[c], container, &sig);
            let ghost before = symbol_views(out@);
            out.push(sym);
            assert(symbol_views(out@) =~= before.push(sym@));
        }
        k = k + 1;
    }
    assert(csv.take(csv.len() as int) =~= csv);
    out
}

fn visit_go_exec(nodes: &Vec<NodeInfo>, src: &[char], ix: &ByteIndex, i: usize, container: &Vec<char>) -> (r: (Vec<Symbol>, Option<Vec<char>>))
    requires
        i < nodes@.len(),
        is_byte_index(ix.offsets@, src@),
    ensures
        symbol_views(r.0@) == visit_go(node_views(nodes@), src@, i as int, container@).0,
        r.1 is None <==> visit_go(node_views(nodes@), src@, i as int, container@).1 is None,
        r.1 matches Some(c) ==> visit_go(node_views(nodes@), src@, i as int, container@).1 == Some(c@),
{
    let ghost nv = node_views(nodes@);
    assert(nv[i as int] == nodes@[i as int]@);
    let n = &nodes[i];
    let is_pkg = kind_is(n, "package_clause");
    let is_type = kind_is(n, "type_spec");
    let is_fn = kind_is(n, "function_declaration");
    let is_method = kind_is(n, "method_declaration");
    if is_pkg || is_type || is_fn || is_method {
        match field_text_exec(nodes, src, ix, i, "name") {
            Some(name) => {
                if is_pkg {
                    return (none(), Some(name));
                }
                let sig = node_text_exec(ix, src, n);
                if is_type {
                    let kind = match field_child_exec(nodes, i, "type") {
                        Some(t) => {
                            assert(nv[t as int] == nodes@[t as int]@);
                            if kind_is(&nodes[t], "struct_type") {
                                "struct"
                            } else if kind_is(&nodes[t], "interface_type") {
                                "interface"
                            } else {
                                "type"
                            }
                        },
                        None => "type",
                    };
                    return (one(make_node_symbol(&name, kind, n, container, &sig)), None);
                } else if is_fn {
                    return (one(make_node_symbol(&name, "function", n, container, &sig)), None);
                } else {
                    return (one(make_node_symbol(&name, "method", n, container, &sig)), None);
                }
            },
            None => {},
        }
    }
    if kind_is(n, "var_spec") || kind_is(n, "const_spec") {
        return (go_identifiers_exec(nodes, src, ix, i, container), None);
    }
    (none(), None)
}

// ---------------------------------------------------------------------------
// Java
// ---------------------------------------------------------------------------
/// The signature of a Java method or constructor: return type, a space,
/// name and parameter list, trimmed.
pub open spec fn java_method_signature(nodes: Seq<NodeView>, src: Seq<char>, i: int) -> Seq<char> {
    let ret = field_text_or_empty(nodes, src, i, "type"@);
    let name = field_text_or_empty(nodes, src, i, "name"@);
    let params = field_text_or_empty(nodes, src, i, "parameters"@);
    trim(ret + " "@ + name + params)
}

/// The fields a Java `field_declaration` declares: one symbol per named
/// `variable_declarator` child, in order, spanning the whole declaration.
pub open spec fn java_fields(nodes: Seq<NodeView>, src: Seq<char>, i: int, cs: Seq<int>, container: Seq<char>) -> Seq<SymbolView>
    decreases cs.len(),
{
    if cs.len() == 0 {
        seq![]
    } else {
        let prev = java_fields(nodes, src, i, cs.drop_last(), container);
        let c = cs.last();
        if nodes[c].kind == "variable_declarator"@ && field_text(nodes, src, c, "name"@) is Some {
            prev.push(node_symbol(field_text(nodes, src, c, "name"@)->0, "field"@, nodes[i], container, seq![]))
        } else {
            prev
        }
    }
}

/// The first of the given children whose kind is `k1` or `k2`.
pub open spec fn first_child_kind(nodes: Seq<NodeView>, cs: Seq<int>, k1: Seq<char>, k2: Seq<char>) -> Option<int>
    decreases cs.len(),
{
    if cs.len() == 0 {
        None
    } else if nodes[cs[0]].kind == k1 || nodes[cs[0]].kind == k2 {
        Some(cs[0])
    } else {
        first_child_kind(nodes, cs.drop_first(), k1, k2)
    }
}

/// The package a Java file declares, read at its `program` node `i`: the
/// text of the (scoped) identifier of its `package_declaration`.
pub open spec fn java_package(nodes: Seq<NodeView>, src: Seq<char>, i: int) -> Option<Seq<char>> {
    match first_child_kind(nodes, children(nodes, i), "package_declaration"@, "package_declaration"@) {
        Some(p) => match first_child_kind(nodes, children(nodes, p), "scoped_identifier"@, "identifier"@) {
            Some(n) => Some(node_text(src, nodes[n])),
            None => None,
        },
        None => None,
    }
}

/// Java: the file's package (the container of its top-level types),
/// classes, interfaces, enums and annotation types (nesting their members
/// under the dotted type path), methods, constructors and fields.
pub open spec fn visit_java(nodes: Seq<NodeView>, src: Seq<char>, i: int, container: Seq<char>) -> (Seq<SymbolView>, Option<Seq<char>>) {
    let n = nodes[i];
    let name = field_text(nodes, src, i, "name"@);
    if (n.kind == "class_declaration"@ || n.kind == "interface_declaration"@ || n.kind == "enum_declaration"@
        || n.kind == "annotation_type_declaration"@) && name is Some {
        let kind = if n.kind == "class_declaration"@ {
            "class"@
        } else if n.kind == "interface_declaration"@ {
            "interface"@
        } else if n.kind == "enum_declaration"@ {
            "enum"@
        } else {
            "annotation"@
        };
        (seq![node_symbol(name->0, kind, n, container, seq![])], Some(nested(container, "."@, name->0)))
    } else if (n.kind == "method_declaration"@ || n.kind == "constructor_declaration"@) && name is Some {
        let kind = if n.kind == "constructor_declaration"@ { "constructor"@ } else { "method"@ };
        (seq![node_symbol(name->0, kind, n, container, java_method_signature(nodes, src, i))], None)
    } else if n.kind == "field_declaration"@ {
        (java_fields(nodes, src, i, children(nodes, i), container), None)
    } else if n.kind == "program"@ {
        (seq![], java_package(nodes, src, i))
    } else {
        (seq![], None)
    }
}

fn first_child_kind_exec(nodes: &Vec<NodeInfo>, i: usize, k1: &str, k2: &str) -> (r: Option<usize>)
    requires
        i < nodes@.len(),
    ensures
        r is None <==> first_child_kind(node_views(nodes@), children(node_views(nodes@), i as int), k1@, k2@) is None,
        r matches Some(c) ==> first_child_kind(node_views(nodes@), children(node_views(nodes@), i as int), k1@, k2@) == Some(c as int) && i < c < nodes@.len(),
{
    let ghost nv = node_views(nodes@);
    let cs = children_exec(nodes, i);
    proof {
        lemma_children_bounds(nv, i as int);
    }
    let ghost csv = cs@.map_values(|x: usize| x as int);
    let mut k: usize = 0;
    assert(csv.skip(0) =~= csv);
    while k < cs.len()
        invariant
            k <= cs@.len(),
            csv == cs@.map_values(|x: usize| x as int),
            csv == children(nv, i as int),
            nv == node_views(nodes@),
            forall|m: int| 0 <= m < csv.len() ==> (i as int) < #[trigger] csv[m] < nodes@.len(),
            first_child_kind(nv, csv, k1@, k2@) == first_child_kind(nv, csv.skip(k as int), k1@, k2@),
        decreases cs@.len() - k,
    {
        let c = cs[k];
        assert(csv[k as int] == c as int);
        assert(csv.skip(k as int)[0] == c as int);
        assert(csv.skip(k as int).drop_first() =~= csv.skip(k + 1));
        assert(nv[c as int] == nodes@[c as int]@);
        if kind_is(&nodes[c], k1) || kind_is(&nodes[c], k2) {
            return Some(c);
        }
        k = k + 1;
    }
    None
}

fn java_package_exec(nodes: &Vec<NodeInfo>, src: &[char], ix: &ByteIndex, i: usize) -> (r: Option<Vec<char>>)
    requires
        i < nodes@.len(),
        is_byte_index(ix.offsets@, src@),
    ensures
        r is None <==> java_package(node_views(nodes@), src@, i as int) is None,
        r matches Some(t) ==> java_package(node_views(nodes@), src@, i as int) == Some(t@),
{
    match first_child_kind_exec(nodes, i, "package_declaration", "package_declaration") {
        Some(p) => match first_child_kind_exec(nodes, p, "scoped_identifier", "identifier") {
            Some(n) => {
                assert(node_views(nodes@)[n as int] == nodes@[n as int]@);
                Some(node_text_exec(ix, src, &nodes[n]))
            },
            None => None,
        },
        None => None,
    }
}

fn java_fields_exec(nodes: &Vec<NodeInfo>, src: &[char], ix: &ByteIndex, i: usize, container: &Vec<char>) -> (r: Vec<Symbol>)
    requires
        i < nodes@.len(),
        is_byte_index(ix.offsets@, src@),
    ensures
        symbol_views(r@) == java_fields(node_views(nodes@), src@, i as int, children(node_views(nodes@), i as int), container@),
{
    let ghost nv = node_views(nodes@);
    let cs = children_exec(nodes, i);
    proof {
        lemma_children_bounds(nv, i as int);
    }
    let ghost csv = cs@.map_values(|x: usize| x as int);
    assert(nv[i as int] == nodes@[i as int]@);
    let mut out: Vec<Symbol> = Vec::new();
    let mut k: usize = 0;
    while k < cs.len()
        invariant
            k <= cs@.len(),
            csv == cs@.map_values(|x: usize| x as int),
            csv == children(nv, i as int),
            nv == node_views(nodes@),
            nv[i as int] == nodes@[i as int]@,
            is_byte_index(ix.offsets@, src@),
            i < nodes@.len(),
            forall|m: int| 0 <= m < csv.len() ==> (i as int) < #[trigger] csv[m] < nodes@.len(),
            symbol_views(out@) == java_fields(nv, src@, i as int, csv.take(k as int), container@),
        decreases cs@.len() - k,
    {
        let c = cs[k];
        assert(csv[k as int] == c as int);
        assert(csv.take(k + 1).drop_last() =~= csv.take(k as int));
        assert(csv.take(k + 1).last() == c as int);
        assert(nv[c as int] == nodes@[c as int]@);
        if kind_is(&nodes[c], "variable_declarator") {
            match field_text_exec(nodes, src, ix, c, "name") {
                Some(name) => {
                    let sym = make_node_symbol(&name, "field", &nodes[i], container, &Vec::new());
                    let ghost before = symbol_views(out@);
                    out.push(sym);
                    assert(symbol_views(out@) =~= before.push(sym@));
                },
                None => {},
            }
        }
        k = k + 1;
    }
    assert(csv.take(csv.len() as int) =~= csv);
    out
}

fn visit_java_exec(nodes: &Vec<NodeInfo>, src: &[char], ix: &ByteIndex, i: usize, container: &Vec<char>) -> (r: (Vec<Symbol>, Option<Vec<char>>))
    requires
        i < nodes@.len(),
        is_byte_index(ix.offsets@, src@),
    ensures
        symbol_views(r.0@) == visit_java(node_views(nodes@), src@, i as int, container@).0,
        r.1 is None <==> visit_java(node_views(nodes@), src@, i as int, container@).1 is None,
        r.1 matches Some(c) ==> visit_java(node_views(nodes@), src@, i as int, container@).1 == Some(c@),
{
    let ghost nv = node_views(nodes@);
    assert(nv[i as int] == nodes@[i as int]@);
    let n = &nodes[i];
    let is_class = kind_is(n, "class_declaration");
    let is_iface = kind_is(n, "interface_declaration");
    let is_enum = kind_is(n, "enum_declaration");
    let is_annot = kind_is(n, "annotation_type_declaration");
    let is_method = kind_is(n, "method_declaration");
    let is_ctor = kind_is(n, "constructor_declaration");
    if is_class || is_iface || is_enum || is_annot || is_method || is_ctor {
        match field_text_exec(nodes, src, ix, i, "name") {
            Some(name) => {
                if is_class || is_iface || is_enum || is_annot {
                    let kind = if is_class {
                        "class"
                    } else if is_iface {
                        "interface"
                    } else if is_enum {
                        "enum"
                    } else {
                        "annotation"
                    };
                    let sym = make_node_symbol(&name, kind, n, container, &Vec::new());
                    let next = nested_exec(container, ".", &name);
                    return (one(sym), Some(next));
                }
                let ret = field_text_or_empty_exec(nodes, src, ix, i, "type");
                let params = field_text_or_empty_exec(nodes, src, ix, i, "parameters");
                let mut raw = ret;
                extend_chars(&mut raw, &chars_of(" "));
                extend_chars(&mut raw, &name);
                extend_chars(&mut raw, &params);
                let sig = trim_chars(&raw);
                let kind = if is_ctor { "constructor" } else { "method" };
                return (one(make_node_symbol(&name, kind, n, container, &sig)), None);
            },
            None => {},
        }
    }
    if kind_is(n, "field_declaration") {
        return (java_fields_exec(nodes, src, ix, i, container), None);
    }
    if kind_is(n, "program") {
        return (none(), java_package_exec(nodes, src, ix, i));
    }
    (none(), None)
}

// ---------------------------------------------------------------------------
// C and C++
// ---------------------------------------------------------------------------
/// The first name found in the subtree at node `i`, in document order
/// (the node, then its children from the first to the last): an
/// `identifier` or `field_identifier` gives its text, a
/// `qualified_identifier` the text of its `name` field.
pub open spec fn find_ident(nodes: Seq<NodeView>, src: Seq<char>, i: int) -> Option<Seq<char>>
    decreases nodes.len() - i, 1int, 0int,
{
    if i < 0 || i >= nodes.len() {
        None
    } else if nodes[i].kind == "identifier"@ || nodes[i].kind == "field_identifier"@ {
        Some(node_text(src, nodes[i]))
    } else if nodes[i].kind == "qualified_identifier"@ && field_text(nodes, src, i, "name"@) is Some {
        field_text(nodes, src, i, "name"@)
    } else {
        find_ident_children(nodes, src, i, children(nodes, i))
    }
}

/// The first name found in the subtrees of the given children of
/// `parent`, from the first to the last.
pub open spec fn find_ident_children(nodes: Seq<NodeView>, src: Seq<char>, parent: int, cs: Seq<int>) -> Option<Seq<char>>
    decreases nodes.len() - parent, 0int, cs.len(),
{
    if cs.len() == 0 || parent < 0 || parent >= nodes.len() {
        None
    } else {
        let j = cs[0];
        let here = if parent < j < nodes.len() { find_ident(nodes, src, j) } else { None };
        if here is Some {
            here
        } else {
            find_ident_children(nodes, src, parent, cs.drop_first())
        }
    }
}

proof fn lemma_children_size_front(nodes: Seq<NodeView>, parent: int, x: int, rest: Seq<int>)
    requires
        0 <= parent < nodes.len(),
    ensures
        children_size(nodes, parent, seq![x] + rest) == (if parent < x < nodes.len() { walk_size(nodes, x) } else { 0 }) + children_size(nodes, parent, rest),
    decreases rest.len(),
{
    let s = seq![x] + rest;
    let g = |y: int| if parent < y < nodes.len() { walk_size(nodes, y) } else { 0 };
    assert(children_size(nodes, parent, s) == g(s.last()) + children_size(nodes, parent, s.drop_last()));
    if rest.len() == 0 {
        assert(s.drop_last() =~= Seq::<int>::empty());
        assert(s.last() == x);
        assert(children_size(nodes, parent, Seq::<int>::empty()) == 0);
    } else {
        lemma_children_size_front(nodes, parent, x, rest.drop_last());
        assert(s.drop_last() =~= seq![x] + rest.drop_last());
        assert(s.last() == rest.last());
        assert(children_size(nodes, parent, rest) == g(rest.last()) + children_size(nodes, parent, rest.drop_last()));
    }
}

/// The first name found in the pending subtrees, from the top of the stack down.
pub open spec fn pending_ident(nodes: Seq<NodeView>, src: Seq<char>, stack: Seq<usize>) -> Option<Seq<char>>
    decreases stack.len(),
{
    if stack.len() == 0 {
        None
    } else {
        let here = find_ident(nodes, src, stack.last() as int);
        if here is Some {
            here
        } else {
            pending_ident(nodes, src, stack.drop_last())
        }
    }
}

/// The number of nodes in the pending subtrees.
pub open spec fn pending_nodes(nodes: Seq<NodeView>, stack: Seq<usize>) -> nat
    decreases stack.len(),
{
    if stack.len() == 0 {
        0
    } else {
        walk_size(nodes, stack.last() as int) + pending_nodes(nodes, stack.drop_last())
    }
}

fn find_ident_exec(nodes: &Vec<NodeInfo>, src: &[char], ix: &ByteIndex, root: usize) -> (r: Option<Vec<char>>)
    requires
        root < nodes@.len(),
        is_byte_index(ix.offsets@, src@),
    ensures
        r is None <==> find_ident(node_views(nodes@), src@, root as int) is None,
        r matches Some(t) ==> find_ident(node_views(nodes@), src@, root as int) == Some(t@),
{
    let ghost nv = node_views(nodes@);
    let mut stack: Vec<usize> = Vec::new();
    stack.push(root);
    proof {
        assert(stack@.drop_last() =~= Seq::<usize>::empty());
        assert(pending_ident(nv, src@, Seq::<usize>::empty()) is None);
        assert(stack@.last() == root);
    }
    while stack.len() > 0
        invariant
            nv == node_views(nodes@),
            is_byte_index(ix.offsets@, src@),
            find_ident(nv, src@, root as int) == pending_ident(nv, src@, stack@),
            forall|k: int| 0 <= k < stack@.len() ==> #[trigger] stack@[k] < nodes@.len(),
        decreases pending_nodes(nv, stack@),
    {
        let ghost st0 = stack@;
        let i = stack.pop().unwrap();
        assert(st0.last() == i);
        assert(stack@ == st0.drop_last());
        assert(nv[i as int] == nodes@[i as int]@);
        let n = &nodes[i];
        if kind_is(n, "identifier") || kind_is(n, "field_identifier") {
            return Some(node_text_exec(ix, src, n));
        }
        if kind_is(n, "qualified_identifier") {
            match field_text_exec(nodes, src, ix, i, "name") {
                Some(t) => {
                    return Some(t);
                },
                None => {},
            }
        }
        let cs = children_exec(nodes, i);
        proof {
            lemma_children_bounds(nv, i as int);
        }
        let ghost csv = cs@.map_values(|x: usize| x as int);
        let ghost base = stack@;
        let mut k: usize = cs.len();
        assert(csv.skip(csv.len() as int) =~= Seq::<int>::empty());
        while k > 0
            invariant
                k <= cs@.len(),
                csv == cs@.map_values(|x: usize| x as int),
                csv == children(nv, i as int),
                forall|m: int| 0 <= m < csv.len() ==> (i as int) < #[trigger] csv[m] < nodes@.len(),
                forall|m: int| 0 <= m < stack@.len() ==> #[trigger] stack@[m] < nodes@.len(),
                pending_ident(nv, src@, stack@) == (if find_ident_children(nv, src@, i as int, csv.skip(k as int)) is Some {
                    find_ident_children(nv, src@, i as int, csv.skip(k as int))
                } else {
                    pending_ident(nv, src@, base)
                }),
                pending_nodes(nv, stack@) == children_size(nv, i as int, csv.skip(k as int)) + pending_nodes(nv, base),
                i < nodes@.len(),
            decreases k,
        {
            k = k - 1;
            let j = cs[k];
            let ghost before = stack@;
            stack.push(j);
            proof {
                assert(csv[k as int] == j as int);
                assert(csv.skip(k as int) =~= seq![j as int] + csv.skip(k + 1));
                assert(csv.skip(k as int)[0] == j as int);
                assert(csv.skip(k as int).drop_first() =~= csv.skip(k + 1));
                lemma_children_size_front(nv, i as int, j as int, csv.skip(k + 1));
                assert(stack@.drop_last() =~= before);
                assert(stack@.last() == j);
            }
        }
        proof {
            assert(csv.skip(0) =~= csv);
        }
    }
    None
}

/// The signature of a C or C++ function: its type, a space and its
/// declarator, trimmed.
pub open spec fn cpp_fn_signature(nodes: Seq<NodeView>, src: Seq<char>, i: int) -> Seq<char> {
    trim(field_text_or_empty(nodes, src, i, "type"@) + " "@ + field_text_or_empty(nodes, src, i, "declarator"@))
}

/// The name of a C or C++ function: the first name in its declarator,
/// empty when there is none.
pub open spec fn cpp_fn_name(nodes: Seq<NodeView>, src: Seq<char>, i: int) -> Seq<char> {
    match field_child(nodes, i, "declarator"@) {
        Some(d) => match find_ident(nodes, src, d) {
            Some(t) => t,
            None => seq![],
        },
        None => seq![],
    }
}

/// The variables a C or C++ `declaration` declares: one symbol per
/// `init_declarator` or `declarator` child holding a name, in order,
/// spanning the whole declaration.
pub open spec fn cpp_variables(nodes: Seq<NodeView>, src: Seq<char>, i: int, cs: Seq<int>, container: Seq<char>) -> Seq<SymbolView>
    decreases cs.len(),
{
    if cs.len() == 0 {
        seq![]
    } else {
        let prev = cpp_variables(nodes, src, i, cs.drop_last(), container);
        let c = cs.last();
        if (nodes[c].kind == "init_declarator"@ || nodes[c].kind == "declarator"@) && find_ident(nodes, src, c) is Some {
            prev.push(node_symbol(find_ident(nodes, src, c)->0, "variable"@, nodes[i], container, seq![]))
        } else {
            prev
        }
    }
}

/// C and C++: classes, structs and enums (nesting their members under the
/// `::` path), functions, variables, and namespaces (which nest what they
/// hold under their name, `<anon>` when they have none).
pub open spec fn visit_cpp(nodes: Seq<NodeView>, src: Seq<char>, i: int, container: Seq<char>) -> (Seq<SymbolView>, Option<Seq<char>>) {
    let n = nodes[i];
    let name = field_text(nodes, src, i, "name"@);
    if (n.kind == "class_specifier"@ || n.kind == "struct_specifier"@ || n.kind == "enum_specifier"@) && name is Some {
        let kind = if n.kind == "class_specifier"@ {
            "class"@
        } else if n.kind == "struct_specifier"@ {
            "struct"@
        } else {
            "enum"@
        };
        (seq![node_symbol(name->0, kind, n, container, seq![])], Some(nested(container, "::"@, name->0)))
    } else if n.kind == "function_definition"@ {
        let f = cpp_fn_name(nodes, src, i);
        if f.len() > 0 {
            (seq![node_symbol(f, "function"@, n, container, cpp_fn_signature(nodes, src, i))], None)
        } else {
            (seq![], None)
        }
    } else if n.kind == "declaration"@ {
        (cpp_variables(nodes, src, i, children(nodes, i), container), None)
    } else if n.kind == "namespace_definition"@ {
        let ns = match name {
            Some(t) => t,
            None => "<anon>"@,
        };
        (seq![], Some(nested(container, "::"@, ns)))
    } else {
        (seq![], None)
    }
}

fn cpp_variables_exec(nodes: &Vec<NodeInfo>, src: &[char], ix: &ByteIndex, i: usize, container: &Vec<char>) -> (r: Vec<Symbol>)
    requires
        i < nodes@.len(),
        is_byte_index(ix.offsets@, src@),
    ensures
        symbol_views(r@) == cpp_variables(node_views(nodes@), src@, i as int, children(node_views(nodes@), i as int), container@),
{
    let ghost nv = node_views(nodes@);
    let cs = children_exec(nodes, i);
    proof {
        lemma_children_bounds(nv, i as int);
    }
    let ghost csv = cs@.map_values(|x: usize| x as int);
    assert(nv[i as int] == nodes@[i as int]@);
    let mut out: Vec<Symbol> = Vec::new();
    let mut k: usize = 0;
    while k < cs.len()
        invariant
            k <= cs@.len(),
            csv == cs@.map_values(|x: usize| x as int),
            csv == children(nv, i as int),
            nv == node_views(nodes@),
            nv[i as int] == nodes@[i as int]@,
            is_byte_index(ix.offsets@, src@),
            i < nodes@.len(),
            forall|m: int| 0 <= m < csv.len() ==> (i as int) < #[trigger] csv[m] < nodes@.len(),
            symbol_views(out@) == cpp_variables(nv, src@, i as int, csv.take(k as int), container@),
        decreases cs@.len() - k,
    {
        let c = cs[k];
        assert(csv[k as int] == c as int);
        assert(csv.take(k + 1).drop_last() =~= csv.take(k as int));
        assert(csv.take(k + 1).last() == c as int);
        assert(nv[c as int] == nodes@[c as int]@);
        if kind_is(&nodes[c], "init_declarator") || kind_is(&nodes[c], "declarator") {
            match find_ident_exec(nodes, src, ix, c) {
                Some(name) => {
                    let sym = make_node_symbol(&name, "variable", &nodes[i], container, &Vec::new());
                    let ghost before = symbol_views(out@);
                    out.push(sym);
                    assert(symbol_views(out@) =~= before.push(sym@));
                },
                None => {},
            }
        }
        k = k + 1;
    }
    assert(csv.take(csv.len() as int) =~= csv);
    out
}

fn visit_cpp_exec(nodes: &Vec<NodeInfo>, src: &[char], ix: &ByteIndex, i: usize, container: &Vec<char>) -> (r: (Vec<Symbol>, Option<Vec<char>>))
    requires
        i < nodes@.len(),
        is_byte_index(ix.offsets@, src@),
    ensures
        symbol_views(r.0@) == visit_cpp(node_views(nodes@), src@, i as int, container@).0,
        r.1 is None <==> visit_cpp(node_views(nodes@), src@, i as int, container@).1 is None,
        r.1 matches Some(c) ==> visit_cpp(node_views(nodes@), src@, i as int, container@).1 == Some(c@),
{
    let ghost nv = node_views(nodes@);
    assert(nv[i as int] == nodes@[i as int]@);
    let n = &nodes[i];
    let is_class = kind_is(n, "class_specifier");
    let is_struct = kind_is(n, "struct_specifier");
    let is_enum = kind_is(n, "enum_specifier");
    if is_class || is_struct || is_enum {
        match field_text_exec(nodes, src, ix, i, "name") {
            Some(name) => {
                let kind = if is_class {
                    "class"
                } else if is_struct {
                    "struct"
                } else {
                    "enum"
                };
                let sym = make_node_symbol(&name, kind, n, container, &Vec::new());
                let next = nested_exec(container, "::", &name);
                return (one(sym), Some(next));
            },
            None => {},
        }
    }
    if kind_is(n, "function_definition") {
        let f = match field_child_exec(nodes, i, "declarator") {
            Some(d) => match find_ident_exec(nodes, src, ix, d) {
                Some(t) => t,
                None => Vec::new(),
            },
            None => Vec::new(),
        };
        if f.len() > 0 {
            let ty = field_text_or_empty_exec(nodes, src, ix, i, "type");
            let decl = field_text_or_empty_exec(nodes, src, ix, i, "declarator");
            let mut raw = ty;
            extend_chars(&mut raw, &chars_of(" "));
            extend_chars(&mut raw, &decl);
            let sig = trim_chars(&raw);
            return (one(make_node_symbol(&f, "function", n, container, &sig)), None);
        }
        return (none(), None);
    }
    if kind_is(n, "declaration") {
        return (cpp_variables_exec(nodes, src, ix, i, container), None);
    }
    if kind_is(n, "namespace_definition") {
        let ns = match field_text_exec(nodes, src, ix, i, "name") {
            Some(t) => t,
            None => chars_of("<anon>"),
        };
        return (none(), Some(nested_exec(container, "::", &ns)));
    }
    (none(), None)
}

// ---------------------------------------------------------------------------
// Dispatch
// ---------------------------------------------------------------------------
/// What the grammar's visitor records for node `i` under `container`, and
/// the container for the node's children (`None`: the same one).
#[verifier::opaque]
pub open spec fn visit(g: Grammar, nodes: Seq<NodeView>, src: Seq<char>, i: int, container: Seq<char>) -> (Seq<SymbolView>, Option<Seq<char>>) {
    match g {
        Grammar::Json => visit_json(nodes, src, i, container),
        Grammar::Kotlin => visit_kotlin(nodes, src, i, container),
        Grammar::Ruby => visit_ruby(nodes, src, i, container),
        Grammar::Go => visit_go(nodes, src, i, container),
        Grammar::Java => visit_java(nodes, src, i, container),
        Grammar::Cpp => visit_cpp(nodes, src, i, container),
    }
}

/// What the grammar's visitor records for a node, and the container for its children.
pub fn visit_exec(g: Grammar, nodes: &Vec<NodeInfo>, src: &[char], ix: &ByteIndex, i: usize, container: &Vec<char>) -> (r: (Vec<Symbol>, Option<Vec<char>>))
    requires
        i < nodes@.len(),
        is_byte_index(ix.offsets@, src@),
    ensures
        symbol_views(r.0@) == visit(g, node_views(nodes@), src@, i as int, container@).0,
        r.1 is None <==> visit(g, node_views(nodes@), src@, i as int, container@).1 is None,
        r.1 matches Some(c) ==> visit(g, node_views(nodes@), src@, i as int, container@).1 == Some(c@),
{
    proof {
        reveal(visit);
    }
    match g {
        Grammar::Json => visit_json_exec(nodes, src, ix, i, container),
        Grammar::Kotlin => visit_kotlin_exec(nodes, src, ix, i, container),
        Grammar::Ruby => visit_ruby_exec(nodes, src, ix, i, container),
        Grammar::Go => visit_go_exec(nodes, src, ix, i, container),
        Grammar::Java => visit_java_exec(nodes, src, ix, i, container),
        Grammar::Cpp => visit_cpp_exec(nodes, src, ix, i, container),
    }
}

// ---------------------------------------------------------------------------
// Extraction
// ---------------------------------------------------------------------------
/// The symbols a grammar's extractor finds in a source: the walk of the
/// tree from its root with an empty container, none when the source does
/// not parse.
pub open spec fn ts_symbols(g: Grammar, source: Seq<char>) -> Seq<SymbolView> {
    if ts_parses(g, source) {
        walk(g, tree_nodes(g, source), source, 0, seq![])
    } else {
        seq![]
    }
}

/// Parses the source with the grammar and walks its tree.
pub fn extract_with(g: Grammar, source: &str) -> (r: Vec<Symbol>)
    ensures
        symbol_views(r@) == ts_symbols(g, source@),
{
    match syntax_nodes(g, source) {
        None => none(),
        Some(nodes) => {
            let src = chars_of(source);
            let ix = byte_index(&src);
            walk_tree(g, &nodes, &src, &ix)
        },
    }
}

/// Whether the Java visitor records, for node `i`, exactly one symbol: the
/// text of its `name` field, of the given kind, under `container`, spanning
/// the node, with no signature; and whether its children are visited under
/// the container extended by `.` and that name (the name alone at top level).
pub open spec fn java_type_recorded(nodes: Seq<NodeView>, src: Seq<char>, i: int, container: Seq<char>, kind: Seq<char>) -> bool {
    let name = node_text(src, nodes[field_child(nodes, i, "name"@)->0]);
    let (own, _) = visit(Grammar::Java, nodes, src, i, container);
    &&& own.len() == 1
    &&& own[0].name == name
    &&& own[0].kind == kind
    &&& own[0].container == container
    &&& own[0].start_line == nodes[i].start_row as u32
    &&& own[0].start_col == nodes[i].start_col as u32
    &&& own[0].end_line == nodes[i].end_row as u32
    &&& own[0].end_col == nodes[i].end_col as u32
    &&& own[0].signature.len() == 0
    &&& continuation(Grammar::Java, nodes, src, i, container) == if container.len() == 0 {
        name
    } else {
        container + "."@ + name
    }
}

proof fn lemma_visit_is_java(nodes: Seq<NodeView>, src: Seq<char>, i: int, container: Seq<char>)
    ensures
        visit(Grammar::Java, nodes, src, i, container) == visit_java(nodes, src, i, container),
{
    reveal(visit);
}

/// Whether the Java visitor records, for node `i`, exactly one symbol: the
/// text of its `name` field, of the given kind, under `container`, spanning
/// the node, with its signature (return type, name and parameters); and
/// whether its children keep the container.
pub open spec fn java_member_recorded(nodes: Seq<NodeView>, src: Seq<char>, i: int, container: Seq<char>, kind: Seq<char>) -> bool {
    let name = node_text(src, nodes[field_child(nodes, i, "name"@)->0]);
    let (own, _) = visit(Grammar::Java, nodes, src, i, container);
    &&& own.len() == 1
    &&& own[0].name == name
    &&& own[0].kind == kind
    &&& own[0].container == container
    &&& own[0].start_line == nodes[i].start_row as u32
    &&& own[0].start_col == nodes[i].start_col as u32
    &&& own[0].signature == java_method_signature(nodes, src, i)
    &&& continuation(Grammar::Java, nodes, src, i, container) == container
}

/// Each named Java class, interface, enum and annotation type declaration
/// yields one symbol named by its `name` field, of kind `class`,
/// `interface`, `enum` or `annotation`, and opens a container: its members
/// are visited under the dotted path extended by its name. Each named
/// method and constructor yields one symbol of kind `method` or
/// `constructor` under the current container, which its body keeps.
pub proof fn law_java_type_declarations(nodes: Seq<NodeView>, src: Seq<char>, i: int, container: Seq<char>)
    requires
        0 <= i < nodes.len(),
    ensures
        nodes[i].kind == "class_declaration"@ && field_child(nodes, i, "name"@) is Some ==> java_type_recorded(nodes, src, i, container, "class"@),
        nodes[i].kind == "interface_declaration"@ && field_child(nodes, i, "name"@) is Some ==> java_type_recorded(nodes, src, i, container, "interface"@),
        nodes[i].kind == "enum_declaration"@ && field_child(nodes, i, "name"@) is Some ==> java_type_recorded(nodes, src, i, container, "enum"@),
        nodes[i].kind == "annotation_type_declaration"@ && field_child(nodes, i, "name"@) is Some ==> java_type_recorded(nodes, src, i, container, "annotation"@),
        nodes[i].kind == "method_declaration"@ && field_child(nodes, i, "name"@) is Some ==> java_member_recorded(nodes, src, i, container, "method"@),
        nodes[i].kind == "constructor_declaration"@ && field_child(nodes, i, "name"@) is Some ==> java_member_recorded(nodes, src, i, container, "constructor"@),
{
    lemma_visit_is_java(nodes, src, i, container);
    assert(nodes[i].kind == "class_declaration"@ && field_child(nodes, i, "name"@) is Some ==> java_type_recorded(nodes, src, i, container, "class"@)) by {
        reveal_strlit("class_declaration"); reveal_strlit("interface_declaration"); reveal_strlit("enum_declaration"); reveal_strlit("annotation_type_declaration"); reveal_strlit("method_declaration"); reveal_strlit("constructor_declaration");
        assert("class_declaration"@.len() == 17 && "interface_declaration"@.len() == 21); assert("class_declaration"@.len() == 17 && "enum_declaration"@.len() == 16); assert("class_declaration"@.len() == 17 && "annotation_type_declaration"@.len() == 27); assert("class_declaration"@.len() == 17 && "method_declaration"@.len() == 18); assert("class_declaration"@.len() == 17 && "constructor_declaration"@.len() == 23);
    }
    assert(nodes[i].kind == "interface_declaration"@ && field_child(nodes, i, "name"@) is Some ==> java_type_recorded(nodes, src, i, container, "interface"@)) by {
        reveal_strlit("class_declaration"); reveal_strlit("interface_declaration"); reveal_strlit("enum_declaration"); reveal_strlit("annotation_type_declaration"); reveal_strlit("method_declaration"); reveal_strlit("constructor_declaration");
        assert("interface_declaration"@.len() == 21 && "class_declaration"@.len() == 17); assert("interface_declaration"@.len() == 21 && "enum_declaration"@.len() == 16); assert("interface_declaration"@.len() == 21 && "annotation_type_declaration"@.len() == 27); assert("interface_declaration"@.len() == 21 && "method_declaration"@.len() == 18); assert("interface_declaration"@.len() == 21 && "constructor_declaration"@.len() == 23);
    }
    assert(nodes[i].kind == "enum_declaration"@ && field_child(nodes, i, "name"@) is Some ==> java_type_recorded(nodes, src, i, container, "enum"@)) by {
        reveal_strlit("class_declaration"); reveal_strlit("interface_declaration"); reveal_strlit("enum_declaration"); reveal_strlit("annotation_type_declaration"); reveal_strlit("method_declaration"); reveal_strlit("constructor_declaration");
        assert("enum_declaration"@.len() == 16 && "class_declaration"@.len() == 17); assert("enum_declaration"@.len() == 16 && "interface_declaration"@.len() == 21); assert("enum_declaration"@.len() == 16 && "annotation_type_declaration"@.len() == 27); assert("enum_declaration"@.len() == 16 && "method_declaration"@.len() == 18); assert("enum_declaration"@.len() == 16 && "constructor_declaration"@.len() == 23);
    }
    assert(nodes[i].kind == "annotation_type_declaration"@ && field_child(nodes, i, "name"@) is Some ==> java_type_recorded(nodes, src, i, container, "annotation"@)) by {
        reveal_strlit("class_declaration"); reveal_strlit("interface_declaration"); reveal_strlit("enum_declaration"); reveal_strlit("annotation_type_declaration"); reveal_strlit("method_declaration"); reveal_strlit("constructor_declaration");
        assert("annotation_type_declaration"@.len() == 27 && "class_declaration"@.len() == 17); assert("annotation_type_declaration"@.len() == 27 && "interface_declaration"@.len() == 21); assert("annotation_type_declaration"@.len() == 27 && "enum_declaration"@.len() == 16); assert("annotation_type_declaration"@.len() == 27 && "method_declaration"@.len() == 18); assert("annotation_type_declaration"@.len() == 27 && "constructor_declaration"@.len() == 23);
    }
    assert(nodes[i].kind == "method_declaration"@ && field_child(nodes, i, "name"@) is Some ==> java_member_recorded(nodes, src, i, container, "method"@)) by {
        reveal_strlit("class_declaration"); reveal_strlit("interface_declaration"); reveal_strlit("enum_declaration"); reveal_strlit("annotation_type_declaration"); reveal_strlit("method_declaration"); reveal_strlit("constructor_declaration");
        assert("method_declaration"@.len() == 18 && "class_declaration"@.len() == 17); assert("method_declaration"@.len() == 18 && "interface_declaration"@.len() == 21); assert("method_declaration"@.len() == 18 && "enum_declaration"@.len() == 16); assert("method_declaration"@.len() == 18 && "annotation_type_declaration"@.len() == 27); assert("method_declaration"@.len() == 18 && "constructor_declaration"@.len() == 23);
    }
    assert(nodes[i].kind == "constructor_declaration"@ && field_child(nodes, i, "name"@) is Some ==> java_member_recorded(nodes, src, i, container, "constructor"@)) by {
        reveal_strlit("class_declaration"); reveal_strlit("interface_declaration"); reveal_strlit("enum_declaration"); reveal_strlit("annotation_type_declaration"); reveal_strlit("method_declaration"); reveal_strlit("constructor_declaration");
        assert("constructor_declaration"@.len() == 23 && "class_declaration"@.len() == 17); assert("constructor_declaration"@.len() == 23 && "interface_declaration"@.len() == 21); assert("constructor_declaration"@.len() == 23 && "enum_declaration"@.len() == 16); assert("constructor_declaration"@.len() == 23 && "annotation_type_declaration"@.len() == 27); assert("constructor_declaration"@.len() == 23 && "method_declaration"@.len() == 18);
    }
}

/// Whether the grammar's visitor records, for node `i`, exactly one symbol:
/// the text of its `name` field, of the given kind, under `container`,
/// starting where the node starts; and whether the node's children are
/// visited under `inner`.
pub open spec fn records_named(g: Grammar, nodes: Seq<NodeView>, src: Seq<char>, i: int, container: Seq<char>, kind: Seq<char>, inner: Seq<char>) -> bool {
    let name = node_text(src, nodes[field_child(nodes, i, "name"@)->0]);
    let (own, _) = visit(g, nodes, src, i, container);
    &&& own.len() == 1
    &&& own[0].name == name
    &&& own[0].kind == kind
    &&& own[0].container == container
    &&& own[0].start_line == nodes[i].start_row as u32
    &&& own[0].start_col == nodes[i].start_col as u32
    &&& continuation(g, nodes, src, i, container) == inner
}

/// The text of a node's `name` field nested in a container with a separator
/// (the name alone at top level).
pub open spec fn named_path(nodes: Seq<NodeView>, src: Seq<char>, i: int, container: Seq<char>, sep: Seq<char>) -> Seq<char> {
    let name = node_text(src, nodes[field_child(nodes, i, "name"@)->0]);
    if container.len() == 0 {
        name
    } else {
        container + sep + name
    }
}

proof fn lemma_visit_is_kotlin(nodes: Seq<NodeView>, src: Seq<char>, i: int, container: Seq<char>)
    ensures
        visit(Grammar::Kotlin, nodes, src, i, container) == visit_kotlin(nodes, src, i, container),
{
    reveal(visit);
}

/// Kotlin classes, objects and interfaces yield one symbol each, named by
/// their `name` field, and open a container (the dotted path extended by the
/// name); functions and properties yield one symbol under the current
/// container, which their children keep.
pub proof fn law_kotlin_declarations(nodes: Seq<NodeView>, src: Seq<char>, i: int, container: Seq<char>)
    requires
        0 <= i < nodes.len(),
    ensures
        nodes[i].kind == "class_declaration"@ && field_child(nodes, i, "name"@) is Some ==> records_named(Grammar::Kotlin, nodes, src, i, container, "class"@, named_path(nodes, src, i, container, "."@)),
        nodes[i].kind == "object_declaration"@ && field_child(nodes, i, "name"@) is Some ==> records_named(Grammar::Kotlin, nodes, src, i, container, "object"@, named_path(nodes, src, i, container, "."@)),
        nodes[i].kind == "interface_declaration"@ && field_child(nodes, i, "name"@) is Some ==> records_named(Grammar::Kotlin, nodes, src, i, container, "interface"@, named_path(nodes, src, i, container, "."@)),
        nodes[i].kind == "function_declaration"@ && field_child(nodes, i, "name"@) is Some ==> records_named(Grammar::Kotlin, nodes, src, i, container, "function"@, container),
        nodes[i].kind == "property_declaration"@ && field_child(nodes, i, "name"@) is Some ==> records_named(Grammar::Kotlin, nodes, src, i, container, "property"@, container),
{
    lemma_visit_is_kotlin(nodes, src, i, container);
    assert(nodes[i].kind == "class_declaration"@ && field_child(nodes, i, "name"@) is Some ==> records_named(Grammar::Kotlin, nodes, src, i, container, "class"@, named_path(nodes, src, i, container, "."@))) by { reveal_strlit("class_declaration"); reveal_strlit("object_declaration"); reveal_strlit("interface_declaration"); reveal_strlit("function_declaration"); reveal_strlit("property_declaration"); assert("class_declaration"@.len() == 17 && "object_declaration"@.len() == 18); assert("class_declaration"@.len() == 17 && "interface_declaration"@.len() == 21); assert("class_declaration"@.len() == 17 && "function_declaration"@.len() == 20); assert("class_declaration"@.len() == 17 && "property_declaration"@.len() == 20); }
    assert(nodes[i].kind == "object_declaration"@ && field_child(nodes, i, "name"@) is Some ==> records_named(Grammar::Kotlin, nodes, src, i, container, "object"@, named_path(nodes, src, i, container, "."@))) by { reveal_strlit("class_declaration"); reveal_strlit("object_declaration"); reveal_strlit("interface_declaration"); reveal_strlit("function_declaration"); reveal_strlit("property_declaration"); assert("object_declaration"@.len() == 18 && "class_declaration"@.len() == 17); assert("object_declaration"@.len() == 18 && "interface_declaration"@.len() == 21); assert("object_declaration"@.len() == 18 && "function_declaration"@.len() == 20); assert("object_declaration"@.len() == 18 && "property_declaration"@.len() == 20); }
    assert(nodes[i].kind == "interface_declaration"@ && field_child(nodes, i, "name"@) is Some ==> records_named(Grammar::Kotlin, nodes, src, i, container, "interface"@, named_path(nodes, src, i, container, "."@))) by { reveal_strlit("class_declaration"); reveal_strlit("object_declaration"); reveal_strlit("interface_declaration"); reveal_strlit("function_declaration"); reveal_strlit("property_declaration"); assert("interface_declaration"@.len() == 21 && "class_declaration"@.len() == 17); assert("interface_declaration"@.len() == 21 && "object_declaration"@.len() == 18); assert("interface_declaration"@.len() == 21 && "function_declaration"@.len() == 20); assert("interface_declaration"@.len() == 21 && "property_declaration"@.len() == 20); }
    assert(nodes[i].kind == "function_declaration"@ && field_child(nodes, i, "name"@) is Some ==> records_named(Grammar::Kotlin, nodes, src, i, container, "function"@, container)) by { reveal_strlit("class_declaration"); reveal_strlit("object_declaration"); reveal_strlit("interface_declaration"); reveal_strlit("function_declaration"); reveal_strlit("property_declaration"); assert("function_declaration"@.len() == 20 && "class_declaration"@.len() == 17); assert("function_declaration"@.len() == 20 && "object_declaration"@.len() == 18); assert("function_declaration"@.len() == 20 && "interface_declaration"@.len() == 21); assert("function_declaration"@[0] != "property_declaration"@[0]); }
    assert(nodes[i].kind == "property_declaration"@ && field_child(nodes, i, "name"@) is Some ==> records_named(Grammar::Kotlin, nodes, src, i, container, "property"@, container)) by { reveal_strlit("class_declaration"); reveal_strlit("object_declaration"); reveal_strlit("interface_declaration"); reveal_strlit("function_declaration"); reveal_strlit("property_declaration"); assert("property_declaration"@.len() == 20 && "class_declaration"@.len() == 17); assert("property_declaration"@.len() == 20 && "object_declaration"@.len() == 18); assert("property_declaration"@.len() == 20 && "interface_declaration"@.len() == 21); assert("property_declaration"@[0] != "function_declaration"@[0]); }
}

proof fn lemma_visit_is_ruby(nodes: Seq<NodeView>, src: Seq<char>, i: int, container: Seq<char>)
    ensures
        visit(Grammar::Ruby, nodes, src, i, container) == visit_ruby(nodes, src, i, container),
{
    reveal(visit);
}

/// Ruby classes and modules yield one symbol each, named by their `name`
/// field, and open a container (the `::` path extended by the name);
/// methods and singleton methods yield one `method` symbol under the current
/// container, which their bodies keep.
pub proof fn law_ruby_declarations(nodes: Seq<NodeView>, src: Seq<char>, i: int, container: Seq<char>)
    requires
        0 <= i < nodes.len(),
    ensures
        nodes[i].kind == "class"@ && field_child(nodes, i, "name"@) is Some ==> records_named(Grammar::Ruby, nodes, src, i, container, "class"@, named_path(nodes, src, i, container, "::"@)),
        nodes[i].kind == "module"@ && field_child(nodes, i, "name"@) is Some ==> records_named(Grammar::Ruby, nodes, src, i, container, "module"@, named_path(nodes, src, i, container, "::"@)),
        nodes[i].kind == "method"@ && field_child(nodes, i, "name"@) is Some ==> records_named(Grammar::Ruby, nodes, src, i, container, "method"@, container),
        nodes[i].kind == "singleton_method"@ && field_child(nodes, i, "name"@) is Some ==> records_named(Grammar::Ruby, nodes, src, i, container, "method"@, container),
{
    lemma_visit_is_ruby(nodes, src, i, container);
    assert(nodes[i].kind == "class"@ && field_child(nodes, i, "name"@) is Some ==> records_named(Grammar::Ruby, nodes, src, i, container, "class"@, named_path(nodes, src, i, container, "::"@))) by { reveal_strlit("class"); reveal_strlit("module"); reveal_strlit("method"); reveal_strlit("singleton_method"); assert("class"@.len() == 5 && "module"@.len() == 6); assert("class"@.len() == 5 && "method"@.len() == 6); assert("class"@.len() == 5 && "singleton_method"@.len() == 16); }
    assert(nodes[i].kind == "module"@ && field_child(nodes, i, "name"@) is Some ==> records_named(Grammar::Ruby, nodes, src, i, container, "module"@, named_path(nodes, src, i, container, "::"@))) by { reveal_strlit("class"); reveal_strlit("module"); reveal_strlit("method"); reveal_strlit("singleton_method"); assert("module"@.len() == 6 && "class"@.len() == 5); assert("module"@[1] != "method"@[1]); assert("module"@.len() == 6 && "singleton_method"@.len() == 16); }
    assert(nodes[i].kind == "method"@ && field_child(nodes, i, "name"@) is Some ==> records_named(Grammar::Ruby, nodes, src, i, container, "method"@, container)) by { reveal_strlit("class"); reveal_strlit("module"); reveal_strlit("method"); reveal_strlit("singleton_method"); assert("method"@.len() == 6 && "class"@.len() == 5); assert("method"@[1] != "module"@[1]); assert("method"@.len() == 6 && "singleton_method"@.len() == 16); }
    assert(nodes[i].kind == "singleton_method"@ && field_child(nodes, i, "name"@) is Some ==> records_named(Grammar::Ruby, nodes, src, i, container, "method"@, container)) by { reveal_strlit("class"); reveal_strlit("module"); reveal_strlit("method"); reveal_strlit("singleton_method"); assert("singleton_method"@.len() == 16 && "class"@.len() == 5); assert("singleton_method"@.len() == 16 && "module"@.len() == 6); assert("singleton_method"@.len() == 16 && "method"@.len() == 6); }
}

proof fn lemma_visit_is_go(nodes: Seq<NodeView>, src: Seq<char>, i: int, container: Seq<char>)
    ensures
        visit(Grammar::Go, nodes, src, i, container) == visit_go(nodes, src, i, container),
{
    reveal(visit);
}

/// Go: the package clause yields no symbol and makes its name the
/// container of everything below it. Go functions and methods yield one symbol each, named by their `name`
/// field, under the current container (the package), which their bodies
/// keep.
pub proof fn law_go_declarations(nodes: Seq<NodeView>, src: Seq<char>, i: int, container: Seq<char>)
    requires
        0 <= i < nodes.len(),
    ensures
        nodes[i].kind == "package_clause"@ && field_child(nodes, i, "name"@) is Some ==> visit(Grammar::Go, nodes, src, i, container).0.len() == 0
            && continuation(Grammar::Go, nodes, src, i, container) == node_text(src, nodes[field_child(nodes, i, "name"@)->0]),
        nodes[i].kind == "function_declaration"@ && field_child(nodes, i, "name"@) is Some ==> records_named(Grammar::Go, nodes, src, i, container, "function"@, container),
        nodes[i].kind == "method_declaration"@ && field_child(nodes, i, "name"@) is Some ==> records_named(Grammar::Go, nodes, src, i, container, "method"@, container),
{
    lemma_visit_is_go(nodes, src, i, container);
    assert(nodes[i].kind == "package_clause"@ && field_child(nodes, i, "name"@) is Some ==> visit(Grammar::Go, nodes, src, i, container).0.len() == 0) by { reveal_strlit("package_clause"); }
    assert(nodes[i].kind == "function_declaration"@ && field_child(nodes, i, "name"@) is Some ==> records_named(Grammar::Go, nodes, src, i, container, "function"@, container)) by { reveal_strlit("package_clause"); reveal_strlit("type_spec"); reveal_strlit("function_declaration"); reveal_strlit("method_declaration"); reveal_strlit("var_spec"); reveal_strlit("const_spec"); assert("function_declaration"@.len() == 20 && "package_clause"@.len() == 14); assert("function_declaration"@.len() == 20 && "type_spec"@.len() == 9); assert("function_declaration"@.len() == 20 && "method_declaration"@.len() == 18); assert("function_declaration"@.len() == 20 && "var_spec"@.len() == 8); assert("function_declaration"@.len() == 20 && "const_spec"@.len() == 10); }
    assert(nodes[i].kind == "method_declaration"@ && field_child(nodes, i, "name"@) is Some ==> records_named(Grammar::Go, nodes, src, i, container, "method"@, container)) by { reveal_strlit("package_clause"); reveal_strlit("type_spec"); reveal_strlit("function_declaration"); reveal_strlit("method_declaration"); reveal_strlit("var_spec"); reveal_strlit("const_spec"); assert("method_declaration"@.len() == 18 && "package_clause"@.len() == 14); assert("method_declaration"@.len() == 18 && "type_spec"@.len() == 9); assert("method_declaration"@.len() == 18 && "function_declaration"@.len() == 20); assert("method_declaration"@.len() == 18 && "var_spec"@.len() == 8); assert("method_declaration"@.len() == 18 && "const_spec"@.len() == 10); }
}

proof fn lemma_visit_is_cpp(nodes: Seq<NodeView>, src: Seq<char>, i: int, container: Seq<char>)
    ensures
        visit(Grammar::Cpp, nodes, src, i, container) == visit_cpp(nodes, src, i, container),
{
    reveal(visit);
}

/// C and C++: each named class, struct and enum yields one symbol named by
/// its `name` field, of kind `class`, `struct` or `enum`, and opens a
/// container (the `::` path extended by the name); a namespace yields no
/// symbol and opens a container under its name (`<anon>` when unnamed).
pub proof fn law_cpp_declarations(nodes: Seq<NodeView>, src: Seq<char>, i: int, container: Seq<char>)
    requires
        0 <= i < nodes.len(),
    ensures
        nodes[i].kind == "class_specifier"@ && field_child(nodes, i, "name"@) is Some ==> records_named(Grammar::Cpp, nodes, src, i, container, "class"@, named_path(nodes, src, i, container, "::"@)),
        nodes[i].kind == "struct_specifier"@ && field_child(nodes, i, "name"@) is Some ==> records_named(Grammar::Cpp, nodes, src, i, container, "struct"@, named_path(nodes, src, i, container, "::"@)),
        nodes[i].kind == "enum_specifier"@ && field_child(nodes, i, "name"@) is Some ==> records_named(Grammar::Cpp, nodes, src, i, container, "enum"@, named_path(nodes, src, i, container, "::"@)),
        nodes[i].kind == "namespace_definition"@ && field_child(nodes, i, "name"@) is Some ==> visit(Grammar::Cpp, nodes, src, i, container).0.len() == 0 && continuation(Grammar::Cpp, nodes, src, i, container) == named_path(nodes, src, i, container, "::"@),
        nodes[i].kind == "namespace_definition"@ && field_child(nodes, i, "name"@) is None ==> visit(Grammar::Cpp, nodes, src, i, container).0.len() == 0 && continuation(Grammar::Cpp, nodes, src, i, container) == (if container.len() == 0 { "<anon>"@ } else { container + "::"@ + "<anon>"@ }),
{
    lemma_visit_is_cpp(nodes, src, i, container);
    assert(nodes[i].kind == "class_specifier"@ && field_child(nodes, i, "name"@) is Some ==> records_named(Grammar::Cpp, nodes, src, i, container, "class"@, named_path(nodes, src, i, container, "::"@))) by { reveal_strlit("class_specifier"); reveal_strlit("struct_specifier"); reveal_strlit("enum_specifier"); reveal_strlit("function_definition"); reveal_strlit("declaration"); reveal_strlit("namespace_definition"); assert("class_specifier"@.len() == 15 && "struct_specifier"@.len() == 16); assert("class_specifier"@.len() == 15 && "enum_specifier"@.len() == 14); assert("class_specifier"@.len() == 15 && "function_definition"@.len() == 19); assert("class_specifier"@.len() == 15 && "declaration"@.len() == 11); assert("class_specifier"@.len() == 15 && "namespace_definition"@.len() == 20); }
    assert(nodes[i].kind == "struct_specifier"@ && field_child(nodes, i, "name"@) is Some ==> records_named(Grammar::Cpp, nodes, src, i, container, "struct"@, named_path(nodes, src, i, container, "::"@))) by { reveal_strlit("class_specifier"); reveal_strlit("struct_specifier"); reveal_strlit("enum_specifier"); reveal_strlit("function_definition"); reveal_strlit("declaration"); reveal_strlit("namespace_definition"); assert("struct_specifier"@.len() == 16 && "class_specifier"@.len() == 15); assert("struct_specifier"@.len() == 16 && "enum_specifier"@.len() == 14); assert("struct_specifier"@.len() == 16 && "function_definition"@.len() == 19); assert("struct_specifier"@.len() == 16 && "declaration"@.len() == 11); assert("struct_specifier"@.len() == 16 && "namespace_definition"@.len() == 20); }
    assert(nodes[i].kind == "enum_specifier"@ && field_child(nodes, i, "name"@) is Some ==> records_named(Grammar::Cpp, nodes, src, i, container, "enum"@, named_path(nodes, src, i, container, "::"@))) by { reveal_strlit("class_specifier"); reveal_strlit("struct_specifier"); reveal_strlit("enum_specifier"); reveal_strlit("function_definition"); reveal_strlit("declaration"); reveal_strlit("namespace_definition"); assert("enum_specifier"@.len() == 14 && "class_specifier"@.len() == 15); assert("enum_specifier"@.len() == 14 && "struct_specifier"@.len() == 16); assert("enum_specifier"@.len() == 14 && "function_definition"@.len() == 19); assert("enum_specifier"@.len() == 14 && "declaration"@.len() == 11); assert("enum_specifier"@.len() == 14 && "namespace_definition"@.len() == 20); }
    assert(nodes[i].kind == "namespace_definition"@ && field_child(nodes, i, "name"@) is Some ==> visit(Grammar::Cpp, nodes, src, i, container).0.len() == 0 && continuation(Grammar::Cpp, nodes, src, i, container) == named_path(nodes, src, i, container, "::"@)) by { reveal_strlit("class_specifier"); reveal_strlit("struct_specifier"); reveal_strlit("enum_specifier"); reveal_strlit("function_definition"); reveal_strlit("declaration"); reveal_strlit("namespace_definition"); assert("namespace_definition"@.len() == 20 && "class_specifier"@.len() == 15); assert("namespace_definition"@.len() == 20 && "struct_specifier"@.len() == 16); assert("namespace_definition"@.len() == 20 && "enum_specifier"@.len() == 14); assert("namespace_definition"@.len() == 20 && "function_definition"@.len() == 19); assert("namespace_definition"@.len() == 20 && "declaration"@.len() == 11); }
    assert(nodes[i].kind == "namespace_definition"@ && field_child(nodes, i, "name"@) is None ==> visit(Grammar::Cpp, nodes, src, i, container).0.len() == 0 && continuation(Grammar::Cpp, nodes, src, i, container) == (if container.len() == 0 { "<anon>"@ } else { container + "::"@ + "<anon>"@ })) by { reveal_strlit("class_specifier"); reveal_strlit("struct_specifier"); reveal_strlit("enum_specifier"); reveal_strlit("function_definition"); reveal_strlit("declaration"); reveal_strlit("namespace_definition"); assert("namespace_definition"@.len() == 20 && "class_specifier"@.len() == 15); assert("namespace_definition"@.len() == 20 && "struct_specifier"@.len() == 16); assert("namespace_definition"@.len() == 20 && "enum_specifier"@.len() == 14); assert("namespace_definition"@.len() == 20 && "function_definition"@.len() == 19); assert("namespace_definition"@.len() == 20 && "declaration"@.len() == 11); }
}

} // verus!
