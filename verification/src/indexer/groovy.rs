//! Groovy symbol extractor.
use vstd::prelude::*;

use crate::pattern::{
    captures, compile_regex, group_or, group_or_exec, group_text, group_text_exec, lemma_group_found,
    regex_captures, regex_compiles,
};
use crate::symbol::{
    lemma_found_step, lemma_read_step, line_symbol, names_found, scanned_from_lines, make_line_symbol, read_in_line_order, symbol_views, Symbol,
    SymbolView,
};
use crate::text::{
    chars_eq, chars_of, copy_chars, count_char, count_char_exec, join, join_exec, lemma_count_char_bound,
    lemma_lines_total_len, lemma_total_len_prefix, lines, lines_of, starts_with,
    starts_with_exec, string_from_chars, total_len, trim, trim_chars, views,
};

verus! {

/// Type declarations, with optional modifiers.
pub const TYPE_PATTERN: &'static str = r"^\s*(?:public\s+|private\s+|protected\s+|abstract\s+|final\s+|static\s+)*(class|interface|enum|trait)\s+([A-Za-z_][A-Za-z0-9_]*)";

/// Method declarations: modifiers, `def` or a return type, then `name(`.
pub const METHOD_PATTERN: &'static str = r"^\s*(?:public\s+|private\s+|protected\s+|static\s+|final\s+|synchronized\s+)*(?:def|[A-Za-z_][A-Za-z0-9_<>,\[\]?]*)\s+([A-Za-z_][A-Za-z0-9_]*)\s*\(";

/// A type that is open, with the brace depth at which its body lies.
pub type Scope = (Seq<char>, int);

/// Drops the innermost scopes that lie deeper than `depth`.
pub open spec fn close_scopes(stack: Seq<Scope>, depth: int) -> Seq<Scope>
    decreases stack.len(),
{
    if stack.len() > 0 && stack.last().1 > depth {
        close_scopes(stack.drop_last(), depth)
    } else {
        stack
    }
}

/// The brace depth and open types after a line: the depth moves by the
/// line's `{` minus its `}`, and types whose body now lies deeper are closed.
pub open spec fn update_scope(depth: int, stack: Seq<Scope>, line: Seq<char>) -> (int, Seq<Scope>) {
    let d = depth + count_char(line, '{') - count_char(line, '}');
    (d, close_scopes(stack, d))
}

/// The names of the open types.
pub open spec fn scope_names(stack: Seq<Scope>) -> Seq<Seq<char>> {
    stack.map_values(|e: Scope| e.0)
}

/// The dotted container of the open types.
pub open spec fn scope_container(stack: Seq<Scope>) -> Seq<char> {
    join(scope_names(stack), "."@)
}

/// Words that the method pattern matches but that are control statements.
pub open spec fn is_control_word(name: Seq<char>) -> bool {
    name == "if"@ || name == "for"@ || name == "while"@ || name == "switch"@ || name == "catch"@
}

/// The kind of a type declaration from the text of the type pattern's
/// first group: one of the keywords that group names, read as `class`
/// otherwise.
pub open spec fn type_kind(word: Seq<char>) -> Seq<char> {
    if word == "class"@ || word == "interface"@ || word == "enum"@ || word == "trait"@ {
        word
    } else {
        "class"@
    }
}

fn type_kind_exec(word: Vec<char>) -> (r: Vec<char>)
    ensures
        r@ == type_kind(word@),
{
    if chars_eq(&word, &chars_of("class")) || chars_eq(&word, &chars_of("interface")) || chars_eq(
        &word,
        &chars_of("enum"),
    ) || chars_eq(&word, &chars_of("trait")) {
        word
    } else {
        chars_of("class")
    }
}

/// Whether a line is a comment line (`//` or `*` after trimming).
pub open spec fn is_comment_line(line: Seq<char>) -> bool {
    starts_with(trim(line), "//"@) || starts_with(trim(line), "*"@)
}

/// What the extractor remembers between lines.
pub struct GroovyScan {
    pub depth: int,
    pub stack: Seq<Scope>,
    pub symbols: Seq<SymbolView>,
}

/// One line of the scan, given what the two patterns capture on it.
pub open spec fn scan_line(
    st: GroovyScan,
    line_idx: int,
    line: Seq<char>,
    type_caps: Option<Seq<Option<Seq<char>>>>,
    method_caps: Option<Seq<Option<Seq<char>>>>,
) -> GroovyScan {
    if is_comment_line(line) {
        let (d, stack) = update_scope(st.depth, st.stack, line);
        GroovyScan { depth: d, stack, symbols: st.symbols }
    } else {
        let container = scope_container(st.stack);
        match type_caps {
            Some(g) => {
                let kind = type_kind(group_or(g, 1, "class"@));
                let name = group_text(g, 2);
                let (d, stack) = update_scope(st.depth, st.stack.push((name, st.depth + 1)), line);
                GroovyScan {
                    depth: d,
                    stack,
                    symbols: st.symbols.push(line_symbol(name, kind, container, line_idx, line)),
                }
            },
            None => {
                let symbols = match method_caps {
                    Some(g) => if is_control_word(group_text(g, 1)) {
                        st.symbols
                    } else {
                        st.symbols.push(
                            line_symbol(group_text(g, 1), "method"@, container, line_idx, line),
                        )
                    },
                    None => st.symbols,
                };
                let (d, stack) = update_scope(st.depth, st.stack, line);
                GroovyScan { depth: d, stack, symbols }
            },
        }
    }
}

/// The scan over the given lines.
pub open spec fn scan(ls: Seq<Seq<char>>) -> GroovyScan
    decreases ls.len(),
{
    if ls.len() == 0 {
        GroovyScan { depth: 0, stack: seq![], symbols: seq![] }
    } else {
        let line = ls.last();
        scan_line(
            scan(ls.drop_last()),
            ls.len() - 1,
            line,
            regex_captures(TYPE_PATTERN@, line),
            regex_captures(METHOD_PATTERN@, line),
        )
    }
}

/// The symbols of a Groovy source: none when a pattern does not compile.
pub open spec fn groovy_symbols(source: Seq<char>) -> Seq<SymbolView> {
    if regex_compiles(TYPE_PATTERN@) && regex_compiles(METHOD_PATTERN@) {
        scan(lines(source)).symbols
    } else {
        seq![]
    }
}

/// The value of an exec scope stack.
pub open spec fn stack_view(v: Seq<(Vec<char>, i64)>) -> Seq<Scope> {
    v.map_values(|e: (Vec<char>, i64)| (e.0@, e.1 as int))
}

/// Moves the brace depth by the line's braces and closes the types whose
/// body now lies deeper.
pub fn update_scope_exec(line: &[char], depth: &mut i64, stack: &mut Vec<(Vec<char>, i64)>)
    requires
        -(i32::MAX as int) <= *old(depth) <= i32::MAX,
        -(i32::MAX as int) <= *old(depth) + line@.len() <= i32::MAX,
        -(i32::MAX as int) <= *old(depth) - line@.len() <= i32::MAX,
    ensures
        (*final(depth) as int, stack_view(final(stack)@)) == update_scope(
            *old(depth) as int,
            stack_view(old(stack)@),
            line@,
        ),
        final(stack)@.len() <= old(stack)@.len(),
        forall|i: int| 0 <= i < final(stack)@.len() ==> final(stack)@[i] == old(stack)@[i],
{
    proof {
        lemma_count_char_bound(line@, '{');
        lemma_count_char_bound(line@, '}');
    }
    let opens = count_char_exec(line, '{') as i64;
    let closes = count_char_exec(line, '}') as i64;
    *depth = *depth + opens - closes;
    let ghost st0 = stack_view(stack@);
    let ghost v0 = stack@;
    while stack.len() > 0 && stack[stack.len() - 1].1 > *depth
        invariant
            close_scopes(st0, *depth as int) == close_scopes(stack_view(stack@), *depth as int),
            stack@.len() <= v0.len(),
            forall|i: int| 0 <= i < stack@.len() ==> stack@[i] == v0[i],
        decreases stack@.len(),
    {
        let ghost before = stack@;
        stack.pop();
        assert(stack_view(stack@) =~= stack_view(before).drop_last());
    }
}

/// Applies one line of the scan, given what the two patterns capture on it.
pub fn scan_line_exec(
    depth: &mut i64,
    stack: &mut Vec<(Vec<char>, i64)>,
    symbols: &mut Vec<Symbol>,
    line_idx: usize,
    line: &[char],
    type_caps: Option<Vec<Option<String>>>,
    method_caps: Option<Vec<Option<String>>>,
)
    requires
        -(i32::MAX as int) <= *old(depth) - line@.len(),
        *old(depth) + line@.len() + 1 <= i32::MAX,
    ensures
        ({
            let st = scan_line(
                GroovyScan {
                    depth: *old(depth) as int,
                    stack: stack_view(old(stack)@),
                    symbols: symbol_views(old(symbols)@),
                },
                line_idx as int,
                line@,
                type_caps.deep_view(),
                method_caps.deep_view(),
            );
            &&& *final(depth) as int == st.depth
            &&& stack_view(final(stack)@) == st.stack
            &&& symbol_views(final(symbols)@) == st.symbols
        }),
{
    let trimmed = trim_chars(line);
    if starts_with_exec(&trimmed, &chars_of("//")) || starts_with_exec(&trimmed, &chars_of("*")) {
        update_scope_exec(line, depth, stack);
        return ;
    }
    let mut names: Vec<Vec<char>> = Vec::new();
    let mut k: usize = 0;
    while k < stack.len()
        invariant
            k <= stack@.len(),
            views(names@) == scope_names(stack_view(stack@)).take(k as int),
        decreases stack@.len() - k,
    {
        let ghost before = names@;
        let nm = copy_chars(&stack[k].0);
        names.push(nm);
        assert(scope_names(stack_view(stack@))[k as int] == stack@[k as int].0@);
        assert(views(names@) =~= views(before).push(nm@));
        assert(views(names@) =~= scope_names(stack_view(stack@)).take(k + 1));
        k = k + 1;
    }
    assert(scope_names(stack_view(stack@)).take(stack@.len() as int) =~= scope_names(
        stack_view(stack@),
    ));
    let container = join_exec(&names, &chars_of("."));
    let ghost old_syms = symbols@;
    match &type_caps {
        Some(g) => {
            let kind = type_kind_exec(group_or_exec(g, 1, "class"));
            let name = group_text_exec(g, 2);
            let sym = make_line_symbol(&name, &kind, &container, line_idx, line);
            symbols.push(sym);
            assert(symbol_views(symbols@) =~= symbol_views(old_syms).push(sym@));
            let ghost sv = stack_view(stack@);
            let d1 = *depth + 1;
            stack.push((name, d1));
            assert(stack_view(stack@) =~= sv.push((name@, d1 as int)));
            update_scope_exec(line, depth, stack);
        },
        None => {
            match &method_caps {
                Some(g) => {
                    let name = group_text_exec(g, 1);
                    let is_ctl = chars_eq(&name, &chars_of("if")) || chars_eq(
                        &name,
                        &chars_of("for"),
                    ) || chars_eq(&name, &chars_of("while")) || chars_eq(
                        &name,
                        &chars_of("switch"),
                    ) || chars_eq(&name, &chars_of("catch"));
                    if !is_ctl {
                        let sym = make_line_symbol(
                            &name,
                            &chars_of("method"),
                            &container,
                            line_idx,
                            line,
                        );
                        symbols.push(sym);
                        assert(symbol_views(symbols@) =~= symbol_views(old_syms).push(sym@));
                    }
                },
                None => {},
            }
            update_scope_exec(line, depth, stack);
        },
    }
}

/// Extracts classes, interfaces, enums, traits and methods from Groovy
/// source, with the dotted path of the enclosing types as container.
pub fn extract_symbols(source: &str) -> (r: Vec<Symbol>)
    requires
        source@.len() < i32::MAX,
    ensures
        symbol_views(r@) == groovy_symbols(source@),
        lines(source@).len() <= u32::MAX + 1 ==> scanned_from_lines(symbol_views(r@), lines(source@)),
{
    let mut symbols: Vec<Symbol> = Vec::new();
    let type_re = match compile_regex(TYPE_PATTERN) {
        Ok(re) => re,
        Err(_) => {
            return symbols;
        },
    };
    let method_re = match compile_regex(METHOD_PATTERN) {
        Ok(re) => re,
        Err(_) => {
            return symbols;
        },
    };
    let mut depth: i64 = 0;
    let mut stack: Vec<(Vec<char>, i64)> = Vec::new();
    let src = chars_of(source);
    let ls = lines_of(&src);
    proof {
        lemma_lines_total_len(source@);
    }
    let mut i: usize = 0;
    while i < ls.len()
        invariant
            i <= ls@.len(),
            views(ls@) == lines(source@),
            total_len(views(ls@)) < i32::MAX,
            type_re@ == TYPE_PATTERN@,
            method_re@ == METHOD_PATTERN@,
            -(total_len(views(ls@).take(i as int)) as int) <= depth <= total_len(
                views(ls@).take(i as int),
            ),
            ({
                let st = scan(views(ls@).take(i as int));
                &&& depth as int == st.depth
                &&& stack_view(stack@) == st.stack
                &&& symbol_views(symbols@) == st.symbols
            }),
            views(ls@).len() <= u32::MAX + 1 ==> names_found(symbol_views(symbols@), views(ls@).take(i as int)),
        decreases ls@.len() - i,
    {
        let line: &Vec<char> = &ls[i];
        let line_str = string_from_chars(line);
        let type_caps = captures(&type_re, &line_str);
        let method_caps = if type_caps.is_none() {
            captures(&method_re, &line_str)
        } else {
            None
        };
        proof {
            let ls_v = views(ls@);
            assert(ls_v.take(i + 1).drop_last() =~= ls_v.take(i as int));
            assert(ls_v.take(i + 1).last() == line@);
            lemma_total_len_prefix(ls_v, i + 1);
            lemma_count_char_bound(line@, '{');
            lemma_count_char_bound(line@, '}');
        }
        let ghost tc = type_caps.deep_view();
        let ghost mc = method_caps.deep_view();
        let ghost prev = symbol_views(symbols@);
        scan_line_exec(&mut depth, &mut stack, &mut symbols, i, line, type_caps, method_caps);
        proof {
            let ls_v = views(ls@);
            let next = symbol_views(symbols@);
            if ls_v.len() <= u32::MAX + 1 {
                if next != prev {
                    assert(next.drop_last() =~= prev);
                    if tc is Some {
                        lemma_group_found(tc->0, line@, 2);
                    } else {
                        lemma_group_found(mc->0, line@, 1);
                    }
                }
                lemma_found_step(prev, next, ls_v.take(i + 1));
            }
        }
        i = i + 1;
    }
    assert(views(ls@).take(ls@.len() as int) =~= views(ls@));
    proof {
        if lines(source@).len() <= u32::MAX + 1 {
            law_groovy_symbols_read_in_line_order(source@);
        }
    }
    symbols
}

/// Whether every symbol comes from a line that is not a comment line, and
/// no method is named by a control word.
pub open spec fn from_code_lines(syms: Seq<SymbolView>, ls: Seq<Seq<char>>) -> bool {
    forall|k: int|
        0 <= k < syms.len() ==> {
            let line = ls[(#[trigger] syms[k]).start_line as int];
            &&& !is_comment_line(line)
            &&& syms[k].kind == "method"@ ==> !is_control_word(syms[k].name)
        }
}

proof fn lemma_scan_line_order(ls: Seq<Seq<char>>)
    requires
        ls.len() <= u32::MAX + 1,
    ensures
        read_in_line_order(scan(ls).symbols, ls),
        from_code_lines(scan(ls).symbols, ls),
    decreases ls.len(),
{
    if ls.len() > 0 {
        lemma_scan_line_order(ls.drop_last());
        let prev = scan(ls.drop_last()).symbols;
        let next = scan(ls).symbols;
        let n = ls.len() - 1;
        if next != prev {
            assert(next.drop_last() =~= prev);
        }
        lemma_read_step(prev, next, ls);
        assert forall|k: int| 0 <= k < next.len() implies {
            let line = ls[(#[trigger] next[k]).start_line as int];
            &&& !is_comment_line(line)
            &&& next[k].kind == "method"@ ==> !is_control_word(next[k].name)
        } by {
            reveal_strlit("method");
            reveal_strlit("class");
            reveal_strlit("interface");
            reveal_strlit("enum");
            reveal_strlit("trait");
            if k < prev.len() {
                assert(next[k] == prev[k]);
                assert(ls[prev[k].start_line as int] == ls.drop_last()[prev[k].start_line as int]);
            } else {
                assert(next[k].start_line == n);
                let tc = regex_captures(TYPE_PATTERN@, ls.last());
                if !is_comment_line(ls.last()) && tc is Some {
                    let w = group_or(tc->0, 1, "class"@);
                    assert("method"@.len() == 6);
                    assert(type_kind(w) != "method"@) by {
                        if type_kind(w) == "method"@ {
                            assert(type_kind(w).len() == 6);
                        }
                    }
                }
            }
        }
    }
}

/// Each symbol of a Groovy source lies on the line its `start_line` names,
/// starts where its name first occurs there, spans the bytes of its name and
/// carries the trimmed line as its signature; the symbols follow the lines
/// in order. None comes from a comment line (`//` or `*` after trimming),
/// and no method is named `if`, `for`, `while`, `switch` or `catch`.
pub proof fn law_groovy_symbols_read_in_line_order(source: Seq<char>)
    requires
        lines(source).len() <= u32::MAX + 1,
    ensures
        read_in_line_order(groovy_symbols(source), lines(source)),
        from_code_lines(groovy_symbols(source), lines(source)),
{
    if regex_compiles(TYPE_PATTERN@) && regex_compiles(METHOD_PATTERN@) {
        lemma_scan_line_order(lines(source));
    }
}

} // verus!
