//! YAML symbol extractor.
use vstd::prelude::*;

use crate::pattern::{
    captures, compile_regex, group_text, group_text_exec, lemma_group_found, regex_captures,
    regex_compiles,
};
use crate::symbol::{
    lemma_found_step, lemma_read_step, line_symbol, names_found, read_in_line_order, scanned_from_lines, symbol_views, Symbol, SymbolView,
};
use crate::text::{
    chars_of, column_of, column_of_exec, copy_chars, join, join_exec, lines, lines_of,
    starts_with, starts_with_exec, string_from_chars, trim, trim_chars, utf8_len, utf8_len_exec,
    views,
};

verus! {

/// `key:` with its indentation.
pub const KEY_PATTERN: &'static str = r"^(\s*)([A-Za-z0-9_.-]+)\s*:";

/// `- key:` with its indentation.
pub const LIST_KEY_PATTERN: &'static str = r"^(\s*)-\s*([A-Za-z0-9_.-]+)\s*:";

/// An open key with the byte width of its indentation.
pub type OpenKey = (nat, Seq<char>);

/// Drops the open keys indented as deep as `indent` or deeper.
pub open spec fn close_keys(stack: Seq<OpenKey>, indent: nat) -> Seq<OpenKey>
    decreases stack.len(),
{
    if stack.len() > 0 && stack.last().0 >= indent {
        close_keys(stack.drop_last(), indent)
    } else {
        stack
    }
}

/// The dotted path of the open keys.
pub open spec fn key_path(stack: Seq<OpenKey>) -> Seq<char> {
    join(stack.map_values(|e: OpenKey| e.1), "."@)
}

/// The symbol recorded for a key.
pub open spec fn key_symbol(key: Seq<char>, container: Seq<char>, line_idx: int, line: Seq<char>) -> SymbolView {
    let col = column_of(line, key);
    SymbolView {
        name: key,
        kind: "key"@,
        start_line: line_idx as u32,
        start_col: col,
        end_line: line_idx as u32,
        end_col: (col + utf8_len(key)) as u32,
        container,
        signature: trim(line),
    }
}

/// What the extractor remembers between lines.
pub struct YamlScan {
    pub stack: Seq<OpenKey>,
    pub symbols: Seq<SymbolView>,
}

/// One line of the scan, given what the two patterns capture on it: a key
/// closes the keys indented as deep or deeper, is recorded under the path of
/// the keys still open, and becomes open itself.
pub open spec fn scan_line(
    st: YamlScan,
    line_idx: int,
    line: Seq<char>,
    key_caps: Option<Seq<Option<Seq<char>>>>,
    list_key_caps: Option<Seq<Option<Seq<char>>>>,
) -> YamlScan {
    let caps = if key_caps is Some {
        key_caps
    } else {
        list_key_caps
    };
    if trim(line).len() == 0 || starts_with(trim(line), "#"@) || caps is None {
        st
    } else {
        let g = caps->0;
        let indent = utf8_len(group_text(g, 1));
        let key = group_text(g, 2);
        let stack = close_keys(st.stack, indent);
        YamlScan {
            stack: stack.push((indent, key)),
            symbols: st.symbols.push(key_symbol(key, key_path(stack), line_idx, line)),
        }
    }
}

/// The scan over the given lines.
pub open spec fn scan(ls: Seq<Seq<char>>) -> YamlScan
    decreases ls.len(),
{
    if ls.len() == 0 {
        YamlScan { stack: seq![], symbols: seq![] }
    } else {
        let line = ls.last();
        scan_line(
            scan(ls.drop_last()),
            ls.len() - 1,
            line,
            regex_captures(KEY_PATTERN@, line),
            regex_captures(LIST_KEY_PATTERN@, line),
        )
    }
}

/// The symbols of a YAML document: none when a pattern does not compile.
pub open spec fn yaml_symbols(source: Seq<char>) -> Seq<SymbolView> {
    if regex_compiles(KEY_PATTERN@) && regex_compiles(LIST_KEY_PATTERN@) {
        scan(lines(source)).symbols
    } else {
        seq![]
    }
}

/// The value of an exec key stack.
pub open spec fn stack_view(v: Seq<(u128, Vec<char>)>) -> Seq<OpenKey> {
    v.map_values(|e: (u128, Vec<char>)| (e.0 as nat, e.1@))
}

/// Applies one line of the scan, given what the two patterns capture on it.
pub fn scan_line_exec(
    stack: &mut Vec<(u128, Vec<char>)>,
    symbols: &mut Vec<Symbol>,
    line_idx: usize,
    line: &[char],
    key_caps: Option<Vec<Option<String>>>,
    list_key_caps: Option<Vec<Option<String>>>,
)
    ensures
        ({
            let st = scan_line(
                YamlScan { stack: stack_view(old(stack)@), symbols: symbol_views(old(symbols)@) },
                line_idx as int,
                line@,
                key_caps.deep_view(),
                list_key_caps.deep_view(),
            );
            &&& stack_view(final(stack)@) == st.stack
            &&& symbol_views(final(symbols)@) == st.symbols
        }),
{
    let trimmed = trim_chars(line);
    if trimmed.len() == 0 || starts_with_exec(&trimmed, &chars_of("#")) {
        return ;
    }
    let caps = match key_caps {
        Some(g) => Some(g),
        None => list_key_caps,
    };
    let g = match caps {
        Some(g) => g,
        None => {
            return ;
        },
    };
    let indent = utf8_len_exec(&group_text_exec(&g, 1));
    let key = group_text_exec(&g, 2);
    let ghost st0 = stack_view(stack@);
    while stack.len() > 0 && stack[stack.len() - 1].0 >= indent
        invariant
            close_keys(st0, indent as nat) == close_keys(stack_view(stack@), indent as nat),
        decreases stack@.len(),
    {
        let ghost before = stack@;
        stack.pop();
        assert(stack_view(stack@) =~= stack_view(before).drop_last());
    }
    let mut names: Vec<Vec<char>> = Vec::new();
    let mut k: usize = 0;
    while k < stack.len()
        invariant
            k <= stack@.len(),
            views(names@) == stack_view(stack@).map_values(|e: OpenKey| e.1).take(k as int),
        decreases stack@.len() - k,
    {
        let ghost before = names@;
        let nm = copy_chars(&stack[k].1);
        names.push(nm);
        assert(views(names@) =~= views(before).push(nm@));
        assert(views(names@) =~= stack_view(stack@).map_values(|e: OpenKey| e.1).take(k + 1));
        k = k + 1;
    }
    assert(stack_view(stack@).map_values(|e: OpenKey| e.1).take(stack@.len() as int)
        =~= stack_view(stack@).map_values(|e: OpenKey| e.1));
    let container = join_exec(&names, &chars_of("."));
    let col = column_of_exec(line, &key);
    let len = utf8_len_exec(&key);
    let end = ((col as u128) + len) as u32;
    let sig = trim_chars(line);
    let sym = Symbol {
        name: string_from_chars(&key),
        kind: string_from_chars(&chars_of("key")),
        start_line: line_idx as u32,
        start_col: col,
        end_line: line_idx as u32,
        end_col: end,
        container: string_from_chars(&container),
        signature: string_from_chars(&sig),
    };
    proof {
        let x = (col + len) as u128;
        assert(x as u32 == (x as int) as u32) by (bit_vector);
    }
    let ghost old_syms = symbols@;
    symbols.push(sym);
    assert(symbol_views(symbols@) =~= symbol_views(old_syms).push(sym@));
    let ghost sv = stack_view(stack@);
    stack.push((indent, key));
    assert(stack_view(stack@) =~= sv.push((indent as nat, key@)));
}

/// Extracts every mapping key of a YAML document, with the dotted path of
/// the keys it is nested under as container.
pub fn extract_symbols(source: &str) -> (r: Vec<Symbol>)
    ensures
        symbol_views(r@) == yaml_symbols(source@),
        lines(source@).len() <= u32::MAX + 1 ==> scanned_from_lines(symbol_views(r@), lines(source@)),
{
    let mut symbols: Vec<Symbol> = Vec::new();
    let key_re = match compile_regex(KEY_PATTERN) {
        Ok(re) => re,
        Err(_) => {
            return symbols;
        },
    };
    let list_key_re = match compile_regex(LIST_KEY_PATTERN) {
        Ok(re) => re,
        Err(_) => {
            return symbols;
        },
    };
    let mut stack: Vec<(u128, Vec<char>)> = Vec::new();
    let src = chars_of(source);
    let ls = lines_of(&src);
    let mut i: usize = 0;
    while i < ls.len()
        invariant
            i <= ls@.len(),
            views(ls@) == lines(source@),
            key_re@ == KEY_PATTERN@,
            list_key_re@ == LIST_KEY_PATTERN@,
            ({
                let st = scan(views(ls@).take(i as int));
                &&& stack_view(stack@) == st.stack
                &&& symbol_views(symbols@) == st.symbols
            }),
            views(ls@).len() <= u32::MAX + 1 ==> names_found(symbol_views(symbols@), views(ls@).take(i as int)),
        decreases ls@.len() - i,
    {
        let line: &Vec<char> = &ls[i];
        let line_str = string_from_chars(line);
        let key_caps = captures(&key_re, &line_str);
        let list_key_caps = if key_caps.is_none() {
            captures(&list_key_re, &line_str)
        } else {
            None
        };
        proof {
            let ls_v = views(ls@);
            assert(ls_v.take(i + 1).drop_last() =~= ls_v.take(i as int));
            assert(ls_v.take(i + 1).last() == line@);
        }
        let ghost kc = key_caps.deep_view();
        let ghost lc = list_key_caps.deep_view();
        let ghost prev = symbol_views(symbols@);
        scan_line_exec(&mut stack, &mut symbols, i, line, key_caps, list_key_caps);
        proof {
            let ls_v = views(ls@);
            let next = symbol_views(symbols@);
            if ls_v.len() <= u32::MAX + 1 {
                if next != prev {
                    assert(next.drop_last() =~= prev);
                    if kc is Some {
                        lemma_group_found(kc->0, line@, 2);
                    } else {
                        lemma_group_found(lc->0, line@, 2);
                    }
                }
                lemma_found_step(prev, next, ls_v.take(i + 1));
            }
        }
        i = i + 1;
    }
    assert(views(ls@).take(ls@.len() as int) =~= views(ls@));
    proof {
        if lines(source@).len() <= u32::MAX + 1 {
            law_yaml_symbols_read_in_line_order(source@);
        }
    }
    symbols
}

proof fn lemma_scan_line_order(ls: Seq<Seq<char>>)
    requires
        ls.len() <= u32::MAX + 1,
    ensures
        read_in_line_order(scan(ls).symbols, ls),
    decreases ls.len(),
{
    if ls.len() > 0 {
        lemma_scan_line_order(ls.drop_last());
        let prev = scan(ls.drop_last()).symbols;
        let next = scan(ls).symbols;
        if next != prev {
            assert(next.drop_last() =~= prev);
            let s = next.last();
            assert(s == line_symbol(s.name, s.kind, s.container, ls.len() - 1, ls.last()));
        }
        lemma_read_step(prev, next, ls);
    }
}

/// Each key of a YAML document lies on the line its `start_line` names,
/// starts where the key first occurs there, spans the bytes of the key and
/// carries the trimmed line as its signature; the keys follow the lines in
/// order.
pub proof fn law_yaml_symbols_read_in_line_order(source: Seq<char>)
    requires
        lines(source).len() <= u32::MAX + 1,
    ensures
        read_in_line_order(yaml_symbols(source), lines(source)),
{
    if regex_compiles(KEY_PATTERN@) && regex_compiles(LIST_KEY_PATTERN@) {
        lemma_scan_line_order(lines(source));
    }
}

} // verus!
