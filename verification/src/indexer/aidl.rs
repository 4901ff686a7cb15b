//! AIDL symbol extractor.
use vstd::prelude::*;

use crate::pattern::{
    captures, compile_regex, group_or, group_or_exec, group_text, group_text_exec, lemma_group_found,
    regex_captures, regex_compiles,
};
use crate::symbol::{
    lemma_found_step, lemma_read_step, line_symbol, names_found, scanned_from_lines, make_line_symbol, read_in_line_order, symbol_views, Symbol,
    SymbolView,
};
use crate::text::{chars_of, copy_chars, extend_chars, lines, lines_of, string_from_chars, views};

verus! {

/// `package a.b.c;`
pub const PACKAGE_PATTERN: &'static str = r"^\s*package\s+([A-Za-z_][A-Za-z0-9_.]*)\s*;";

/// `interface Foo`, `parcelable Foo`, `union Foo`, `enum Foo`.
pub const TYPE_PATTERN: &'static str = r"^\s*(interface|parcelable|union|enum)\s+([A-Za-z_][A-Za-z0-9_]*)";

/// `[oneway] ReturnType name(args);`
pub const METHOD_PATTERN: &'static str = r"^\s*(?:oneway\s+)?[A-Za-z_][A-Za-z0-9_<>\[\].\s]*\s+([A-Za-z_][A-Za-z0-9_]*)\s*\([^;]*\)\s*;";

/// What the extractor remembers between lines.
pub struct AidlScan {
    pub package_name: Seq<char>,
    pub current_type: Seq<char>,
    pub symbols: Seq<SymbolView>,
}

/// The container of a method: `package.Type`, or whichever of the two is known.
pub open spec fn method_container(package_name: Seq<char>, current_type: Seq<char>) -> Seq<char> {
    if package_name.len() == 0 {
        current_type
    } else if current_type.len() == 0 {
        package_name
    } else {
        package_name + "."@ + current_type
    }
}

/// One line of the scan, given what the three patterns capture on it.
/// The package is taken from the first line that declares one; a type
/// declaration records the type and becomes the container of later methods.
pub open spec fn scan_line(
    st: AidlScan,
    line_idx: int,
    line: Seq<char>,
    package_caps: Option<Seq<Option<Seq<char>>>>,
    type_caps: Option<Seq<Option<Seq<char>>>>,
    method_caps: Option<Seq<Option<Seq<char>>>>,
) -> AidlScan {
    let package_name = if st.package_name.len() == 0 && package_caps is Some {
        group_text(package_caps->0, 1)
    } else {
        st.package_name
    };
    match type_caps {
        Some(g) => {
            let kind = group_or(g, 1, "interface"@);
            let name = group_text(g, 2);
            AidlScan {
                package_name,
                current_type: name,
                symbols: st.symbols.push(line_symbol(name, kind, package_name, line_idx, line)),
            }
        },
        None => match method_caps {
            Some(g) => {
                let name = group_text(g, 1);
                let container = method_container(package_name, st.current_type);
                AidlScan {
                    package_name,
                    current_type: st.current_type,
                    symbols: st.symbols.push(
                        line_symbol(name, "method"@, container, line_idx, line),
                    ),
                }
            },
            None => AidlScan { package_name, current_type: st.current_type, symbols: st.symbols },
        },
    }
}

/// The scan over the given lines.
pub open spec fn scan(ls: Seq<Seq<char>>) -> AidlScan
    decreases ls.len(),
{
    if ls.len() == 0 {
        AidlScan { package_name: seq![], current_type: seq![], symbols: seq![] }
    } else {
        let line = ls.last();
        scan_line(
            scan(ls.drop_last()),
            ls.len() - 1,
            line,
            regex_captures(PACKAGE_PATTERN@, line),
            regex_captures(TYPE_PATTERN@, line),
            regex_captures(METHOD_PATTERN@, line),
        )
    }
}

/// The symbols of an AIDL source: none when a pattern does not compile.
pub open spec fn aidl_symbols(source: Seq<char>) -> Seq<SymbolView> {
    if regex_compiles(PACKAGE_PATTERN@) && regex_compiles(TYPE_PATTERN@) && regex_compiles(
        METHOD_PATTERN@,
    ) {
        scan(lines(source)).symbols
    } else {
        seq![]
    }
}

/// Applies one line of the scan, given what the three patterns capture on it.
pub fn scan_line_exec(
    package_name: &mut Vec<char>,
    current_type: &mut Vec<char>,
    symbols: &mut Vec<Symbol>,
    line_idx: usize,
    line: &[char],
    package_caps: Option<Vec<Option<String>>>,
    type_caps: Option<Vec<Option<String>>>,
    method_caps: Option<Vec<Option<String>>>,
)
    ensures
        ({
            let st = scan_line(
                AidlScan {
                    package_name: old(package_name)@,
                    current_type: old(current_type)@,
                    symbols: symbol_views(old(symbols)@),
                },
                line_idx as int,
                line@,
                package_caps.deep_view(),
                type_caps.deep_view(),
                method_caps.deep_view(),
            );
            &&& final(package_name)@ == st.package_name
            &&& final(current_type)@ == st.current_type
            &&& symbol_views(final(symbols)@) == st.symbols
        }),
{
    if package_name.len() == 0 {
        match &package_caps {
            Some(g) => {
                *package_name = group_text_exec(g, 1);
            },
            None => {},
        }
    }
    let ghost old_syms = symbols@;
    match &type_caps {
        Some(g) => {
            let kind = group_or_exec(g, 1, "interface");
            let name = group_text_exec(g, 2);
            let sym = make_line_symbol(&name, &kind, package_name, line_idx, line);
            symbols.push(sym);
            *current_type = name;
            assert(symbol_views(symbols@) =~= symbol_views(old_syms).push(sym@));
        },
        None => {
            match &method_caps {
                Some(g) => {
                    let name = group_text_exec(g, 1);
                    let mut container: Vec<char>;
                    if package_name.len() == 0 {
                        container = copy_chars(current_type);
                    } else if current_type.len() == 0 {
                        container = copy_chars(package_name);
                    } else {
                        container = copy_chars(package_name);
                        extend_chars(&mut container, &chars_of("."));
                        extend_chars(&mut container, current_type);
                    }
                    let sym = make_line_symbol(
                        &name,
                        &chars_of("method"),
                        &container,
                        line_idx,
                        line,
                    );
                    symbols.push(sym);
                    assert(symbol_views(symbols@) =~= symbol_views(old_syms).push(sym@));
                },
                None => {},
            }
        },
    }
}

/// Extracts packages-qualified types and methods from AIDL source.
pub fn extract_symbols(source: &str) -> (r: Vec<Symbol>)
    ensures
        symbol_views(r@) == aidl_symbols(source@),
        lines(source@).len() <= u32::MAX + 1 ==> scanned_from_lines(symbol_views(r@), lines(source@)),
{
    let mut symbols: Vec<Symbol> = Vec::new();
    let package_re = match compile_regex(PACKAGE_PATTERN) {
        Ok(re) => re,
        Err(_) => {
            return symbols;
        },
    };
    let type_re = match compile_regex(TYPE_PATTERN) {
        Ok(re) => re,
        Err(_) => {
            return symbols;
        },
    };
    let method_re = match compile_regex(METHOD_PATTERN) {
        Ok(re) => re,
        Err(_) => {
            return symbols;
        },
    };
    let mut package_name: Vec<char> = Vec::new();
    let mut current_type: Vec<char> = Vec::new();
    let src = chars_of(source);
    let ls = lines_of(&src);
    let mut i: usize = 0;
    while i < ls.len()
        invariant
            i <= ls@.len(),
            views(ls@) == lines(source@),
            package_re@ == PACKAGE_PATTERN@,
            type_re@ == TYPE_PATTERN@,
            method_re@ == METHOD_PATTERN@,
            ({
                let st = scan(views(ls@).take(i as int));
                &&& package_name@ == st.package_name
                &&& current_type@ == st.current_type
                &&& symbol_views(symbols@) == st.symbols
            }),
            views(ls@).len() <= u32::MAX + 1 ==> names_found(symbol_views(symbols@), views(ls@).take(i as int)),
        decreases ls@.len() - i,
    {
        let line: &Vec<char> = &ls[i];
        let line_str = string_from_chars(line);
        let package_caps = if package_name.len() == 0 {
            captures(&package_re, &line_str)
        } else {
            None
        };
        let type_caps = captures(&type_re, &line_str);
        let method_caps = if type_caps.is_none() {
            captures(&method_re, &line_str)
        } else {
            None
        };
        proof {
            let ls_v = views(ls@);
            assert(ls_v.take(i + 1).drop_last() =~= ls_v.take(i as int));
            assert(ls_v.take(i + 1).last() == line@);
        }
        let ghost tc = type_caps.deep_view();
        let ghost mc = method_caps.deep_view();
        let ghost prev = symbol_views(symbols@);
        scan_line_exec(
            &mut package_name,
            &mut current_type,
            &mut symbols,
            i,
            line,
            package_caps,
            type_caps,
            method_caps,
        );
        proof {
            let ls_v = views(ls@);
            let next = symbol_views(symbols@);
            if ls_v.len() <= u32::MAX + 1 {
                if next != prev {
                    assert(next.drop_last() =~= prev);
                    if tc is Some {
                        lemma_group_found(tc->0, line@, 2);
                    } else {
                        lemma_group_found(mc->0, line@, 1);
                    }
                }
                lemma_found_step(prev, next, ls_v.take(i + 1));
            }
        }
        i = i + 1;
    }
    assert(views(ls@).take(ls@.len() as int) =~= views(ls@));
    proof {
        if lines(source@).len() <= u32::MAX + 1 {
            law_aidl_symbols_read_in_line_order(source@);
        }
    }
    symbols
}

proof fn lemma_scan_line_order(ls: Seq<Seq<char>>)
    requires
        ls.len() <= u32::MAX + 1,
    ensures
        read_in_line_order(scan(ls).symbols, ls),
    decreases ls.len(),
{
    if ls.len() > 0 {
        lemma_scan_line_order(ls.drop_last());
        let prev = scan(ls.drop_last()).symbols;
        let next = scan(ls).symbols;
        if next != prev {
            assert(next.drop_last() =~= prev);
        }
        lemma_read_step(prev, next, ls);
    }
}

/// Each symbol of an AIDL source lies on the line its `start_line` names,
/// starts where its name first occurs there, spans the bytes of its name and
/// carries the trimmed line as its signature; the symbols follow the lines
/// in order.
pub proof fn law_aidl_symbols_read_in_line_order(source: Seq<char>)
    requires
        lines(source).len() <= u32::MAX + 1,
    ensures
        read_in_line_order(aidl_symbols(source), lines(source)),
{
    if regex_compiles(PACKAGE_PATTERN@) && regex_compiles(TYPE_PATTERN@) && regex_compiles(
        METHOD_PATTERN@,
    ) {
        lemma_scan_line_order(lines(source));
    }
}

} // verus!
