//! Makefile symbol extractor.
use vstd::prelude::*;

use crate::pattern::{
    captures, compile_regex, group_text, group_text_exec, lemma_group_found, regex_captures,
    regex_compiles,
};
use crate::symbol::{
    lemma_found_step, lemma_read_step, line_symbol, names_found, scanned_from_lines, make_line_symbol, read_in_line_order, symbol_views, Symbol,
    SymbolView,
};
use crate::text::{
    chars_of, lines, lines_of, starts_with, starts_with_exec, string_from_chars, trim, trim_chars,
    views,
};

verus! {

/// `target:`; the second group holds the `=` of a `:=`, which makes the
/// line an assignment rather than a target.
pub const TARGET_PATTERN: &'static str = r"^\s*([A-Za-z0-9_./%+-]+)\s*:(=?)";

/// `NAME =`, `NAME :=`, `NAME +=`, `NAME ?=`.
pub const VAR_PATTERN: &'static str = r"^\s*([A-Za-z_][A-Za-z0-9_]*)\s*(?::=|\+=|\?=|=)";

/// Lines that the scan passes over: blank, comment, or recipe (tab) lines.
pub open spec fn is_skipped_line(line: Seq<char>) -> bool {
    trim(line).len() == 0 || starts_with(trim(line), "#"@) || starts_with(line, "\t"@)
}

/// Whether the target pattern's captures name a target: it matched, and
/// the colon is not the start of `:=`.
pub open spec fn is_target(caps: Option<Seq<Option<Seq<char>>>>) -> bool {
    caps matches Some(g) && group_text(g, 2).len() == 0
}

/// One line of the scan, given what the two patterns capture on it.
pub open spec fn scan_line(
    symbols: Seq<SymbolView>,
    line_idx: int,
    line: Seq<char>,
    target_caps: Option<Seq<Option<Seq<char>>>>,
    var_caps: Option<Seq<Option<Seq<char>>>>,
) -> Seq<SymbolView> {
    if is_skipped_line(line) {
        symbols
    } else {
        if is_target(target_caps) {
            symbols.push(line_symbol(group_text(target_caps->0, 1), "target"@, seq![], line_idx, line))
        } else {
            match var_caps {
                Some(g) => symbols.push(
                    line_symbol(group_text(g, 1), "variable"@, seq![], line_idx, line),
                ),
                None => symbols,
            }
        }
    }
}

/// The scan over the given lines.
pub open spec fn scan(ls: Seq<Seq<char>>) -> Seq<SymbolView>
    decreases ls.len(),
{
    if ls.len() == 0 {
        seq![]
    } else {
        let line = ls.last();
        scan_line(
            scan(ls.drop_last()),
            ls.len() - 1,
            line,
            regex_captures(TARGET_PATTERN@, line),
            regex_captures(VAR_PATTERN@, line),
        )
    }
}

/// The symbols of a Makefile: none when a pattern does not compile.
pub open spec fn make_symbols(source: Seq<char>) -> Seq<SymbolView> {
    if regex_compiles(TARGET_PATTERN@) && regex_compiles(VAR_PATTERN@) {
        scan(lines(source))
    } else {
        seq![]
    }
}

/// Applies one line of the scan, given what the two patterns capture on it.
pub fn scan_line_exec(
    symbols: &mut Vec<Symbol>,
    line_idx: usize,
    line: &[char],
    target_caps: Option<Vec<Option<String>>>,
    var_caps: Option<Vec<Option<String>>>,
)
    ensures
        symbol_views(final(symbols)@) == scan_line(
            symbol_views(old(symbols)@),
            line_idx as int,
            line@,
            target_caps.deep_view(),
            var_caps.deep_view(),
        ),
{
    let trimmed = trim_chars(line);
    if trimmed.len() == 0 || starts_with_exec(&trimmed, &chars_of("#")) || starts_with_exec(
        line,
        &chars_of("\t"),
    ) {
        return ;
    }
    let ghost old_syms = symbols@;
    let target = match &target_caps {
        Some(g) => group_text_exec(g, 2).len() == 0,
        None => false,
    };
    if target {
        match &target_caps {
            Some(g) => {
                let name = group_text_exec(g, 1);
                let sym = make_line_symbol(&name, &chars_of("target"), &Vec::new(), line_idx, line);
                symbols.push(sym);
                assert(symbol_views(symbols@) =~= symbol_views(old_syms).push(sym@));
            },
            None => {},
        }
    } else {
        match &var_caps {
            Some(g) => {
                let name = group_text_exec(g, 1);
                let sym = make_line_symbol(
                    &name,
                    &chars_of("variable"),
                    &Vec::new(),
                    line_idx,
                    line,
                );
                symbols.push(sym);
                assert(symbol_views(symbols@) =~= symbol_views(old_syms).push(sym@));
            },
            None => {},
        }
    }
}

/// Extracts targets and variable assignments from a Makefile.
pub fn extract_symbols(source: &str) -> (r: Vec<Symbol>)
    ensures
        symbol_views(r@) == make_symbols(source@),
        lines(source@).len() <= u32::MAX + 1 ==> scanned_from_lines(symbol_views(r@), lines(source@)),
{
    let mut symbols: Vec<Symbol> = Vec::new();
    let target_re = match compile_regex(TARGET_PATTERN) {
        Ok(re) => re,
        Err(_) => {
            return symbols;
        },
    };
    let var_re = match compile_regex(VAR_PATTERN) {
        Ok(re) => re,
        Err(_) => {
            return symbols;
        },
    };
    let src = chars_of(source);
    let ls = lines_of(&src);
    let mut i: usize = 0;
    while i < ls.len()
        invariant
            i <= ls@.len(),
            views(ls@) == lines(source@),
            target_re@ == TARGET_PATTERN@,
            var_re@ == VAR_PATTERN@,
            symbol_views(symbols@) == scan(views(ls@).take(i as int)),
            views(ls@).len() <= u32::MAX + 1 ==> names_found(symbol_views(symbols@), views(ls@).take(i as int)),
        decreases ls@.len() - i,
    {
        let line: &Vec<char> = &ls[i];
        let line_str = string_from_chars(line);
        let target_caps = captures(&target_re, &line_str);
        let target = match &target_caps {
            Some(g) => group_text_exec(g, 2).len() == 0,
            None => false,
        };
        let var_caps = if !target {
            captures(&var_re, &line_str)
        } else {
            None
        };
        proof {
            let ls_v = views(ls@);
            assert(ls_v.take(i + 1).drop_last() =~= ls_v.take(i as int));
            assert(ls_v.take(i + 1).last() == line@);
        }
        let ghost tc = target_caps.deep_view();
        let ghost vc = var_caps.deep_view();
        let ghost prev = symbol_views(symbols@);
        scan_line_exec(&mut symbols, i, line, target_caps, var_caps);
        proof {
            let ls_v = views(ls@);
            let next = symbol_views(symbols@);
            if ls_v.len() <= u32::MAX + 1 {
                if next != prev {
                    assert(next.drop_last() =~= prev);
                    if is_target(tc) {
                        lemma_group_found(tc->0, line@, 1);
                    } else {
                        lemma_group_found(vc->0, line@, 1);
                    }
                }
                lemma_found_step(prev, next, ls_v.take(i + 1));
            }
        }
        i = i + 1;
    }
    assert(views(ls@).take(ls@.len() as int) =~= views(ls@));
    proof {
        if lines(source@).len() <= u32::MAX + 1 {
            law_make_symbols_read_in_line_order(source@);
        }
    }
    symbols
}

proof fn lemma_scan_line_order(ls: Seq<Seq<char>>)
    requires
        ls.len() <= u32::MAX + 1,
    ensures
        read_in_line_order(scan(ls), ls),
    decreases ls.len(),
{
    if ls.len() > 0 {
        lemma_scan_line_order(ls.drop_last());
        let prev = scan(ls.drop_last());
        let next = scan(ls);
        if next != prev {
            assert(next.drop_last() =~= prev);
        }
        lemma_read_step(prev, next, ls);
    }
}

/// Each symbol of a Makefile lies on the line its `start_line` names,
/// starts where its name first occurs there, spans the bytes of its name and
/// carries the trimmed line as its signature; the symbols follow the lines
/// in order.
pub proof fn law_make_symbols_read_in_line_order(source: Seq<char>)
    requires
        lines(source).len() <= u32::MAX + 1,
    ensures
        read_in_line_order(make_symbols(source), lines(source)),
{
    if regex_compiles(TARGET_PATTERN@) && regex_compiles(VAR_PATTERN@) {
        lemma_scan_line_order(lines(source));
    }
}

/// Whether every symbol comes from a line that is not blank, not a `#`
/// comment and not a recipe line (one that starts with a tab), and is a
/// `target` or a `variable`.
pub open spec fn from_rule_lines(syms: Seq<SymbolView>, ls: Seq<Seq<char>>) -> bool {
    forall|k: int|
        0 <= k < syms.len() ==> {
            let line = ls[(#[trigger] syms[k]).start_line as int];
            &&& trim(line).len() > 0
            &&& !(trim(line).len() > 0 && trim(line)[0] == '#')
            &&& !(line.len() > 0 && line[0] == '\t')
            &&& (syms[k].kind == "target"@ || syms[k].kind == "variable"@)
        }
}

proof fn lemma_scan_rule_lines(ls: Seq<Seq<char>>)
    requires
        ls.len() <= u32::MAX + 1,
    ensures
        from_rule_lines(scan(ls), ls),
    decreases ls.len(),
{
    if ls.len() > 0 {
        lemma_scan_rule_lines(ls.drop_last());
        lemma_scan_line_order(ls.drop_last());
        let prev = scan(ls.drop_last());
        let next = scan(ls);
        let n = ls.len() - 1;
        let line = ls.last();
        reveal_strlit("#");
        reveal_strlit("\t");
        if trim(line).len() > 0 && trim(line)[0] == '#' {
            assert(trim(line).subrange(0, 1) =~= "#"@);
            assert(starts_with(trim(line), "#"@));
        }
        if line.len() > 0 && line[0] == '\t' {
            assert(line.subrange(0, 1) =~= "\t"@);
            assert(starts_with(line, "\t"@));
        }
        if next != prev {
            assert(next.drop_last() =~= prev);
        }
        assert forall|k: int| 0 <= k < next.len() implies {
            let l = ls[(#[trigger] next[k]).start_line as int];
            &&& trim(l).len() > 0
            &&& !(trim(l).len() > 0 && trim(l)[0] == '#')
            &&& !(l.len() > 0 && l[0] == '\t')
            &&& (next[k].kind == "target"@ || next[k].kind == "variable"@)
        } by {
            if k < prev.len() {
                assert(next[k] == prev[k]);
                assert(prev[k].start_line < ls.len() - 1);
                assert(ls[prev[k].start_line as int] == ls.drop_last()[prev[k].start_line as int]);
            } else {
                assert(next[k].start_line == n);
            }
        }
    }
}

/// Blank lines, `#` comments and recipe lines (starting with a tab) give no
/// symbol; every symbol of a Makefile is a target or a variable.
pub proof fn law_make_rule_lines_only(source: Seq<char>)
    requires
        lines(source).len() <= u32::MAX + 1,
    ensures
        from_rule_lines(make_symbols(source), lines(source)),
{
    if regex_compiles(TARGET_PATTERN@) && regex_compiles(VAR_PATTERN@) {
        lemma_scan_rule_lines(lines(source));
    }
}

} // verus!
