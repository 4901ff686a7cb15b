//! The symbol record that every extractor produces.
use vstd::prelude::*;

use crate::text::{
    column_of, find_byte, column_of_exec, string_from_chars, trim, trim_chars, utf8_len, utf8_len_exec,
};

verus! {

/// A named definition found in a source file, with its position (0-based
/// line and column; columns count bytes), the dotted or `::` path of the
/// definitions around it, and a one-line signature.
#[derive(Debug, Clone)]
pub struct Symbol {
    pub name: String,
    pub kind: String,
    pub start_line: u32,
    pub start_col: u32,
    pub end_line: u32,
    pub end_col: u32,
    pub container: String,
    pub signature: String,
}

/// The value a `Symbol` holds.
pub struct SymbolView {
    pub name: Seq<char>,
    pub kind: Seq<char>,
    pub start_line: u32,
    pub start_col: u32,
    pub end_line: u32,
    pub end_col: u32,
    pub container: Seq<char>,
    pub signature: Seq<char>,
}

impl View for Symbol {
    type V = SymbolView;

    open spec fn view(&self) -> SymbolView {
        SymbolView {
            name: self.name@,
            kind: self.kind@,
            start_line: self.start_line,
            start_col: self.start_col,
            end_line: self.end_line,
            end_col: self.end_col,
            container: self.container@,
            signature: self.signature@,
        }
    }
}

/// The values held by a sequence of symbols.
pub open spec fn symbol_views(v: Seq<Symbol>) -> Seq<SymbolView> {
    v.map_values(|s: Symbol| s@)
}

/// The symbol that a line-based extractor records for `name` on line
/// `line_idx`: it starts where `name` first occurs in the line (column 0 if
/// it does not), spans the bytes of `name`, and carries the trimmed line as
/// its signature.
pub open spec fn line_symbol(
    name: Seq<char>,
    kind: Seq<char>,
    container: Seq<char>,
    line_idx: int,
    line: Seq<char>,
) -> SymbolView {
    let col = column_of(line, name);
    SymbolView {
        name,
        kind,
        start_line: line_idx as u32,
        start_col: col,
        end_line: line_idx as u32,
        end_col: (col + utf8_len(name)) as u32,
        container,
        signature: trim(line),
    }
}

/// Builds the symbol that a line-based extractor records.
pub fn make_line_symbol(
    name: &[char],
    kind: &[char],
    container: &[char],
    line_idx: usize,
    line: &[char],
) -> (r: Symbol)
    ensures
        r@ == line_symbol(name@, kind@, container@, line_idx as int, line@),
{
    let col = column_of_exec(line, name);
    let len = utf8_len_exec(name);
    let end = ((col as u128) + len) as u32;
    let sig = trim_chars(line);
    proof {
        lemma_u32_trunc(col as int, len as int);
    }
    Symbol {
        name: string_from_chars(name),
        kind: string_from_chars(kind),
        start_line: line_idx as u32,
        start_col: col,
        end_line: line_idx as u32,
        end_col: end,
        container: string_from_chars(container),
        signature: string_from_chars(&sig),
    }
}

proof fn lemma_u32_trunc(a: int, b: int)
    requires
        0 <= a,
        0 <= b,
        a + b <= u128::MAX,
    ensures
        ((a + b) as u128) as u32 == (a + b) as u32,
{
    let x = (a + b) as u128;
    assert(x as u32 == (x as int) as u32) by (bit_vector);
}

/// Whether a symbol is the one a line-based extractor records for its name,
/// kind and container on line `line_idx`.
pub open spec fn on_line(s: SymbolView, line_idx: int, line: Seq<char>) -> bool {
    s == line_symbol(s.name, s.kind, s.container, line_idx, line)
}

/// Whether symbols were read from the given lines, one line at a time and
/// in order: each lies on the line its `start_line` names, as `on_line`
/// describes, and the lines never go back.
pub open spec fn read_in_line_order(syms: Seq<SymbolView>, ls: Seq<Seq<char>>) -> bool {
    &&& forall|k: int|
        0 <= k < syms.len() ==> (#[trigger] syms[k]).start_line < ls.len() && on_line(
            syms[k],
            syms[k].start_line as int,
            ls[syms[k].start_line as int],
        )
    &&& forall|j: int, k: int|
        0 <= j <= k < syms.len() ==> (#[trigger] syms[j]).start_line <= (#[trigger] syms[k]).start_line
}

/// One more line read: the symbols found so far stay as they are, and at
/// most one symbol on the new line follows them.
pub proof fn lemma_read_step(prev: Seq<SymbolView>, next: Seq<SymbolView>, ls: Seq<Seq<char>>)
    requires
        ls.len() > 0,
        ls.len() <= u32::MAX + 1,
        read_in_line_order(prev, ls.drop_last()),
        next == prev || (next.len() == prev.len() + 1 && next.drop_last() == prev && on_line(
            next.last(),
            ls.len() - 1,
            ls.last(),
        )),
    ensures
        read_in_line_order(next, ls),
{
    let n = ls.len() - 1;
    if next != prev {
        assert(next.last().start_line == n as u32);
        assert(next.last().start_line == n);
        assert forall|k: int| 0 <= k < next.len() implies (#[trigger] next[k]).start_line < ls.len()
            && on_line(next[k], next[k].start_line as int, ls[next[k].start_line as int]) by {
            if k < prev.len() {
                assert(next[k] == prev[k]);
                assert(ls[prev[k].start_line as int] == ls.drop_last()[prev[k].start_line as int]);
            }
        }
        assert forall|j: int, k: int| 0 <= j <= k < next.len() implies (#[trigger] next[j]).start_line
            <= (#[trigger] next[k]).start_line by {
            if k < prev.len() {
                assert(next[k] == prev[k]);
                assert(next[j] == prev[j]);
            } else if j < prev.len() {
                assert(next[j] == prev[j]);
                assert(prev[j].start_line < n);
            }
        }
    } else {
        assert forall|k: int| 0 <= k < next.len() implies (#[trigger] next[k]).start_line < ls.len()
            && on_line(next[k], next[k].start_line as int, ls[next[k].start_line as int]) by {
            assert(ls[prev[k].start_line as int] == ls.drop_last()[prev[k].start_line as int]);
        }
    }
}

/// Whether each symbol's name is found on the line its `start_line` names,
/// so that its column is where `find` puts the name on that line.
pub open spec fn names_found(syms: Seq<SymbolView>, ls: Seq<Seq<char>>) -> bool {
    forall|k: int|
        0 <= k < syms.len() ==> (#[trigger] syms[k]).start_line < ls.len() && find_byte(
            ls[syms[k].start_line as int],
            syms[k].name,
        ) is Some
}

/// One more line read: the names found so far stay found, and a symbol
/// added on the new line has its name on that line.
pub proof fn lemma_found_step(prev: Seq<SymbolView>, next: Seq<SymbolView>, ls: Seq<Seq<char>>)
    requires
        ls.len() > 0,
        ls.len() <= u32::MAX + 1,
        names_found(prev, ls.drop_last()),
        next == prev || (next.len() == prev.len() + 1 && next.drop_last() == prev
            && next.last().start_line == ls.len() - 1 && find_byte(ls.last(), next.last().name) is Some),
    ensures
        names_found(next, ls),
{
    assert forall|k: int| 0 <= k < next.len() implies (#[trigger] next[k]).start_line < ls.len() && find_byte(
        ls[next[k].start_line as int],
        next[k].name,
    ) is Some by {
        if k < prev.len() {
            assert(next[k] == prev[k]);
            assert(ls[prev[k].start_line as int] == ls.drop_last()[prev[k].start_line as int]);
        }
    }
}

/// Where a symbol lies on its line and its name is found there, its column
/// is the byte offset at which `find` puts the name, and it ends after the
/// name's bytes on the same line.
pub proof fn lemma_found_column(s: SymbolView, line_idx: int, line: Seq<char>)
    requires
        on_line(s, line_idx, line),
        find_byte(line, s.name) is Some,
    ensures
        s.start_col == (find_byte(line, s.name)->0) as u32,
        s.end_line == s.start_line,
        s.end_col == (s.start_col + utf8_len(s.name)) as u32,
        s.signature == trim(line),
{
}

/// Whether symbols were read from the given lines in order, each with its
/// name found on its line (`read_in_line_order` and `names_found`).
pub open spec fn scanned_from_lines(syms: Seq<SymbolView>, ls: Seq<Seq<char>>) -> bool {
    read_in_line_order(syms, ls) && names_found(syms, ls)
}

/// Symbols read from lines by a line scan: each ends on the line it starts
/// on, starts at the byte offset where `find` puts its name on that line,
/// ends after the name's bytes, carries the trimmed line as its signature,
/// and the symbols come in line order.
pub proof fn law_scanned_symbols_sit_on_their_names(syms: Seq<SymbolView>, ls: Seq<Seq<char>>)
    requires
        scanned_from_lines(syms, ls),
    ensures
        forall|k: int|
            0 <= k < syms.len() ==> {
                let s = #[trigger] syms[k];
                let line = ls[s.start_line as int];
                &&& s.start_line < ls.len()
                &&& s.end_line == s.start_line
                &&& find_byte(line, s.name) is Some
                &&& s.start_col == (find_byte(line, s.name)->0) as u32
                &&& s.end_col == (s.start_col + utf8_len(s.name)) as u32
                &&& s.signature == trim(line)
            },
        forall|j: int, k: int| 0 <= j <= k < syms.len() ==> (#[trigger] syms[j]).start_line <= (#[trigger] syms[k]).start_line,
{
    assert forall|k: int| 0 <= k < syms.len() implies {
        let s = #[trigger] syms[k];
        let line = ls[s.start_line as int];
        &&& s.start_line < ls.len()
        &&& s.end_line == s.start_line
        &&& find_byte(line, s.name) is Some
        &&& s.start_col == (find_byte(line, s.name)->0) as u32
        &&& s.end_col == (s.start_col + utf8_len(s.name)) as u32
        &&& s.signature == trim(line)
    } by {
        lemma_found_column(syms[k], syms[k].start_line as int, ls[syms[k].start_line as int]);
    }
}

} // verus!
