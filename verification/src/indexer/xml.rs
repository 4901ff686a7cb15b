//! XML symbol extractor.
use vstd::prelude::*;

use crate::pattern::{captures_all, compile_regex, group_text, group_text_exec, regex_captures_all, regex_compiles};
use crate::symbol::{symbol_views, Symbol, SymbolView};
use crate::text::{chars_eq, chars_of, column_of, column_of_exec, join, join_exec, lines, lines_of, starts_with, starts_with_exec, string_from_chars, utf8_len, utf8_len_exec, views};

verus! {

/// An opening (or self-closing) tag.
pub const OPEN_TAG_PATTERN: &'static str = r"<([A-Za-z_][A-Za-z0-9_.:-]*)\b[^>]*?>";

/// A closing tag.
pub const CLOSE_TAG_PATTERN: &'static str = r"</([A-Za-z_][A-Za-z0-9_.:-]*)\s*>";

/// `s.ends_with(p)`.
pub open spec fn ends_with(s: Seq<char>, p: Seq<char>) -> bool {
    p.len() <= s.len() && s.skip(s.len() - p.len()) == p
}

/// The position of the last open element with this name.
pub open spec fn last_position(stack: Seq<Seq<char>>, name: Seq<char>) -> Option<int>
    decreases stack.len(),
{
    if stack.len() == 0 {
        None
    } else if stack.last() == name {
        Some(stack.len() - 1)
    } else {
        last_position(stack.drop_last(), name)
    }
}

/// Closes elements for each closing tag: the innermost open element of that
/// name and all elements opened inside it.
pub open spec fn apply_closes(stack: Seq<Seq<char>>, closes: Seq<Seq<Option<Seq<char>>>>) -> Seq<Seq<char>>
    decreases closes.len(),
{
    if closes.len() == 0 {
        stack
    } else {
        let s = apply_closes(stack, closes.drop_last());
        let g = closes.last();
        if g.len() > 1 && g[1] is Some {
            match last_position(s, g[1]->0) {
                Some(pos) => s.take(pos),
                None => s,
            }
        } else {
            s
        }
    }
}

/// Whether a match is an opening tag (not `</`, `<?`, `<!`).
pub open spec fn is_open_tag(full: Seq<char>) -> bool {
    !starts_with(full, "</"@) && !starts_with(full, "<?"@) && !starts_with(full, "<!"@)
}

/// The symbol recorded for an element.
pub open spec fn element_symbol(name: Seq<char>, full: Seq<char>, container: Seq<char>, line_idx: int, line: Seq<char>) -> SymbolView {
    let col = column_of(line, name);
    SymbolView {
        name,
        kind: "element"@,
        start_line: line_idx as u32,
        start_col: col,
        end_line: line_idx as u32,
        end_col: (col + utf8_len(name)) as u32,
        container,
        signature: full,
    }
}

/// What the extractor remembers between lines.
pub struct XmlScan {
    pub stack: Seq<Seq<char>>,
    pub symbols: Seq<SymbolView>,
}

/// Records the elements of the opening tags on a line, under the
/// `/`-joined path of open elements; tags that are not self-closing open
/// their element.
pub open spec fn apply_opens(st: XmlScan, opens: Seq<Seq<Option<Seq<char>>>>, line_idx: int, line: Seq<char>) -> XmlScan
    decreases opens.len(),
{
    if opens.len() == 0 {
        st
    } else {
        let s = apply_opens(st, opens.drop_last(), line_idx, line);
        let g = opens.last();
        let full = group_text(g, 0);
        if !is_open_tag(full) || !(g.len() > 1 && g[1] is Some) {
            s
        } else {
            let name = g[1]->0;
            let sym = element_symbol(name, full, join(s.stack, "/"@), line_idx, line);
            XmlScan {
                stack: if ends_with(full, "/>"@) { s.stack } else { s.stack.push(name) },
                symbols: s.symbols.push(sym),
            }
        }
    }
}

/// One line of the scan: closing tags first, then opening tags.
pub open spec fn scan_line(
    st: XmlScan,
    line_idx: int,
    line: Seq<char>,
    closes: Seq<Seq<Option<Seq<char>>>>,
    opens: Seq<Seq<Option<Seq<char>>>>,
) -> XmlScan {
    apply_opens(XmlScan { stack: apply_closes(st.stack, closes), symbols: st.symbols }, opens, line_idx, line)
}

/// The scan over the given lines.
pub open spec fn scan(ls: Seq<Seq<char>>) -> XmlScan
    decreases ls.len(),
{
    if ls.len() == 0 {
        XmlScan { stack: seq![], symbols: seq![] }
    } else {
        let line = ls.last();
        scan_line(
            scan(ls.drop_last()),
            ls.len() - 1,
            line,
            regex_captures_all(CLOSE_TAG_PATTERN@, line),
            regex_captures_all(OPEN_TAG_PATTERN@, line),
        )
    }
}

/// The symbols of an XML document: none when a pattern does not compile.
pub open spec fn xml_symbols(source: Seq<char>) -> Seq<SymbolView> {
    if regex_compiles(OPEN_TAG_PATTERN@) && regex_compiles(CLOSE_TAG_PATTERN@) {
        scan(lines(source)).symbols
    } else {
        seq![]
    }
}

fn ends_with_exec(s: &[char], p: &[char]) -> (r: bool)
    ensures
        r == ends_with(s@, p@),
{
    if p.len() > s.len() {
        return false;
    }
    let sl = s.len();
    let off = sl - p.len();
    let mut k: usize = 0;
    while k < p.len()
        invariant
            k <= p@.len(),
            sl == s@.len(),
            off + p@.len() == s@.len(),
            forall|m: int| 0 <= m < k ==> s@[off + m] == p@[m],
        decreases p@.len() - k,
    {
        if s[off + k] != p[k] {
            assert(s@.skip(off as int)[k as int] != p@[k as int]);
            return false;
        }
        k = k + 1;
    }
    assert(s@.skip(off as int) =~= p@);
    true
}

proof fn lemma_last_position(stack: Seq<Seq<char>>, name: Seq<char>)
    ensures
        last_position(stack, name) matches Some(p) ==> 0 <= p < stack.len() && stack[p] == name,
    decreases stack.len(),
{
    if stack.len() > 0 && stack.last() != name {
        lemma_last_position(stack.drop_last(), name);
    }
}

fn last_position_exec(stack: &Vec<Vec<char>>, name: &[char]) -> (r: Option<usize>)
    ensures
        r is Some <==> last_position(views(stack@), name@) is Some,
        r matches Some(p) ==> last_position(views(stack@), name@) == Some(p as int) && p < stack@.len(),
{
    proof {
        lemma_last_position(views(stack@), name@);
    }
    let mut i: usize = stack.len();
    assert(views(stack@).take(i as int) =~= views(stack@));
    while i > 0
        invariant
            i <= stack@.len(),
            last_position(views(stack@), name@) == last_position(views(stack@).take(i as int), name@),
        decreases i,
    {
        let ghost t = views(stack@).take(i as int);
        assert(t.drop_last() =~= views(stack@).take(i - 1));
        assert(t.last() == stack@[i - 1]@);
        if chars_eq(&stack[i - 1], name) {
            return Some(i - 1);
        }
        i = i - 1;
    }
    None
}

/// Applies one line of the scan, given the closing and opening tags matched on it.
pub fn scan_line_exec(
    stack: &mut Vec<Vec<char>>,
    symbols: &mut Vec<Symbol>,
    line_idx: usize,
    line: &[char],
    closes: &Vec<Vec<Option<String>>>,
    opens: &Vec<Vec<Option<String>>>,
)
    ensures
        ({
            let st = scan_line(
                XmlScan { stack: views(old(stack)@), symbols: symbol_views(old(symbols)@) },
                line_idx as int,
                line@,
                closes.deep_view(),
                opens.deep_view(),
            );
            &&& views(final(stack)@) == st.stack
            &&& symbol_views(final(symbols)@) == st.symbols
        }),
{
    let ghost st0 = views(stack@);
    let mut c: usize = 0;
    while c < closes.len()
        invariant
            c <= closes@.len(),
            views(stack@) == apply_closes(st0, closes.deep_view().take(c as int)),
        decreases closes@.len() - c,
    {
        let g = &closes[c];
        proof {
            assert(closes.deep_view().take(c + 1).drop_last() =~= closes.deep_view().take(c as int));
            assert(closes.deep_view().take(c + 1).last() == g.deep_view());
        }
        if g.len() > 1 {
            match &g[1] {
                Some(name) => {
                    let nm = chars_of(name.as_str());
                    match last_position_exec(stack, &nm) {
                        Some(pos) => {
                            let ghost before = views(stack@);
                            let ghost bv = stack@;
                            stack.truncate(pos);
                            assert(stack@ =~= bv.take(pos as int));
                            assert(views(stack@) =~= before.take(pos as int));
                        },
                        None => {},
                    }
                },
                None => {},
            }
        }
        c = c + 1;
    }
    assert(closes.deep_view().take(closes@.len() as int) =~= closes.deep_view());
    let ghost mid = XmlScan { stack: views(stack@), symbols: symbol_views(symbols@) };
    let mut o: usize = 0;
    while o < opens.len()
        invariant
            o <= opens@.len(),
            ({
                let s = apply_opens(mid, opens.deep_view().take(o as int), line_idx as int, line@);
                &&& views(stack@) == s.stack
                &&& symbol_views(symbols@) == s.symbols
            }),
        decreases opens@.len() - o,
    {
        let g = &opens[o];
        proof {
            assert(opens.deep_view().take(o + 1).drop_last() =~= opens.deep_view().take(o as int));
            assert(opens.deep_view().take(o + 1).last() == g.deep_view());
        }
        let full = group_text_exec(g, 0);
        let skip = starts_with_exec(&full, &chars_of("</")) || starts_with_exec(
            &full,
            &chars_of("<?"),
        ) || starts_with_exec(&full, &chars_of("<!"));
        if !skip && g.len() > 1 {
            match &g[1] {
                Some(n) => {
                    let name = chars_of(n.as_str());
                    let container = join_exec(stack, &chars_of("/"));
                    let col = column_of_exec(line, &name);
                    let len = utf8_len_exec(&name);
                    let end = ((col as u128) + len) as u32;
                    let sym = Symbol {
                        name: string_from_chars(&name),
                        kind: string_from_chars(&chars_of("element")),
                        start_line: line_idx as u32,
                        start_col: col,
                        end_line: line_idx as u32,
                        end_col: end,
                        container: string_from_chars(&container),
                        signature: string_from_chars(&full),
                    };
                    proof {
                        let x = (col + len) as u128;
                        assert(x as u32 == (x as int) as u32) by (bit_vector);
                    }
                    let ghost old_syms = symbols@;
                    symbols.push(sym);
                    assert(symbol_views(symbols@) =~= symbol_views(old_syms).push(sym@));
                    if !ends_with_exec(&full, &chars_of("/>")) {
                        let ghost before = views(stack@);
                        stack.push(name);
                        assert(views(stack@) =~= before.push(name@));
                    }
                },
                None => {},
            }
        }
        o = o + 1;
    }
    assert(opens.deep_view().take(opens@.len() as int) =~= opens.deep_view());
}

/// Extracts every element of an XML document, with the `/`-joined path of
/// the elements open around it as container.
pub fn extract_symbols(source: &str) -> (r: Vec<Symbol>)
    ensures
        symbol_views(r@) == xml_symbols(source@),
{
    let mut symbols: Vec<Symbol> = Vec::new();
    let open_re = match compile_regex(OPEN_TAG_PATTERN) {
        Ok(re) => re,
        Err(_) => {
            return symbols;
        },
    };
    let close_re = match compile_regex(CLOSE_TAG_PATTERN) {
        Ok(re) => re,
        Err(_) => {
            return symbols;
        },
    };
    let mut stack: Vec<Vec<char>> = Vec::new();
    let src = chars_of(source);
    let ls = lines_of(&src);
    let mut i: usize = 0;
    while i < ls.len()
        invariant
            i <= ls@.len(),
            views(ls@) == lines(source@),
            open_re@ == OPEN_TAG_PATTERN@,
            close_re@ == CLOSE_TAG_PATTERN@,
            ({
                let st = scan(views(ls@).take(i as int));
                &&& views(stack@) == st.stack
                &&& symbol_views(symbols@) == st.symbols
            }),
        decreases ls@.len() - i,
    {
        let line: &Vec<char> = &ls[i];
        let line_str = string_from_chars(line);
        let closes = captures_all(&close_re, &line_str);
        let opens = captures_all(&open_re, &line_str);
        proof {
            let ls_v = views(ls@);
            assert(ls_v.take(i + 1).drop_last() =~= ls_v.take(i as int));
            assert(ls_v.take(i + 1).last() == line@);
        }
        scan_line_exec(&mut stack, &mut symbols, i, line, &closes, &opens);
        i = i + 1;
    }
    assert(views(ls@).take(ls@.len() as int) =~= views(ls@));
    symbols
}

proof fn lemma_last_position_innermost(stack: Seq<Seq<char>>, name: Seq<char>)
    ensures
        last_position(stack, name) matches Some(p) ==> forall|k: int| p < k < stack.len() ==> stack[k] != name,
        last_position(stack, name) is None ==> forall|k: int| 0 <= k < stack.len() ==> stack[k] != name,
    decreases stack.len(),
{
    if stack.len() > 0 {
        lemma_last_position_innermost(stack.drop_last(), name);
        if stack.last() != name {
            let d = stack.drop_last();
            assert forall|k: int| 0 <= k < stack.len() - 1 implies stack[k] == d[k] by {}
            if last_position(d, name) is Some {
                let p = last_position(d, name)->0;
                lemma_last_position(d, name);
                assert forall|k: int| p < k < stack.len() implies stack[k] != name by {
                    if k < stack.len() - 1 {
                        assert(stack[k] == d[k]);
                    }
                }
            } else {
                assert forall|k: int| 0 <= k < stack.len() implies stack[k] != name by {
                    if k < stack.len() - 1 {
                        assert(stack[k] == d[k]);
                    }
                }
            }
        }
    }
}

/// A closing tag `</n>` closes the innermost open element named `n` and
/// every element opened inside it: what stays open is the part of the
/// stack below that element, so the element itself is no longer open and
/// elements opened next sit beside it. A closing tag for a name that is not
/// open changes nothing.
pub proof fn law_closing_tag_closes_innermost(stack: Seq<Seq<char>>, tag: Seq<Option<Seq<char>>>)
    requires
        tag.len() > 1,
        tag[1] is Some,
    ensures
        ({
            let n = tag[1]->0;
            let r = apply_closes(stack, seq![tag]);
            &&& (exists|k: int| 0 <= k < stack.len() && stack[k] == n) ==> {
                &&& r.len() < stack.len()
                &&& r == stack.take(r.len() as int)
                &&& stack[r.len() as int] == n
                &&& forall|k: int| r.len() < k < stack.len() ==> stack[k] != n
            }
            &&& !(exists|k: int| 0 <= k < stack.len() && stack[k] == n) ==> r == stack
        }),
{
    let n = tag[1]->0;
    let closes = seq![tag];
    assert(closes.drop_last() =~= Seq::<Seq<Option<Seq<char>>>>::empty());
    assert(closes.last() == tag);
    assert(apply_closes(stack, closes.drop_last()) == stack);
    lemma_last_position(stack, n);
    lemma_last_position_innermost(stack, n);
    match last_position(stack, n) {
        Some(p) => {
            assert(apply_closes(stack, closes) == stack.take(p));
            assert(stack.take(p).take(p) =~= stack.take(p));
        },
        None => {},
    }
}

/// An opening tag `<n ...>` records one `element` symbol named `n`, under
/// the `/`-joined path of the open elements, with the tag as signature, and
/// opens `n`; a self-closing tag `<n .../>` records it the same way but
/// opens nothing. Closing tags, `<?...>` and `<!...>` record nothing.
pub proof fn law_open_tag(st: XmlScan, tag: Seq<Option<Seq<char>>>, line_idx: int, line: Seq<char>)
    requires
        tag.len() > 1,
        tag[1] is Some,
    ensures
        ({
            let full = group_text(tag, 0);
            let n = tag[1]->0;
            let r = apply_opens(st, seq![tag], line_idx, line);
            let special = full.len() >= 2 && full[0] == '<' && (full[1] == '/' || full[1] == '?' || full[1] == '!');
            let self_closing = full.len() >= 2 && full[full.len() - 2] == '/' && full[full.len() - 1] == '>';
            &&& special ==> r == st
            &&& !special ==> {
                &&& r.symbols.len() == st.symbols.len() + 1
                &&& r.symbols.drop_last() == st.symbols
                &&& r.symbols.last().name == n
                &&& r.symbols.last().kind == "element"@
                &&& r.symbols.last().container == join(st.stack, "/"@)
                &&& r.symbols.last().signature == full
                &&& r.stack == if self_closing { st.stack } else { st.stack.push(n) }
            }
        }),
{
    let full = group_text(tag, 0);
    let opens = seq![tag];
    assert(opens.drop_last() =~= Seq::<Seq<Option<Seq<char>>>>::empty());
    assert(opens.last() == tag);
    reveal_strlit("</");
    reveal_strlit("<?");
    reveal_strlit("<!");
    reveal_strlit("/>");
    if full.len() >= 2 {
        assert(full.subrange(0, 2) =~= seq![full[0], full[1]]);
        assert(full.skip(full.len() - 2) =~= seq![full[full.len() - 2], full[full.len() - 1]]);
    }
    assert(apply_opens(st, opens.drop_last(), line_idx, line) == st);
    assert("</"@ =~= seq!['<', '/']);
    assert("<?"@ =~= seq!['<', '?']);
    assert("<!"@ =~= seq!['<', '!']);
    assert("/>"@ =~= seq!['/', '>']);
    let r = apply_opens(st, opens, line_idx, line);
    if is_open_tag(full) {
        assert(r.symbols.drop_last() =~= st.symbols);
    }
}

} // verus!
