//! Gradle symbol extractor: Groovy symbols plus task definitions.
use vstd::prelude::*;

use crate::indexer::groovy;
use crate::pattern::{
    captures, compile_regex, group_text, group_text_exec, lemma_group_found, regex_captures,
    regex_compiles,
};
use crate::symbol::{
    lemma_found_step, lemma_read_step, line_symbol, names_found, scanned_from_lines, make_line_symbol, read_in_line_order, symbol_views, Symbol,
    SymbolView,
};
use crate::text::{chars_of, lines, lines_of, string_from_chars, views};

verus! {

/// `task name`
pub const TASK_PATTERN: &'static str = r"^\s*task\s+([A-Za-z_][A-Za-z0-9_-]*)\b";

/// `tasks.register("name"` or `tasks.named('name'`
pub const TASK_REGISTER_PATTERN: &'static str = r#"tasks\.(?:register|named)\(\s*['"]([A-Za-z_][A-Za-z0-9_-]*)['"]"#;

/// One line of the task scan, given what the two patterns capture on it.
pub open spec fn scan_line(
    symbols: Seq<SymbolView>,
    line_idx: int,
    line: Seq<char>,
    task_caps: Option<Seq<Option<Seq<char>>>>,
    register_caps: Option<Seq<Option<Seq<char>>>>,
) -> Seq<SymbolView> {
    match task_caps {
        Some(g) => symbols.push(line_symbol(group_text(g, 1), "task"@, seq![], line_idx, line)),
        None => match register_caps {
            Some(g) => symbols.push(line_symbol(group_text(g, 1), "task"@, seq![], line_idx, line)),
            None => symbols,
        },
    }
}

/// The task scan over the given lines, after the symbols already found.
pub open spec fn scan(start: Seq<SymbolView>, ls: Seq<Seq<char>>) -> Seq<SymbolView>
    decreases ls.len(),
{
    if ls.len() == 0 {
        start
    } else {
        let line = ls.last();
        scan_line(
            scan(start, ls.drop_last()),
            ls.len() - 1,
            line,
            regex_captures(TASK_PATTERN@, line),
            regex_captures(TASK_REGISTER_PATTERN@, line),
        )
    }
}

/// The symbols of a Gradle script: its Groovy symbols, then its tasks
/// (no tasks when a task pattern does not compile).
pub open spec fn gradle_symbols(source: Seq<char>) -> Seq<SymbolView> {
    let base = groovy::groovy_symbols(source);
    if regex_compiles(TASK_PATTERN@) && regex_compiles(TASK_REGISTER_PATTERN@) {
        scan(base, lines(source))
    } else {
        base
    }
}

/// Applies one line of the task scan, given what the two patterns capture.
pub fn scan_line_exec(
    symbols: &mut Vec<Symbol>,
    line_idx: usize,
    line: &[char],
    task_caps: Option<Vec<Option<String>>>,
    register_caps: Option<Vec<Option<String>>>,
)
    ensures
        symbol_views(final(symbols)@) == scan_line(
            symbol_views(old(symbols)@),
            line_idx as int,
            line@,
            task_caps.deep_view(),
            register_caps.deep_view(),
        ),
{
    let ghost old_syms = symbols@;
    let caps = match task_caps {
        Some(g) => Some(g),
        None => register_caps,
    };
    match &caps {
        Some(g) => {
            let name = group_text_exec(g, 1);
            let sym = make_line_symbol(&name, &chars_of("task"), &Vec::new(), line_idx, line);
            symbols.push(sym);
            assert(symbol_views(symbols@) =~= symbol_views(old_syms).push(sym@));
        },
        None => {},
    }
}

/// Extracts the Groovy symbols of a Gradle script, then its task definitions.
pub fn extract_symbols(source: &str) -> (r: Vec<Symbol>)
    requires
        source@.len() < i32::MAX,
    ensures
        symbol_views(r@) == gradle_symbols(source@),
        lines(source@).len() <= u32::MAX + 1 ==> scanned_from_lines(
            symbol_views(r@).skip(groovy::groovy_symbols(source@).len() as int),
            lines(source@),
        ),
{
    let mut symbols = groovy::extract_symbols(source);
    let task_re = match compile_regex(TASK_PATTERN) {
        Ok(re) => re,
        Err(_) => {
            return symbols;
        },
    };
    let register_re = match compile_regex(TASK_REGISTER_PATTERN) {
        Ok(re) => re,
        Err(_) => {
            return symbols;
        },
    };
    let ghost base = symbol_views(symbols@);
    let src = chars_of(source);
    let ls = lines_of(&src);
    let mut i: usize = 0;
    while i < ls.len()
        invariant
            i <= ls@.len(),
            views(ls@) == lines(source@),
            task_re@ == TASK_PATTERN@,
            register_re@ == TASK_REGISTER_PATTERN@,
            symbol_views(symbols@) == scan(base, views(ls@).take(i as int)),
            base == groovy::groovy_symbols(source@),
            views(ls@).len() <= u32::MAX + 1 ==> names_found(
                symbol_views(symbols@).skip(base.len() as int),
                views(ls@).take(i as int),
            ),
        decreases ls@.len() - i,
    {
        let line: &Vec<char> = &ls[i];
        let line_str = string_from_chars(line);
        let task_caps = captures(&task_re, &line_str);
        let register_caps = if task_caps.is_none() {
            captures(&register_re, &line_str)
        } else {
            None
        };
        proof {
            let ls_v = views(ls@);
            assert(ls_v.take(i + 1).drop_last() =~= ls_v.take(i as int));
            assert(ls_v.take(i + 1).last() == line@);
        }
        let ghost tc = task_caps.deep_view();
        let ghost rc = register_caps.deep_view();
        let ghost prev = symbol_views(symbols@);
        proof {
            lemma_scan_extends(base, views(ls@).take(i as int));
        }
        scan_line_exec(&mut symbols, i, line, task_caps, register_caps);
        proof {
            let ls_v = views(ls@);
            let next = symbol_views(symbols@);
            let ps = prev.skip(base.len() as int);
            let ns = next.skip(base.len() as int);
            if ls_v.len() <= u32::MAX + 1 {
                if next != prev {
                    assert(ns =~= ps.push(next.last()));
                    assert(ns.drop_last() =~= ps);
                    if tc is Some {
                        lemma_group_found(tc->0, line@, 1);
                    } else {
                        lemma_group_found(rc->0, line@, 1);
                    }
                } else {
                    assert(ns == ps);
                }
                lemma_found_step(ps, ns, ls_v.take(i + 1));
            }
        }
        i = i + 1;
    }
    assert(views(ls@).take(ls@.len() as int) =~= views(ls@));
    proof {
        if lines(source@).len() <= u32::MAX + 1 {
            law_gradle_extends_groovy(source@);
        }
    }
    symbols
}

proof fn lemma_scan_extends(start: Seq<SymbolView>, ls: Seq<Seq<char>>)
    ensures
        scan(start, ls).len() >= start.len(),
        scan(start, ls).take(start.len() as int) == start,
        forall|i: int| start.len() <= i < scan(start, ls).len() ==> (#[trigger] scan(start, ls)[i]).kind == "task"@
            && scan(start, ls)[i].container == Seq::<char>::empty(),
        ls.len() <= u32::MAX + 1 ==> read_in_line_order(scan(start, ls).skip(start.len() as int), ls),
    decreases ls.len(),
{
    if ls.len() > 0 {
        lemma_scan_extends(start, ls.drop_last());
        let prev = scan(start, ls.drop_last());
        let cur = scan(start, ls);
        if cur != prev {
            assert(cur.drop_last() == prev);
            assert(cur.take(start.len() as int) =~= prev.take(start.len() as int));
            assert forall|i: int| start.len() <= i < cur.len() implies (#[trigger] cur[i]).kind == "task"@
                && cur[i].container == Seq::<char>::empty() by {
                if i < prev.len() {
                    assert(cur[i] == prev[i]);
                }
            }
        }
        if ls.len() <= u32::MAX + 1 {
            let a = prev.skip(start.len() as int);
            let b = cur.skip(start.len() as int);
            if cur != prev {
                assert(b.drop_last() =~= a);
                assert(b.last() == cur.last());
            }
            lemma_read_step(a, b, ls);
        }
    } else {
        assert(start.skip(start.len() as int) =~= Seq::<SymbolView>::empty());
    }
}

/// The task a line defines: the name the `task` pattern captures on it,
/// else the one the `tasks.register`/`tasks.named` pattern captures.
pub open spec fn task_name(line: Seq<char>) -> Option<Seq<char>> {
    match regex_captures(TASK_PATTERN@, line) {
        Some(g) => Some(group_text(g, 1)),
        None => match regex_captures(TASK_REGISTER_PATTERN@, line) {
            Some(g) => Some(group_text(g, 1)),
            None => None,
        },
    }
}

/// The indices of the lines that define a task, in order.
pub open spec fn task_lines(ls: Seq<Seq<char>>) -> Seq<int>
    decreases ls.len(),
{
    if ls.len() == 0 {
        seq![]
    } else if task_name(ls.last()) is Some {
        task_lines(ls.drop_last()).push(ls.len() - 1)
    } else {
        task_lines(ls.drop_last())
    }
}

/// The task symbol of line `i`.
pub open spec fn task_symbol(ls: Seq<Seq<char>>, i: int) -> SymbolView {
    line_symbol(task_name(ls[i])->0, "task"@, seq![], i, ls[i])
}

proof fn lemma_scan_tasks(start: Seq<SymbolView>, ls: Seq<Seq<char>>)
    ensures
        ({
            let sfx = scan(start, ls).skip(start.len() as int);
            let t = task_lines(ls);
            &&& sfx.len() == t.len()
            &&& forall|k: int| 0 <= k < t.len() ==> 0 <= #[trigger] t[k] < ls.len() && task_name(ls[t[k]]) is Some
                && sfx[k] == task_symbol(ls, t[k])
            &&& forall|j: int, k: int| 0 <= j < k < t.len() ==> #[trigger] t[j] < #[trigger] t[k]
            &&& forall|i: int| 0 <= i < ls.len() && #[trigger] task_name(ls[i]) is Some ==> exists|k: int| 0 <= k < t.len() && t[k] == i
        }),
    decreases ls.len(),
{
    lemma_scan_extends(start, ls);
    if ls.len() == 0 {
        assert(start.skip(start.len() as int) =~= Seq::<SymbolView>::empty());
    } else {
        let dl = ls.drop_last();
        lemma_scan_tasks(start, dl);
        lemma_scan_extends(start, dl);
        let prev = scan(start, dl);
        let cur = scan(start, ls);
        let n = ls.len() - 1;
        let tp = task_lines(dl);
        let t = task_lines(ls);
        let ps = prev.skip(start.len() as int);
        let cs = cur.skip(start.len() as int);
        assert forall|k: int| 0 <= k < tp.len() implies task_symbol(dl, tp[k]) == task_symbol(ls, tp[k]) by {
            assert(dl[tp[k]] == ls[tp[k]]);
        }
        if task_name(ls.last()) is Some {
            assert(cur == prev.push(task_symbol(ls, n)));
            assert(cs =~= ps.push(task_symbol(ls, n)));
            assert(t == tp.push(n));
            assert forall|k: int| 0 <= k < t.len() implies 0 <= #[trigger] t[k] < ls.len() && task_name(ls[t[k]]) is Some
                && cs[k] == task_symbol(ls, t[k]) by {
                if k < tp.len() {
                    assert(t[k] == tp[k]);
                    assert(dl[tp[k]] == ls[tp[k]]);
                }
            }
            assert forall|i: int| 0 <= i < ls.len() && #[trigger] task_name(ls[i]) is Some implies exists|k: int| 0 <= k < t.len() && t[k] == i by {
                if i < n {
                    assert(dl[i] == ls[i]);
                    assert(task_name(dl[i]) is Some);
                    let k = choose|k: int| 0 <= k < tp.len() && tp[k] == i;
                    assert(t[k] == i);
                } else {
                    assert(t[tp.len() as int] == i);
                }
            }
        } else {
            assert(cur == prev);
            assert(t == tp);
            assert forall|k: int| 0 <= k < t.len() implies 0 <= #[trigger] t[k] < ls.len() && task_name(ls[t[k]]) is Some
                && cs[k] == task_symbol(ls, t[k]) by {
                assert(dl[tp[k]] == ls[tp[k]]);
            }
            assert forall|i: int| 0 <= i < ls.len() && #[trigger] task_name(ls[i]) is Some implies exists|k: int| 0 <= k < t.len() && t[k] == i by {
                assert(i < n);
                assert(dl[i] == ls[i]);
                assert(task_name(dl[i]) is Some);
            }
        }
    }
}

/// The tasks of a Gradle script: after its Groovy symbols comes exactly one
/// task symbol for each line that defines a task (by `task NAME`, or
/// `tasks.register`/`tasks.named` with a quoted name), in line order, and
/// nothing else. Each is the symbol of the captured name on its line, with
/// no container. (No tasks when a task pattern does not compile.)
pub proof fn law_gradle_one_task_per_line(source: Seq<char>)
    ensures
        ({
            let ls = lines(source);
            let tasks = gradle_symbols(source).skip(groovy::groovy_symbols(source).len() as int);
            let t = task_lines(ls);
            if regex_compiles(TASK_PATTERN@) && regex_compiles(TASK_REGISTER_PATTERN@) {
                &&& tasks.len() == t.len()
                &&& forall|k: int| 0 <= k < t.len() ==> 0 <= #[trigger] t[k] < ls.len() && task_name(ls[t[k]]) is Some
                    && tasks[k] == task_symbol(ls, t[k])
                &&& forall|j: int, k: int| 0 <= j < k < t.len() ==> #[trigger] t[j] < #[trigger] t[k]
                &&& forall|i: int| 0 <= i < ls.len() && #[trigger] task_name(ls[i]) is Some ==> exists|k: int| 0 <= k < t.len() && t[k] == i
            } else {
                tasks.len() == 0
            }
        }),
{
    let base = groovy::groovy_symbols(source);
    if regex_compiles(TASK_PATTERN@) && regex_compiles(TASK_REGISTER_PATTERN@) {
        lemma_scan_tasks(base, lines(source));
    } else {
        assert(base.skip(base.len() as int) =~= Seq::<SymbolView>::empty());
    }
}

/// A Gradle script has all the symbols of a Groovy source, first and in
/// the same order. What follows them are its tasks, with no container, each
/// on the line its `start_line` names (where its name first occurs, spanning
/// the bytes of the name, with the trimmed line as its signature), in line
/// order.
pub proof fn law_gradle_extends_groovy(source: Seq<char>)
    ensures
        gradle_symbols(source).len() >= groovy::groovy_symbols(source).len(),
        gradle_symbols(source).take(groovy::groovy_symbols(source).len() as int) == groovy::groovy_symbols(source),
        forall|i: int| groovy::groovy_symbols(source).len() <= i < gradle_symbols(source).len() ==> (#[trigger] gradle_symbols(source)[i]).kind == "task"@
            && gradle_symbols(source)[i].container == Seq::<char>::empty(),
        lines(source).len() <= u32::MAX + 1 ==> read_in_line_order(
            gradle_symbols(source).skip(groovy::groovy_symbols(source).len() as int),
            lines(source),
        ),
{
    let base = groovy::groovy_symbols(source);
    if regex_compiles(TASK_PATTERN@) && regex_compiles(TASK_REGISTER_PATTERN@) {
        lemma_scan_extends(base, lines(source));
    } else {
        assert(base.take(base.len() as int) =~= base);
        assert(base.skip(base.len() as int) =~= Seq::<SymbolView>::empty());
    }
}

} // verus!
