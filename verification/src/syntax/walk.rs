//! Walking a syntax tree the way the extractors do: a node, then the
//! subtrees of its children from the last child to the first (the order in
//! which a stack hands them back).
use vstd::prelude::*;

use crate::symbol::{symbol_views, Symbol, SymbolView};
use crate::syntax::{is_byte_index, node_views, ByteIndex, Grammar, NodeInfo, NodeView};
use crate::indexer::treesitter::{visit, visit_exec};

verus! {

/// The child indices found from candidate `c`, at most `remaining` of them:
/// each next child follows the previous child's subtree; the list stops at
/// the end of the tree.
pub open spec fn children_from(nodes: Seq<NodeView>, c: int, remaining: nat) -> Seq<int>
    decreases remaining,
{
    if remaining == 0 || c < 0 || c >= nodes.len() {
        seq![]
    } else if nodes[c].descendant_count == 0 {
        seq![c]
    } else {
        seq![c] + children_from(nodes, c + nodes[c].descendant_count, (remaining - 1) as nat)
    }
}

/// The children of node `i`, first to last.
pub open spec fn children(nodes: Seq<NodeView>, i: int) -> Seq<int> {
    children_from(nodes, i + 1, nodes[i].child_count as nat)
}

/// The first child of node `i` that fills the given field.
pub open spec fn field_child_in(nodes: Seq<NodeView>, cs: Seq<int>, field: Seq<char>) -> Option<int>
    decreases cs.len(),
{
    if cs.len() == 0 {
        None
    } else if nodes[cs[0]].field == Some(field) {
        Some(cs[0])
    } else {
        field_child_in(nodes, cs.drop_first(), field)
    }
}

/// The first child of node `i` that fills the given field.
pub open spec fn field_child(nodes: Seq<NodeView>, i: int, field: Seq<char>) -> Option<int> {
    field_child_in(nodes, children(nodes, i), field)
}

pub proof fn lemma_children_from_bounds(nodes: Seq<NodeView>, c: int, remaining: nat)
    ensures
        forall|k: int| 0 <= k < children_from(nodes, c, remaining).len() ==> c <= #[trigger] children_from(nodes, c, remaining)[k] < nodes.len(),
    decreases remaining,
{
    if remaining == 0 || c < 0 || c >= nodes.len() {
    } else if nodes[c].descendant_count == 0 {
    } else {
        lemma_children_from_bounds(nodes, c + nodes[c].descendant_count, (remaining - 1) as nat);
        let rest = children_from(nodes, c + nodes[c].descendant_count, (remaining - 1) as nat);
        assert forall|k: int| 0 <= k < children_from(nodes, c, remaining).len() implies c <= #[trigger] children_from(nodes, c, remaining)[k] < nodes.len() by {
            if k > 0 {
                assert(children_from(nodes, c, remaining)[k] == rest[k - 1]);
            }
        }
    }
}

/// The children of a node lie after it, within the tree.
pub proof fn lemma_children_bounds(nodes: Seq<NodeView>, i: int)
    requires
        0 <= i < nodes.len(),
    ensures
        forall|k: int| 0 <= k < children(nodes, i).len() ==> i < #[trigger] children(nodes, i)[k] < nodes.len(),
{
    lemma_children_from_bounds(nodes, i + 1, nodes[i].child_count as nat);
}

/// The children of node `i`, first to last.
pub fn children_exec(nodes: &Vec<NodeInfo>, i: usize) -> (r: Vec<usize>)
    requires
        i < nodes@.len(),
    ensures
        r@.map_values(|x: usize| x as int) == children(node_views(nodes@), i as int),
{
    let ghost nv = node_views(nodes@);
    let n = nodes.len();
    let count = nodes[i].child_count;
    let mut out: Vec<usize> = Vec::new();
    let mut c: usize = i + 1;
    let mut k: usize = 0;
    let mut done = false;
    while k < count && !done
        invariant
            k <= count,
            n == nodes@.len(),
            nv == node_views(nodes@),
            count == nv[i as int].child_count,
            !done ==> children(nv, i as int) == out@.map_values(|x: usize| x as int) + children_from(nv, c as int, (count - k) as nat),
            done ==> children(nv, i as int) == out@.map_values(|x: usize| x as int),
        decreases count - k,
    {
        let ghost before = out@;
        if c >= n {
            done = true;
            assert(children_from(nv, c as int, (count - k) as nat) == Seq::<int>::empty());
            assert(out@.map_values(|x: usize| x as int) + Seq::<int>::empty() =~= out@.map_values(|x: usize| x as int));
        } else {
            out.push(c);
            let d = nodes[c].descendant_count;
            assert(out@.map_values(|x: usize| x as int) =~= before.map_values(|x: usize| x as int).push(c as int));
            if d == 0 {
                done = true;
                assert(children_from(nv, c as int, (count - k) as nat) == seq![c as int]);
                assert(before.map_values(|x: usize| x as int) + seq![c as int] =~= out@.map_values(|x: usize| x as int));
            } else if d >= n - c {
                done = true;
                assert(children_from(nv, c + d, (count - k - 1) as nat) == Seq::<int>::empty());
                assert(before.map_values(|x: usize| x as int) + (seq![c as int] + Seq::<int>::empty()) =~= out@.map_values(|x: usize| x as int));
            } else {
                assert(before.map_values(|x: usize| x as int) + (seq![c as int] + children_from(nv, c + d, (count - k - 1) as nat)) =~= out@.map_values(|x: usize| x as int) + children_from(nv, c + d, (count - k - 1) as nat));
                c = c + d;
            }
        }
        k = k + 1;
    }
    if !done {
        assert(children_from(nv, c as int, 0) == Seq::<int>::empty());
        assert(out@.map_values(|x: usize| x as int) + Seq::<int>::empty() =~= out@.map_values(|x: usize| x as int));
    }
    out
}

/// The first child of node `i` that fills the given field.
pub fn field_child_exec(nodes: &Vec<NodeInfo>, i: usize, field: &str) -> (r: Option<usize>)
    requires
        i < nodes@.len(),
    ensures
        r is None <==> field_child(node_views(nodes@), i as int, field@) is None,
        r matches Some(j) ==> field_child(node_views(nodes@), i as int, field@) == Some(j as int) && i < j < nodes@.len(),
{
    let ghost nv = node_views(nodes@);
    let cs = children_exec(nodes, i);
    proof {
        lemma_children_bounds(nv, i as int);
    }
    let ghost csv = cs@.map_values(|x: usize| x as int);
    let f = crate::text::chars_of(field);
    let mut k: usize = 0;
    assert(csv.skip(0) =~= csv);
    while k < cs.len()
        invariant
            k <= cs@.len(),
            csv == cs@.map_values(|x: usize| x as int),
            csv == children(nv, i as int),
            nv == node_views(nodes@),
            f@ == field@,
            forall|m: int| 0 <= m < csv.len() ==> i < #[trigger] csv[m] < nodes@.len(),
            field_child(nv, i as int, field@) == field_child_in(nv, csv.skip(k as int), field@),
        decreases cs@.len() - k,
    {
        let j = cs[k];
        assert(csv.skip(k as int)[0] == j as int);
        assert(csv.skip(k as int).drop_first() =~= csv.skip(k + 1));
        assert(csv[k as int] == j as int);
        let matches = match &nodes[j].field {
            Some(name) => crate::text::chars_eq(&crate::text::chars_of(name.as_str()), &f),
            None => false,
        };
        assert(matches == (nv[j as int].field == Some(field@)));
        if matches {
            return Some(j);
        }
        k = k + 1;
    }
    None
}

/// The symbols of the subtree at node `i`: what the grammar's visitor
/// records for the node, then the subtrees of its children from the last to
/// the first, with the container the visitor passes down.
pub open spec fn walk(g: Grammar, nodes: Seq<NodeView>, src: Seq<char>, i: int, container: Seq<char>) -> Seq<SymbolView>
    decreases nodes.len() - i, 1int, 0int,
{
    if i < 0 || i >= nodes.len() {
        seq![]
    } else {
        let (own, next) = visit(g, nodes, src, i, container);
        let c = match next {
            Some(c) => c,
            None => container,
        };
        own + walk_children(g, nodes, src, i, children(nodes, i), c)
    }
}

/// The subtrees of the given children of `parent`, from the last to the first.
pub open spec fn walk_children(g: Grammar, nodes: Seq<NodeView>, src: Seq<char>, parent: int, cs: Seq<int>, container: Seq<char>) -> Seq<SymbolView>
    decreases nodes.len() - parent, 0int, cs.len(),
{
    if cs.len() == 0 || parent < 0 || parent >= nodes.len() {
        seq![]
    } else {
        let j = cs.last();
        (if parent < j < nodes.len() { walk(g, nodes, src, j, container) } else { seq![] }) + walk_children(g, nodes, src, parent, cs.drop_last(), container)
    }
}

/// The number of nodes the walk visits from node `i`.
pub open spec fn walk_size(nodes: Seq<NodeView>, i: int) -> nat
    decreases nodes.len() - i, 1int, 0int,
{
    if i < 0 || i >= nodes.len() {
        0
    } else {
        1 + children_size(nodes, i, children(nodes, i))
    }
}

/// The number of nodes the walk visits from the given children of `parent`.
pub open spec fn children_size(nodes: Seq<NodeView>, parent: int, cs: Seq<int>) -> nat
    decreases nodes.len() - parent, 0int, cs.len(),
{
    if cs.len() == 0 || parent < 0 || parent >= nodes.len() {
        0
    } else {
        let j = cs.last();
        (if parent < j < nodes.len() { walk_size(nodes, j) } else { 0 }) + children_size(nodes, parent, cs.drop_last())
    }
}

/// A pending subtree: a node and the container its symbols get.
pub type Pending = (usize, Vec<char>);

/// The symbols of the pending subtrees, from the top of the stack down.
pub open spec fn pending_walk(g: Grammar, nodes: Seq<NodeView>, src: Seq<char>, stack: Seq<Pending>) -> Seq<SymbolView>
    decreases stack.len(),
{
    if stack.len() == 0 {
        seq![]
    } else {
        walk(g, nodes, src, stack.last().0 as int, stack.last().1@) + pending_walk(g, nodes, src, stack.drop_last())
    }
}

/// The number of nodes still to visit.
pub open spec fn pending_size(nodes: Seq<NodeView>, stack: Seq<Pending>) -> nat
    decreases stack.len(),
{
    if stack.len() == 0 {
        0
    } else {
        walk_size(nodes, stack.last().0 as int) + pending_size(nodes, stack.drop_last())
    }
}

/// Walks the tree from its root with an empty container.
pub fn walk_tree(g: Grammar, nodes: &Vec<NodeInfo>, src: &[char], ix: &ByteIndex) -> (r: Vec<Symbol>)
    requires
        is_byte_index(ix.offsets@, src@),
    ensures
        symbol_views(r@) == walk(g, node_views(nodes@), src@, 0, seq![]),
{
    let ghost nv = node_views(nodes@);
    let mut out: Vec<Symbol> = Vec::new();
    if nodes.len() == 0 {
        return out;
    }
    let mut stack: Vec<Pending> = Vec::new();
    stack.push((0, Vec::new()));
    proof {
        let st = stack@;
        assert(st.drop_last() =~= Seq::<Pending>::empty());
        assert(st.last().1@ =~= Seq::<char>::empty());
        assert(pending_walk(g, nv, src@, Seq::<Pending>::empty()) == Seq::<SymbolView>::empty());
        assert(pending_walk(g, nv, src@, st) =~= walk(g, nv, src@, 0, seq![]));
    }
    while stack.len() > 0
        invariant
            nv == node_views(nodes@),
            is_byte_index(ix.offsets@, src@),
            walk(g, nv, src@, 0, seq![]) == symbol_views(out@) + pending_walk(g, nv, src@, stack@),
            forall|k: int| 0 <= k < stack@.len() ==> (#[trigger] stack@[k]).0 < nodes@.len(),
        decreases pending_size(nv, stack@),
    {
        let ghost st0 = stack@;
        let ghost out0 = symbol_views(out@);
        let (i, container) = stack.pop().unwrap();
        assert(st0.last() == (i, container));
        assert(stack@ == st0.drop_last());
        let (own, next) = visit_exec(g, nodes, src, ix, i, &container);
        let c = match next {
            Some(c) => c,
            None => container,
        };
        let ghost cv = c@;
        let cs = children_exec(nodes, i);
        proof {
            lemma_children_bounds(nv, i as int);
        }
        let ghost csv = cs@.map_values(|x: usize| x as int);
        let ghost base = stack@;
        let ghost base_out = out0;
        let mut own = own;
        let ghost own_v = own@;
        out.append(&mut own);
        let mut k: usize = 0;
        while k < cs.len()
            invariant
                k <= cs@.len(),
                csv == cs@.map_values(|x: usize| x as int),
                csv == children(nv, i as int),
                forall|m: int| 0 <= m < csv.len() ==> (i as int) < #[trigger] csv[m] < nodes@.len(),
                stack@.len() == base.len() + k,
                forall|m: int| 0 <= m < base.len() ==> stack@[m] == base[m],
                forall|m: int| 0 <= m < stack@.len() ==> (#[trigger] stack@[m]).0 < nodes@.len(),
                pending_walk(g, nv, src@, stack@) == walk_children(g, nv, src@, i as int, csv.take(k as int), cv) + pending_walk(g, nv, src@, base),
                pending_size(nv, stack@) == children_size(nv, i as int, csv.take(k as int)) + pending_size(nv, base),
                c@ == cv,
                i < nodes@.len(),
            decreases cs@.len() - k,
        {
            let j = cs[k];
            let cc = crate::text::copy_chars(&c);
            let ghost before = stack@;
            stack.push((j, cc));
            proof {
                assert(csv[k as int] == j as int);
                assert(csv.take(k + 1).drop_last() =~= csv.take(k as int));
                assert(csv.take(k + 1).last() == j as int);
                assert(stack@.drop_last() =~= before);
                assert(stack@.last() == (j, cc));
            }
            k = k + 1;
        }
        proof {
            assert(csv.take(csv.len() as int) =~= csv);
            assert(symbol_views(out@) =~= base_out + symbol_views(own_v));
        }
    }
    assert(pending_walk(g, nv, src@, stack@) == Seq::<SymbolView>::empty());
    assert(symbol_views(out@) + Seq::<SymbolView>::empty() =~= symbol_views(out@));
    out
}

/// Whether a symbol is one that the grammar's visitor records for some node
/// of the tree, under some container.
pub open spec fn recorded_by_visit(g: Grammar, nodes: Seq<NodeView>, src: Seq<char>, s: SymbolView) -> bool {
    exists|j: int, c: Seq<char>| 0 <= j < nodes.len() && (#[trigger] visit(g, nodes, src, j, c)).0.contains(s)
}

proof fn lemma_walk_recorded(g: Grammar, nodes: Seq<NodeView>, src: Seq<char>, i: int, container: Seq<char>)
    ensures
        forall|k: int| 0 <= k < walk(g, nodes, src, i, container).len() ==> recorded_by_visit(g, nodes, src, #[trigger] walk(g, nodes, src, i, container)[k]),
    decreases nodes.len() - i, 1int, 0int,
{
    if 0 <= i < nodes.len() {
        let (own, next) = visit(g, nodes, src, i, container);
        let c = match next {
            Some(c) => c,
            None => container,
        };
        let rest = walk_children(g, nodes, src, i, children(nodes, i), c);
        lemma_walk_children_recorded(g, nodes, src, i, children(nodes, i), c);
        let w = walk(g, nodes, src, i, container);
        assert(w == own + rest);
        assert forall|k: int| 0 <= k < w.len() implies recorded_by_visit(g, nodes, src, #[trigger] w[k]) by {
            if k < own.len() {
                assert(w[k] == own[k]);
                assert(visit(g, nodes, src, i, container).0.contains(own[k]));
            } else {
                assert(w[k] == rest[k - own.len()]);
            }
        }
    }
}

proof fn lemma_walk_children_recorded(
    g: Grammar,
    nodes: Seq<NodeView>,
    src: Seq<char>,
    parent: int,
    cs: Seq<int>,
    container: Seq<char>,
)
    ensures
        forall|k: int| 0 <= k < walk_children(g, nodes, src, parent, cs, container).len() ==> recorded_by_visit(g, nodes, src, #[trigger] walk_children(g, nodes, src, parent, cs, container)[k]),
    decreases nodes.len() - parent, 0int, cs.len(),
{
    if cs.len() > 0 && 0 <= parent < nodes.len() {
        let j = cs.last();
        let first = if parent < j < nodes.len() { walk(g, nodes, src, j, container) } else { seq![] };
        if parent < j < nodes.len() {
            lemma_walk_recorded(g, nodes, src, j, container);
        }
        lemma_walk_children_recorded(g, nodes, src, parent, cs.drop_last(), container);
        let rest = walk_children(g, nodes, src, parent, cs.drop_last(), container);
        let w = walk_children(g, nodes, src, parent, cs, container);
        assert(w == first + rest);
        assert forall|k: int| 0 <= k < w.len() implies recorded_by_visit(g, nodes, src, #[trigger] w[k]) by {
            if k < first.len() {
                assert(w[k] == first[k]);
            } else {
                assert(w[k] == rest[k - first.len()]);
            }
        }
    }
}

/// The walk invents nothing: every symbol it yields is one that the
/// grammar's visitor records for some node of the tree.
pub proof fn law_walk_yields_visited_symbols(g: Grammar, nodes: Seq<NodeView>, src: Seq<char>)
    ensures
        forall|k: int| 0 <= k < walk(g, nodes, src, 0, seq![]).len() ==> recorded_by_visit(g, nodes, src, #[trigger] walk(g, nodes, src, 0, seq![])[k]),
{
    lemma_walk_recorded(g, nodes, src, 0, seq![]);
}

/// The container a node's visitor hands to the node's children: the one it
/// answers with, or the node's own when it answers none.
pub open spec fn continuation(g: Grammar, nodes: Seq<NodeView>, src: Seq<char>, i: int, container: Seq<char>) -> Seq<char> {
    match visit(g, nodes, src, i, container).1 {
        Some(c) => c,
        None => container,
    }
}

/// The calls the walk makes of the grammar's visitor from node `i`, each a
/// node and the container it is visited with, in the order they are made.
pub open spec fn visit_calls(g: Grammar, nodes: Seq<NodeView>, src: Seq<char>, i: int, container: Seq<char>) -> Seq<(int, Seq<char>)>
    decreases nodes.len() - i, 1int, 0int,
{
    if i < 0 || i >= nodes.len() {
        seq![]
    } else {
        seq![(i, container)] + children_calls(g, nodes, src, i, children(nodes, i), continuation(g, nodes, src, i, container))
    }
}

/// The visitor calls for the subtrees of the given children of `parent`,
/// from the last child to the first.
pub open spec fn children_calls(g: Grammar, nodes: Seq<NodeView>, src: Seq<char>, parent: int, cs: Seq<int>, container: Seq<char>) -> Seq<(int, Seq<char>)>
    decreases nodes.len() - parent, 0int, cs.len(),
{
    if cs.len() == 0 || parent < 0 || parent >= nodes.len() {
        seq![]
    } else {
        let j = cs.last();
        (if parent < j < nodes.len() { visit_calls(g, nodes, src, j, container) } else { seq![] }) + children_calls(g, nodes, src, parent, cs.drop_last(), container)
    }
}

/// What the visitor records over a sequence of calls, in call order.
pub open spec fn records(g: Grammar, nodes: Seq<NodeView>, src: Seq<char>, calls: Seq<(int, Seq<char>)>) -> Seq<SymbolView>
    decreases calls.len(),
{
    if calls.len() == 0 {
        seq![]
    } else {
        visit(g, nodes, src, calls[0].0, calls[0].1).0 + records(g, nodes, src, calls.drop_first())
    }
}

proof fn lemma_records_concat(g: Grammar, nodes: Seq<NodeView>, src: Seq<char>, x: Seq<(int, Seq<char>)>, y: Seq<(int, Seq<char>)>)
    ensures
        records(g, nodes, src, x + y) == records(g, nodes, src, x) + records(g, nodes, src, y),
    decreases x.len(),
{
    if x.len() == 0 {
        assert(x + y =~= y);
    } else {
        lemma_records_concat(g, nodes, src, x.drop_first(), y);
        assert((x + y).drop_first() =~= x.drop_first() + y);
        assert((x + y)[0] == x[0]);
    }
}

proof fn lemma_walk_is_records(g: Grammar, nodes: Seq<NodeView>, src: Seq<char>, i: int, container: Seq<char>)
    ensures
        walk(g, nodes, src, i, container) == records(g, nodes, src, visit_calls(g, nodes, src, i, container)),
    decreases nodes.len() - i, 1int, 0int,
{
    if 0 <= i < nodes.len() {
        let c = continuation(g, nodes, src, i, container);
        lemma_walk_children_is_records(g, nodes, src, i, children(nodes, i), c);
        let rest = children_calls(g, nodes, src, i, children(nodes, i), c);
        lemma_records_concat(g, nodes, src, seq![(i, container)], rest);
        let one = records(g, nodes, src, seq![(i, container)]);
        assert(seq![(i, container)].drop_first() =~= Seq::<(int, Seq<char>)>::empty());
        assert(seq![(i, container)][0] == (i, container));
        assert(records(g, nodes, src, Seq::<(int, Seq<char>)>::empty()) == Seq::<SymbolView>::empty());
        assert(one =~= visit(g, nodes, src, i, container).0 + Seq::<SymbolView>::empty());
        assert(one =~= visit(g, nodes, src, i, container).0);
    }
}

proof fn lemma_walk_children_is_records(
    g: Grammar,
    nodes: Seq<NodeView>,
    src: Seq<char>,
    parent: int,
    cs: Seq<int>,
    container: Seq<char>,
)
    ensures
        walk_children(g, nodes, src, parent, cs, container) == records(g, nodes, src, children_calls(g, nodes, src, parent, cs, container)),
    decreases nodes.len() - parent, 0int, cs.len(),
{
    if cs.len() > 0 && 0 <= parent < nodes.len() {
        let j = cs.last();
        if parent < j < nodes.len() {
            lemma_walk_is_records(g, nodes, src, j, container);
        }
        lemma_walk_children_is_records(g, nodes, src, parent, cs.drop_last(), container);
        let first = if parent < j < nodes.len() { visit_calls(g, nodes, src, j, container) } else { seq![] };
        lemma_records_concat(g, nodes, src, first, children_calls(g, nodes, src, parent, cs.drop_last(), container));
    }
}

/// The walk's symbols are what the visitor records over its calls, in the
/// order the calls are made; the calls go in pre-order, a node first and
/// then the subtrees of its children from the last child to the first, each
/// child visited with the container its parent's visitor answered (or the
/// parent's own, when it answered none).
pub proof fn law_walk_calls_in_preorder(g: Grammar, nodes: Seq<NodeView>, src: Seq<char>, i: int, container: Seq<char>)
    ensures
        walk(g, nodes, src, i, container) == records(g, nodes, src, visit_calls(g, nodes, src, i, container)),
        0 <= i < nodes.len() ==> visit_calls(g, nodes, src, i, container) == seq![(i, container)] + children_calls(
            g,
            nodes,
            src,
            i,
            children(nodes, i),
            continuation(g, nodes, src, i, container),
        ),
        forall|cs: Seq<int>, c: Seq<char>|
            0 <= i < nodes.len() && cs.len() > 0 && i < cs.last() < nodes.len() ==> #[trigger] children_calls(g, nodes, src, i, cs, c)
                == visit_calls(g, nodes, src, cs.last(), c) + children_calls(g, nodes, src, i, cs.drop_last(), c),
{
    lemma_walk_is_records(g, nodes, src, i, container);
}

/// Whether the call at position `a` is followed later by a call of the
/// node's `k`-th child, with the container the node's visitor answered (or
/// the node's own, when it answered none).
pub open spec fn child_called_after(g: Grammar, nodes: Seq<NodeView>, src: Seq<char>, calls: Seq<(int, Seq<char>)>, a: int, k: int) -> bool {
    exists|b: int|
        a < b < calls.len() && #[trigger] calls[b] == (
            children(nodes, calls[a].0)[k],
            continuation(g, nodes, src, calls[a].0, calls[a].1),
        )
}

/// Whether, in a sequence of visitor calls, each call of a node is followed
/// later by a call of each of the node's children (`child_called_after`).
pub open spec fn children_called_after(g: Grammar, nodes: Seq<NodeView>, src: Seq<char>, calls: Seq<(int, Seq<char>)>) -> bool {
    forall|a: int, k: int|
        0 <= a < calls.len() && 0 <= k < children(nodes, calls[a].0).len() ==> #[trigger] child_called_after(
            g,
            nodes,
            src,
            calls,
            a,
            k,
        )
}

proof fn lemma_called_after_concat(
    g: Grammar,
    nodes: Seq<NodeView>,
    src: Seq<char>,
    x: Seq<(int, Seq<char>)>,
    y: Seq<(int, Seq<char>)>,
)
    requires
        children_called_after(g, nodes, src, x),
        children_called_after(g, nodes, src, y),
    ensures
        children_called_after(g, nodes, src, x + y),
{
    let z = x + y;
    assert forall|a: int, k: int| 0 <= a < z.len() && 0 <= k < children(nodes, z[a].0).len() implies #[trigger] child_called_after(
        g,
        nodes,
        src,
        z,
        a,
        k,
    ) by {
        if a < x.len() {
            assert(z[a] == x[a]);
            assert(child_called_after(g, nodes, src, x, a, k));
            let b = choose|b: int| a < b < x.len() && #[trigger] x[b] == (
                children(nodes, x[a].0)[k],
                continuation(g, nodes, src, x[a].0, x[a].1),
            );
            assert(z[b] == x[b]);
        } else {
            let a2 = a - x.len();
            assert(z[a] == y[a2]);
            assert(child_called_after(g, nodes, src, y, a2, k));
            let b = choose|b: int| a2 < b < y.len() && #[trigger] y[b] == (
                children(nodes, y[a2].0)[k],
                continuation(g, nodes, src, y[a2].0, y[a2].1),
            );
            assert(z[b + x.len()] == y[b]);
        }
    }
}

proof fn lemma_children_calls_hold_children(
    g: Grammar,
    nodes: Seq<NodeView>,
    src: Seq<char>,
    parent: int,
    cs: Seq<int>,
    container: Seq<char>,
)
    requires
        0 <= parent < nodes.len(),
        forall|k: int| 0 <= k < cs.len() ==> parent < #[trigger] cs[k] < nodes.len(),
    ensures
        forall|k: int| 0 <= k < cs.len() ==> exists|b: int|
            0 <= b < children_calls(g, nodes, src, parent, cs, container).len()
                && children_calls(g, nodes, src, parent, cs, container)[b] == (#[trigger] cs[k], container),
    decreases cs.len(),
{
    if cs.len() > 0 {
        let j = cs.last();
        let first = visit_calls(g, nodes, src, j, container);
        let rest = children_calls(g, nodes, src, parent, cs.drop_last(), container);
        let all = children_calls(g, nodes, src, parent, cs, container);
        assert(cs[cs.len() - 1] == j);
        lemma_children_calls_hold_children(g, nodes, src, parent, cs.drop_last(), container);
        assert(all == first + rest);
        assert forall|k: int| 0 <= k < cs.len() implies exists|b: int|
            0 <= b < all.len() && all[b] == (#[trigger] cs[k], container) by {
            if k == cs.len() - 1 {
                assert(first[0] == (j, container));
                assert(all[0] == first[0]);
            } else {
                assert(cs.drop_last()[k] == cs[k]);
                let b = choose|b: int| 0 <= b < rest.len() && #[trigger] rest[b] == (cs.drop_last()[k], container);
                assert(all[b + first.len()] == rest[b]);
            }
        }
    }
}

proof fn lemma_calls_children_after(g: Grammar, nodes: Seq<NodeView>, src: Seq<char>, i: int, container: Seq<char>)
    ensures
        children_called_after(g, nodes, src, visit_calls(g, nodes, src, i, container)),
    decreases nodes.len() - i, 1int, 0int,
{
    if 0 <= i < nodes.len() {
        let c = continuation(g, nodes, src, i, container);
        let cs = children(nodes, i);
        lemma_children_bounds(nodes, i);
        lemma_children_calls_after(g, nodes, src, i, cs, c);
        lemma_children_calls_hold_children(g, nodes, src, i, cs, c);
        let rest = children_calls(g, nodes, src, i, cs, c);
        let all = visit_calls(g, nodes, src, i, container);
        assert(all == seq![(i, container)] + rest);
        assert forall|a: int, k: int| 0 <= a < all.len() && 0 <= k < children(nodes, all[a].0).len() implies #[trigger] child_called_after(
            g,
            nodes,
            src,
            all,
            a,
            k,
        ) by {
            if a == 0 {
                assert(all[0] == (i, container));
                let b = choose|b: int| 0 <= b < rest.len() && #[trigger] rest[b] == (cs[k], c);
                assert(all[b + 1] == rest[b]);
            } else {
                assert(all[a] == rest[a - 1]);
                assert(child_called_after(g, nodes, src, rest, a - 1, k));
                let b = choose|b: int| a - 1 < b < rest.len() && #[trigger] rest[b] == (
                    children(nodes, rest[a - 1].0)[k],
                    continuation(g, nodes, src, rest[a - 1].0, rest[a - 1].1),
                );
                assert(all[b + 1] == rest[b]);
            }
        }
    }
}

proof fn lemma_children_calls_after(
    g: Grammar,
    nodes: Seq<NodeView>,
    src: Seq<char>,
    parent: int,
    cs: Seq<int>,
    container: Seq<char>,
)
    ensures
        children_called_after(g, nodes, src, children_calls(g, nodes, src, parent, cs, container)),
    decreases nodes.len() - parent, 0int, cs.len(),
{
    if cs.len() > 0 && 0 <= parent < nodes.len() {
        let j = cs.last();
        let first = if parent < j < nodes.len() { visit_calls(g, nodes, src, j, container) } else { seq![] };
        if parent < j < nodes.len() {
            lemma_calls_children_after(g, nodes, src, j, container);
        }
        lemma_children_calls_after(g, nodes, src, parent, cs.drop_last(), container);
        lemma_called_after_concat(g, nodes, src, first, children_calls(g, nodes, src, parent, cs.drop_last(), container));
    }
}

/// Every call the walk makes of the visitor on a node is followed by a call
/// on each of that node's children, with the container the node's visitor
/// answered (or the node's own, when it answered none); the first call is
/// on the root with the root's container.
pub proof fn law_children_called_with_answered_container(g: Grammar, nodes: Seq<NodeView>, src: Seq<char>, container: Seq<char>)
    ensures
        children_called_after(g, nodes, src, visit_calls(g, nodes, src, 0, container)),
        nodes.len() > 0 ==> visit_calls(g, nodes, src, 0, container)[0] == (0int, container),
{
    lemma_calls_children_after(g, nodes, src, 0, container);
}

/// Whether a node list has the shape of a tree in pre-order: each node's
/// subtree, the node and its descendants, is the run of `descendant_count`
/// nodes that starts at it, and ends no later than its parent's.
pub open spec fn well_formed_tree(nodes: Seq<NodeView>) -> bool {
    forall|i: int|
        0 <= i < nodes.len() ==> {
            &&& (#[trigger] nodes[i]).descendant_count >= 1
            &&& i + nodes[i].descendant_count <= nodes.len()
            &&& forall|k: int|
                0 <= k < children(nodes, i).len() ==> #[trigger] children(nodes, i)[k]
                    + nodes[children(nodes, i)[k]].descendant_count <= i + nodes[i].descendant_count
        }
}

/// Whether every call is on a node in `lo..hi`.
pub open spec fn calls_within(calls: Seq<(int, Seq<char>)>, lo: int, hi: int) -> bool {
    forall|a: int| 0 <= a < calls.len() ==> lo <= (#[trigger] calls[a]).0 < hi
}

/// Whether no node is called twice.
pub open spec fn calls_distinct(calls: Seq<(int, Seq<char>)>) -> bool {
    forall|a: int, b: int| 0 <= a < b < calls.len() ==> (#[trigger] calls[a]).0 != (#[trigger] calls[b]).0
}

proof fn lemma_distinct_concat(x: Seq<(int, Seq<char>)>, y: Seq<(int, Seq<char>)>, lo1: int, hi1: int, lo2: int, hi2: int)
    requires
        calls_distinct(x),
        calls_distinct(y),
        calls_within(x, lo1, hi1),
        calls_within(y, lo2, hi2),
        hi1 <= lo2 || hi2 <= lo1,
    ensures
        calls_distinct(x + y),
{
    let z = x + y;
    assert forall|a: int, b: int| 0 <= a < b < z.len() implies (#[trigger] z[a]).0 != (#[trigger] z[b]).0 by {
        if b < x.len() {
            assert(z[a] == x[a] && z[b] == x[b]);
        } else if a >= x.len() {
            assert(z[a] == y[a - x.len()] && z[b] == y[b - x.len()]);
        } else {
            assert(z[a] == x[a] && z[b] == y[b - x.len()]);
        }
    }
}

proof fn lemma_children_from_chain(nodes: Seq<NodeView>, c: int, remaining: nat)
    ensures
        children_from(nodes, c, remaining).len() > 0 ==> children_from(nodes, c, remaining)[0] == c,
        forall|k: int|
            0 < k < children_from(nodes, c, remaining).len() ==> #[trigger] children_from(nodes, c, remaining)[k]
                == children_from(nodes, c, remaining)[k - 1] + nodes[children_from(nodes, c, remaining)[k - 1]].descendant_count,
    decreases remaining,
{
    if remaining == 0 || c < 0 || c >= nodes.len() {
    } else if nodes[c].descendant_count == 0 {
    } else {
        let next = c + nodes[c].descendant_count;
        lemma_children_from_chain(nodes, next, (remaining - 1) as nat);
        let rest = children_from(nodes, next, (remaining - 1) as nat);
        let all = children_from(nodes, c, remaining);
        assert(all == seq![c] + rest);
        assert forall|k: int| 0 < k < all.len() implies #[trigger] all[k] == all[k - 1] + nodes[all[k - 1]].descendant_count by {
            if k > 1 {
                assert(all[k] == rest[k - 1]);
                assert(all[k - 1] == rest[k - 2]);
            } else {
                assert(all[1] == rest[0]);
            }
        }
    }
}

proof fn lemma_calls_in_subtree(g: Grammar, nodes: Seq<NodeView>, src: Seq<char>, i: int, container: Seq<char>)
    requires
        well_formed_tree(nodes),
        0 <= i < nodes.len(),
    ensures
        calls_within(visit_calls(g, nodes, src, i, container), i, i + nodes[i].descendant_count),
        calls_distinct(visit_calls(g, nodes, src, i, container)),
    decreases nodes.len() - i, 1int, 0int,
{
    let c = continuation(g, nodes, src, i, container);
    let cs = children(nodes, i);
    let head = seq![(i, container)];
    let rest = children_calls(g, nodes, src, i, cs, c);
    let all = visit_calls(g, nodes, src, i, container);
    assert(all == head + rest);
    assert(nodes[i].descendant_count >= 1);
    assert(calls_within(head, i, i + 1));
    assert(calls_distinct(head));
    if cs.len() > 0 {
        lemma_children_bounds(nodes, i);
        lemma_children_from_chain(nodes, i + 1, nodes[i].child_count as nat);
        assert(cs[cs.len() - 1] + nodes[cs[cs.len() - 1]].descendant_count <= i + nodes[i].descendant_count);
        lemma_children_calls_in(g, nodes, src, i, cs, c);
        assert(cs[0] == i + 1);
        lemma_distinct_concat(head, rest, i, i + 1, i + 1, cs.last() + nodes[cs.last()].descendant_count);
    } else {
        assert(rest =~= Seq::<(int, Seq<char>)>::empty());
        assert(all =~= head);
    }
}

proof fn lemma_children_calls_in(
    g: Grammar,
    nodes: Seq<NodeView>,
    src: Seq<char>,
    parent: int,
    cs: Seq<int>,
    container: Seq<char>,
)
    requires
        well_formed_tree(nodes),
        0 <= parent < nodes.len(),
        cs.len() > 0,
        forall|k: int| 0 <= k < cs.len() ==> parent < #[trigger] cs[k] < nodes.len(),
        forall|k: int| 0 < k < cs.len() ==> #[trigger] cs[k] == cs[k - 1] + nodes[cs[k - 1]].descendant_count,
    ensures
        cs[0] <= cs.last(),
        calls_within(children_calls(g, nodes, src, parent, cs, container), cs[0], cs.last() + nodes[cs.last()].descendant_count),
        calls_distinct(children_calls(g, nodes, src, parent, cs, container)),
    decreases nodes.len() - parent, 0int, cs.len(),
{
    let j = cs.last();
    let first = visit_calls(g, nodes, src, j, container);
    let rest = children_calls(g, nodes, src, parent, cs.drop_last(), container);
    let all = children_calls(g, nodes, src, parent, cs, container);
    assert(cs[cs.len() - 1] == j);
    assert(all == first + rest);
    lemma_calls_in_subtree(g, nodes, src, j, container);
    let end = j + nodes[j].descendant_count;
    if cs.len() == 1 {
        assert(rest =~= Seq::<(int, Seq<char>)>::empty());
        assert(all =~= first);
        assert(cs[0] == j);
    } else {
        let d = cs.drop_last();
        assert forall|k: int| 0 <= k < d.len() implies parent < #[trigger] d[k] < nodes.len() by {
            assert(d[k] == cs[k]);
        }
        assert forall|k: int| 0 < k < d.len() implies #[trigger] d[k] == d[k - 1] + nodes[d[k - 1]].descendant_count by {
            assert(d[k] == cs[k] && d[k - 1] == cs[k - 1]);
        }
        lemma_children_calls_in(g, nodes, src, parent, d, container);
        let dl = d.last();
        assert(dl == cs[cs.len() - 2]);
        assert(cs[cs.len() - 1] == cs[cs.len() - 1 - 1] + nodes[cs[cs.len() - 1 - 1]].descendant_count);
        assert(nodes[dl].descendant_count >= 1);
        assert(d[0] == cs[0]);
        assert(nodes[cs[0]].descendant_count >= 1);
        lemma_distinct_concat(first, rest, j, end, cs[0], j);
        assert(calls_within(all, cs[0], end)) by {
            assert forall|a: int| 0 <= a < all.len() implies cs[0] <= (#[trigger] all[a]).0 < end by {
                if a < first.len() {
                    assert(all[a] == first[a]);
                } else {
                    assert(all[a] == rest[a - first.len()]);
                }
            }
        }
    }
}

/// In a tree in pre-order, the walk calls the visitor on no node outside
/// the tree and at most once on each node.
pub proof fn law_each_node_visited_at_most_once(g: Grammar, nodes: Seq<NodeView>, src: Seq<char>, container: Seq<char>)
    requires
        well_formed_tree(nodes),
    ensures
        calls_within(visit_calls(g, nodes, src, 0, container), 0, nodes.len() as int),
        calls_distinct(visit_calls(g, nodes, src, 0, container)),
{
    if nodes.len() > 0 {
        lemma_calls_in_subtree(g, nodes, src, 0, container);
        let calls = visit_calls(g, nodes, src, 0, container);
        assert forall|a: int| 0 <= a < calls.len() implies 0 <= (#[trigger] calls[a]).0 < nodes.len() by {}
    }
}

} // verus!
