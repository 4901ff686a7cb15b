//! Path names as text: their components, file name and extension.
use vstd::prelude::*;

use crate::text::{copy_chars, views};

verus! {

/// Whether a `/`-separated piece is a component that names something
/// (empty pieces and `.` add nothing to a path).
pub open spec fn is_named_piece(piece: Seq<char>) -> bool {
    piece.len() > 0 && piece != seq!['.']
}

/// The named components read so far and the pending piece.
pub open spec fn component_state(p: Seq<char>) -> (Seq<Seq<char>>, Seq<char>)
    decreases p.len(),
{
    if p.len() == 0 {
        (seq![], seq![])
    } else {
        let (done, cur) = component_state(p.drop_last());
        if p.last() == '/' {
            (if is_named_piece(cur) { done.push(cur) } else { done }, seq![])
        } else {
            (done, cur.push(p.last()))
        }
    }
}

/// The components of a path other than the root, `.` and empty ones.
pub open spec fn components(p: Seq<char>) -> Seq<Seq<char>> {
    let (done, cur) = component_state(p);
    if is_named_piece(cur) {
        done.push(cur)
    } else {
        done
    }
}

/// `Path::file_name`: the final component, unless there is none or it is `..`.
pub open spec fn file_name(p: Seq<char>) -> Option<Seq<char>> {
    let c = components(p);
    if c.len() == 0 || c.last() == seq!['.', '.'] {
        None
    } else {
        Some(c.last())
    }
}

/// The index of the last `.` in a text.
pub open spec fn last_dot(s: Seq<char>) -> Option<int>
    decreases s.len(),
{
    if s.len() == 0 {
        None
    } else if s.last() == '.' {
        Some(s.len() - 1)
    } else {
        last_dot(s.drop_last())
    }
}

/// `Path::extension`: what follows the last `.` of the file name, unless
/// the name has no `.` or its only `.` is its first char.
pub open spec fn extension(p: Seq<char>) -> Option<Seq<char>> {
    match file_name(p) {
        None => None,
        Some(name) => match last_dot(name) {
            None => None,
            Some(k) => if k == 0 {
                None
            } else {
                Some(name.skip(k + 1))
            },
        },
    }
}

proof fn lemma_dot_piece(cur: Seq<char>)
    ensures
        is_named_piece(cur) == (cur.len() > 0 && !(cur.len() == 1 && cur[0] == '.')),
{
    if cur.len() == 1 && cur[0] == '.' {
        assert(cur =~= seq!['.']);
    }
    if cur == seq!['.'] {
        assert(seq!['.'][0] == '.');
    }
}

proof fn lemma_state_after_separator(x: Seq<char>, n: Seq<char>)
    requires
        x.len() == 0 || x.last() == '/',
        forall|i: int| 0 <= i < n.len() ==> n[i] != '/',
    ensures
        component_state(x + n).0 == component_state(x).0,
        component_state(x + n).1 == n,
    decreases n.len(),
{
    if n.len() == 0 {
        assert(x + n =~= x);
    } else {
        lemma_state_after_separator(x, n.drop_last());
        assert((x + n).drop_last() =~= x + n.drop_last());
        assert((x + n).last() == n.last());
        assert(n.drop_last().push(n.last()) =~= n);
    }
}

/// A name without `/` that names something is the file name of itself and
/// of any path that ends in `/` and that name.
pub proof fn lemma_file_name_of_joined(dir: Seq<char>, name: Seq<char>)
    requires
        forall|i: int| 0 <= i < name.len() ==> name[i] != '/',
        is_named_piece(name),
    ensures
        file_name(dir + seq!['/'] + name) == file_name(name),
{
    let x = dir + seq!['/'];
    lemma_state_after_separator(x, name);
    lemma_state_after_separator(Seq::<char>::empty(), name);
    assert(Seq::<char>::empty() + name =~= name);
}

/// The components of a path.
pub fn components_exec(p: &[char]) -> (r: Vec<Vec<char>>)
    ensures
        views(r@) == components(p@),
{
    let mut done: Vec<Vec<char>> = Vec::new();
    let mut cur: Vec<char> = Vec::new();
    let mut i: usize = 0;
    while i < p.len()
        invariant
            i <= p@.len(),
            (views(done@), cur@) == component_state(p@.take(i as int)),
        decreases p@.len() - i,
    {
        assert(p@.take(i + 1).drop_last() =~= p@.take(i as int));
        let c = p[i];
        if c == '/' {
            let named = cur.len() > 0 && !(cur.len() == 1 && cur[0] == '.');
            proof {
                lemma_dot_piece(cur@);
            }
            if named {
                let ghost od = done@;
                let finished = cur;
                done.push(finished);
                assert(views(done@) =~= views(od).push(finished@));
            }
            cur = Vec::new();
        } else {
            cur.push(c);
        }
        i = i + 1;
    }
    assert(p@.take(p@.len() as int) =~= p@);
    let named = cur.len() > 0 && !(cur.len() == 1 && cur[0] == '.');
    proof {
        lemma_dot_piece(cur@);
    }
    if named {
        let ghost od = done@;
        let ghost cv = cur@;
        done.push(cur);
        assert(views(done@) =~= views(od).push(cv));
    }
    done
}

/// `Path::file_name` on a path given as text.
pub fn file_name_exec(p: &[char]) -> (r: Option<Vec<char>>)
    ensures
        r is Some <==> file_name(p@) is Some,
        r matches Some(v) ==> file_name(p@) == Some(v@),
{
    let c = components_exec(p);
    let n = c.len();
    if n == 0 {
        return None;
    }
    let last = &c[n - 1];
    assert(views(c@).last() == last@);
    let is_parent = last.len() == 2 && last[0] == '.' && last[1] == '.';
    proof {
        if last@.len() == 2 && last@[0] == '.' && last@[1] == '.' {
            assert(last@ =~= seq!['.', '.']);
        }
        if last@ == seq!['.', '.'] {
            assert(seq!['.', '.'][0] == '.' && seq!['.', '.'][1] == '.');
        }
    }
    if is_parent {
        None
    } else {
        Some(copy_chars(last))
    }
}

proof fn lemma_last_dot(s: Seq<char>)
    ensures
        last_dot(s) matches Some(k) ==> 0 <= k < s.len(),
    decreases s.len(),
{
    if s.len() > 0 && s.last() != '.' {
        lemma_last_dot(s.drop_last());
    }
}

/// `Path::extension` on a path given as text.
pub fn extension_exec(p: &[char]) -> (r: Option<Vec<char>>)
    ensures
        r is Some <==> extension(p@) is Some,
        r matches Some(v) ==> extension(p@) == Some(v@),
{
    let name = match file_name_exec(p) {
        Some(n) => n,
        None => {
            return None;
        },
    };
    proof {
        lemma_last_dot(name@);
    }
    let mut i: usize = name.len();
    assert(name@.take(i as int) =~= name@);
    while i > 0
        invariant
            i <= name@.len(),
            last_dot(name@) == last_dot(name@.take(i as int)),
            file_name(p@) == Some(name@),
        decreases i,
    {
        assert(name@.take(i as int).drop_last() =~= name@.take(i - 1));
        assert(name@.take(i as int).last() == name@[i - 1]);
        if name[i - 1] == '.' {
            assert(last_dot(name@) == Some(i - 1));
            if i - 1 == 0 {
                return None;
            }
            let mut e: Vec<char> = Vec::new();
            let mut k: usize = i;
            while k < name.len()
                invariant
                    i <= k <= name@.len(),
                    e@ == name@.subrange(i as int, k as int),
                decreases name@.len() - k,
            {
                e.push(name[k]);
                k = k + 1;
                assert(e@ =~= name@.subrange(i as int, k as int));
            }
            assert(name@.skip(i as int) =~= name@.subrange(i as int, name@.len() as int));
            return Some(e);
        }
        i = i - 1;
    }
    assert(name@.take(0) =~= Seq::<char>::empty());
    None
}

/// The part of `path` after the components of `root`, as
/// `Path::strip_prefix` reports it: `None` when `root` is not a prefix of
/// `path` component by component.
pub uninterp spec fn path_strip_prefix(path: Seq<char>, root: Seq<char>) -> Option<Seq<char>>;

/// `Path::strip_prefix`, on paths given as text; the result is read back
/// with `to_string_lossy`, which leaves text that came from a `&str`
/// unchanged.
#[verifier::external_body]
pub(crate) fn strip_prefix(path: &str, root: &str) -> (r: Option<String>)
    ensures
        r.deep_view() == path_strip_prefix(path@, root@),
{
    match std::path::Path::new(path).strip_prefix(root) {
        Ok(rel) => Some(rel.to_string_lossy().into_owned()),
        Err(_) => None,
    }
}

} // verus!
