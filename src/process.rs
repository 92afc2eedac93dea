//! Descendant enumeration over a parent-to-children process table.

use std::collections::{HashMap, HashSet};
use vstd::prelude::*;

verus! {

broadcast use vstd::std_specs::hash::group_hash_axioms;

/// `c` is listed as a direct child of `p`.
pub open spec fn child_of(tree: Map<u32, Vec<u32>>, p: u32, c: u32) -> bool {
    tree.contains_key(p) && tree[p]@.contains(c)
}

/// `path` is a chain of parent-to-child steps that starts at a child of `root`.
pub open spec fn is_chain(tree: Map<u32, Vec<u32>>, root: u32, path: Seq<u32>) -> bool {
    &&& path.len() >= 1
    &&& child_of(tree, root, path[0])
    &&& forall|i: int| 1 <= i < path.len() ==> child_of(tree, path[i - 1], #[trigger] path[i])
}

/// `c` is a descendant of `root`.
pub open spec fn is_descendant(tree: Map<u32, Vec<u32>>, root: u32, c: u32) -> bool {
    exists|path: Seq<u32>| #[trigger] is_chain(tree, root, path) && path.last() == c
}

proof fn lemma_child_of_descendant(tree: Map<u32, Vec<u32>>, root: u32, x: u32, c: u32)
    requires
        is_descendant(tree, root, x),
        child_of(tree, x, c),
    ensures
        is_descendant(tree, root, c),
{
    let path = choose|path: Seq<u32>| #[trigger] is_chain(tree, root, path) && path.last() == x;
    let extended = path.push(c);
    assert forall|i: int| 1 <= i < extended.len() implies child_of(tree, extended[i - 1], #[trigger] extended[i]) by {
        if i < path.len() {
            assert(extended[i] == path[i] && extended[i - 1] == path[i - 1]);
        }
    }
    assert(is_chain(tree, root, extended));
}

proof fn lemma_root_child_descendant(tree: Map<u32, Vec<u32>>, root: u32, c: u32)
    requires
        child_of(tree, root, c),
    ensures
        is_descendant(tree, root, c),
{
    assert(is_chain(tree, root, seq![c]));
}

/// `d` lists every descendant of `root` but `root` itself, once each, and
/// each one after its parent (so that its reverse kills children first).
pub open spec fn descendant_listing(tree: Map<u32, Vec<u32>>, root: u32, d: Seq<u32>) -> bool {
    &&& d.no_duplicates()
    &&& forall|x: u32| #[trigger] d.contains(x) <==> (x != root && is_descendant(tree, root, x))
    &&& forall|i: int|
        0 <= i < d.len() ==> child_of(tree, root, #[trigger] d[i]) || exists|j: int|
            0 <= j < i && child_of(tree, d[j], d[i])
}

proof fn lemma_closed_holds_chain(tree: Map<u32, Vec<u32>>, root: u32, s: Set<u32>, path: Seq<u32>, i: int)
    requires
        s.contains(root),
        forall|v: u32, w: u32| s.contains(v) && #[trigger] child_of(tree, v, w) ==> s.contains(w),
        is_chain(tree, root, path),
        0 <= i < path.len(),
    ensures
        s.contains(path[i]),
    decreases i,
{
    if i > 0 {
        lemma_closed_holds_chain(tree, root, s, path, i - 1);
        assert(child_of(tree, path[i - 1], path[i]));
    }
}

proof fn lemma_closed_holds_descendants(tree: Map<u32, Vec<u32>>, root: u32, s: Set<u32>, c: u32)
    requires
        s.contains(root),
        forall|v: u32, w: u32| s.contains(v) && #[trigger] child_of(tree, v, w) ==> s.contains(w),
        is_descendant(tree, root, c),
    ensures
        s.contains(c),
{
    let path = choose|path: Seq<u32>| #[trigger] is_chain(tree, root, path) && path.last() == c;
    lemma_closed_holds_chain(tree, root, s, path, path.len() - 1);
}

/// Pushes `children` onto `stack` last child first, so that the first child is popped first.
fn push_reversed(stack: &mut Vec<u32>, children: &Vec<u32>)
    ensures
        final(stack)@.len() == old(stack)@.len() + children@.len(),
        final(stack)@.subrange(0, old(stack)@.len() as int) == old(stack)@,
        forall|j: int|
            0 <= j < children@.len() ==> #[trigger] final(stack)@[old(stack)@.len() + j]
                == children@[children@.len() - 1 - j],
{
    let ghost s0 = stack@;
    let mut k: usize = children.len();
    while k > 0
        invariant
            k <= children.len(),
            stack@.len() == s0.len() + (children.len() - k),
            stack@.subrange(0, s0.len() as int) == s0,
            forall|j: int|
                0 <= j < children.len() - k ==> #[trigger] stack@[s0.len() + j] == children@[children.len() - 1 - j],
        decreases k,
    {
        k = k - 1;
        stack.push(children[k]);
        assert(stack@.subrange(0, s0.len() as int) =~= s0);
    }
}

proof fn lemma_difference_shrinks(a: Set<u32>, s: Set<u32>, x: u32)
    requires
        a.finite(),
        a.contains(x),
        !s.contains(x),
    ensures
        a.difference(s.insert(x)).len() < a.difference(s).len(),
{
    assert(a.difference(s.insert(x)) =~= a.difference(s).remove(x));
}

/// Appends to `pids` every descendant of `pid` in `tree` (a map from a
/// process to its direct children), depth first, each once, `pid` excluded.
pub fn collect_descendants_from_tree(pid: u32, tree: &HashMap<u32, Vec<u32>>, pids: &mut Vec<i32>)
    ensures
        exists|d: Seq<u32>|
            #![trigger descendant_listing(tree@, pid, d)]
            descendant_listing(tree@, pid, d) && final(pids)@ == old(pids)@ + d.map_values(
                |x: u32| x as i32,
            ),
{
    let ghost t = tree@;
    let ghost start = pids@;
    let ghost mut order: Seq<u32> = Seq::empty();
    let mut seen: HashSet<u32> = HashSet::new();
    seen.insert(pid);
    let mut stack: Vec<u32> = Vec::new();
    proof {
        assert(t.dom().finite());
    }
    if let Some(children) = tree.get(&pid) {
        push_reversed(&mut stack, children);
        proof {
            assert forall|i: int| 0 <= i < stack.len() implies child_of(t, pid, #[trigger] stack@[i]) && is_descendant(t, pid, stack@[i]) by {
                let j = children@.len() - 1 - i;
                assert(stack@[0 + i] == children@[j]);
                assert(children@.contains(children@[j]));
                lemma_root_child_descendant(t, pid, stack@[i]);
            }
            assert forall|v: u32, w: u32| seen@.contains(v) && #[trigger] child_of(t, v, w) implies seen@.contains(w) || stack@.contains(w) by {
                if v == pid {
                    let j = choose|j: int| 0 <= j < children@.len() && children@[j] == w;
                    let i = children@.len() - 1 - j;
                    assert(stack@[0 + i] == children@[children@.len() - 1 - i]);
                }
            }
        }
    } else {
        proof {
            assert(seen@ =~= set![pid]);
        }
    }
    while stack.len() > 0
        invariant
            t == tree@,
            t.dom().finite(),
            seen@ == order.to_set().insert(pid),
            order.no_duplicates(),
            !order.contains(pid),
            pids@ == start + order.map_values(|x: u32| x as i32),
            forall|i: int| 0 <= i < order.len() ==> is_descendant(t, pid, #[trigger] order[i]),
            forall|i: int|
                0 <= i < order.len() ==> child_of(t, pid, #[trigger] order[i]) || exists|j: int|
                    0 <= j < i && child_of(t, order[j], order[i]),
            forall|i: int| 0 <= i < stack.len() ==> is_descendant(t, pid, #[trigger] stack@[i]),
            forall|i: int|
                0 <= i < stack.len() ==> child_of(t, pid, #[trigger] stack@[i]) || exists|j: int|
                    0 <= j < order.len() && child_of(t, order[j], stack@[i]),
            forall|v: u32, w: u32|
                seen@.contains(v) && #[trigger] child_of(t, v, w) ==> seen@.contains(w)
                    || stack@.contains(w),
        decreases t.dom().difference(seen@).len(), stack.len(),
    {
        let ghost s_before = stack@;
        let ghost seen_before = seen@;
        let x = stack.pop().unwrap();
        assert(s_before == stack@.push(x));
        assert(s_before[s_before.len() - 1] == x);
        if !seen.contains(&x) {
            let ghost prev = order;
            seen.insert(x);
            proof {
                order = order.push(x);
                assert forall|y: u32| order.contains(y) <==> prev.contains(y) || y == x by {
                    if prev.contains(y) {
                        let i = choose|i: int| 0 <= i < prev.len() && prev[i] == y;
                        assert(order[i] == prev[i]);
                    }
                    if y == x {
                        assert(order[order.len() - 1] == x);
                    }
                }
                assert(order.to_set() =~= prev.to_set().insert(x));
                assert(seen@ =~= order.to_set().insert(pid));
                assert(order[order.len() - 1] == x);
                assert(x != pid);
                if t.dom().contains(x) {
                    lemma_difference_shrinks(t.dom(), seen_before, x);
                } else {
                    assert(t.dom().difference(seen@) =~= t.dom().difference(seen_before));
                }
            }
            pids.push(#[verifier::truncate] (x as i32));
            proof {
                assert(pids@ =~= start + order.map_values(|x: u32| x as i32));
                assert forall|i: int| 0 <= i < order.len() implies child_of(t, pid, #[trigger] order[i]) || exists|j: int| 0 <= j < i && child_of(t, order[j], order[i]) by {
                    if i < prev.len() {
                        assert(order[i] == prev[i]);
                        if !child_of(t, pid, prev[i]) {
                            let j = choose|j: int| 0 <= j < i && child_of(t, prev[j], prev[i]);
                            assert(order[j] == prev[j]);
                        }
                    } else {
                        assert(s_before[s_before.len() - 1] == x);
                        if !child_of(t, pid, x) {
                            let j = choose|j: int| 0 <= j < prev.len() && child_of(t, prev[j], s_before[s_before.len() - 1]);
                            assert(order[j] == prev[j]);
                        }
                    }
                }
                assert forall|i: int| 0 <= i < order.len() implies is_descendant(t, pid, #[trigger] order[i]) by {
                    if i < prev.len() {
                        assert(order[i] == prev[i]);
                    } else {
                        assert(s_before[s_before.len() - 1] == x);
                    }
                }
            }
            let ghost s_mid = stack@;
            match tree.get(&x) {
                Some(children) => {
                    push_reversed(&mut stack, children);
                    proof {
                        assert(is_descendant(t, pid, x)) by {
                            assert(s_before[s_before.len() - 1] == x);
                        }
                        assert forall|i: int| 0 <= i < stack.len() implies is_descendant(t, pid, #[trigger] stack@[i]) && (child_of(t, pid, stack@[i]) || exists|j: int| 0 <= j < order.len() && child_of(t, order[j], stack@[i])) by {
                            if i < s_mid.len() {
                                assert(stack@[i] == stack@.subrange(0, s_mid.len() as int)[i]);
                                assert(stack@[i] == s_mid[i]);
                                assert(s_mid[i] == s_before[i]);
                                if !child_of(t, pid, s_before[i]) {
                                    let j = choose|j: int| 0 <= j < prev.len() && child_of(t, prev[j], s_before[i]);
                                    assert(order[j] == prev[j]);
                                }
                            } else {
                                let k = i - s_mid.len();
                                let c = children@.len() - 1 - k;
                                assert(stack@[s_mid.len() + k] == children@[children@.len() - 1 - k]);
                                assert(children@.contains(children@[c]));
                                assert(child_of(t, x, stack@[i]));
                                lemma_child_of_descendant(t, pid, x, stack@[i]);
                                assert(order[order.len() - 1] == x);
                            }
                        }
                        assert forall|v: u32, w: u32| seen@.contains(v) && #[trigger] child_of(t, v, w) implies seen@.contains(w) || stack@.contains(w) by {
                            if v == x {
                                let j = choose|j: int| 0 <= j < children@.len() && children@[j] == w;
                                let i = children@.len() - 1 - j;
                                assert(stack@[s_mid.len() + i] == children@[children@.len() - 1 - i]);
                            } else {
                                assert(seen_before.contains(v));
                                if w != x && !seen@.contains(w) {
                                    assert(s_before.contains(w));
                                    let i = choose|i: int| 0 <= i < s_before.len() && s_before[i] == w;
                                    assert(i < s_mid.len());
                                    assert(stack@.subrange(0, s_mid.len() as int)[i] == w);
                                }
                            }
                        }
                    }
                },
                None => {
                    proof {
                        assert forall|i: int| 0 <= i < stack.len() implies is_descendant(t, pid, #[trigger] stack@[i]) && (child_of(t, pid, stack@[i]) || exists|j: int| 0 <= j < order.len() && child_of(t, order[j], stack@[i])) by {
                            assert(stack@[i] == s_before[i]);
                            if !child_of(t, pid, s_before[i]) {
                                let j = choose|j: int| 0 <= j < prev.len() && child_of(t, prev[j], s_before[i]);
                                assert(order[j] == prev[j]);
                            }
                        }
                        assert forall|v: u32, w: u32| seen@.contains(v) && #[trigger] child_of(t, v, w) implies seen@.contains(w) || stack@.contains(w) by {
                            if v != x {
                                assert(seen_before.contains(v));
                                if w != x && !seen@.contains(w) {
                                    let i = choose|i: int| 0 <= i < s_before.len() && s_before[i] == w;
                                    assert(stack@[i] == w);
                                }
                            }
                        }
                    }
                },
            }
        } else {
            proof {
                assert forall|v: u32, w: u32| seen@.contains(v) && #[trigger] child_of(t, v, w) implies seen@.contains(w) || stack@.contains(w) by {
                    if w != x && !seen@.contains(w) {
                        let i = choose|i: int| 0 <= i < s_before.len() && s_before[i] == w;
                        assert(stack@[i] == w);
                    }
                }
            }
        }
    }
    proof {
        assert(stack@.len() == 0);
        assert forall|v: u32, w: u32| seen@.contains(v) && #[trigger] child_of(t, v, w) implies seen@.contains(w) by {
            if !seen@.contains(w) {
                assert(stack@.contains(w));
                let i = choose|i: int| 0 <= i < stack@.len() && stack@[i] == w;
            }
        }
        assert forall|x: u32| #[trigger] order.contains(x) <==> (x != pid && is_descendant(t, pid, x)) by {
            if x != pid && is_descendant(t, pid, x) {
                lemma_closed_holds_descendants(t, pid, seen@, x);
                assert(order.to_set().contains(x));
            }
            if order.contains(x) {
                let i = choose|i: int| 0 <= i < order.len() && order[i] == x;
            }
        }
        assert(descendant_listing(t, pid, order));
    }
}

/// Appends to `pids` every descendant of `pid` in `tree`, as
/// `collect_descendants_from_tree` does for the same process number.
pub fn collect_descendants(pid: i32, tree: &HashMap<u32, Vec<u32>>, pids: &mut Vec<i32>)
    ensures
        exists|d: Seq<u32>|
            #![trigger descendant_listing(tree@, pid as u32, d)]
            descendant_listing(tree@, pid as u32, d) && final(pids)@ == old(pids)@ + d.map_values(
                |x: u32| x as i32,
            ),
{
    collect_descendants_from_tree(#[verifier::truncate] (pid as u32), tree, pids);
}

/// The order in which a tree is terminated: the descendants last to first
/// (children before their parents), then the root.
pub fn kill_order(pid: i32, descendants: &Vec<i32>) -> (r: Vec<i32>)
    ensures
        r@ == descendants@.reverse().push(pid),
{
    let mut r: Vec<i32> = Vec::new();
    let mut k: usize = descendants.len();
    while k > 0
        invariant
            k <= descendants.len(),
            r@ == descendants@.subrange(k as int, descendants.len() as int).reverse(),
        decreases k,
    {
        k = k - 1;
        r.push(descendants[k]);
        assert(r@ =~= descendants@.subrange(k as int, descendants.len() as int).reverse());
    }
    assert(descendants@.subrange(0, descendants.len() as int) =~= descendants@);
    r.push(pid);
    r
}

} // verus!
