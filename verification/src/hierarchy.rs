//! The runtime entity hierarchy a spawned model streams in, and the search
//! for the sub-entity that accepts animation-play commands.
//!
//! The hierarchy is an arena: a parent is created before its children, so a
//! child's index is always greater than its parent's.  The search walks the
//! tree depth-first from a root and returns the first node, the root
//! included, that carries playback capability.

use vstd::prelude::*;

verus! {

/// One entity of the hierarchy: its children, and whether it accepts
/// animation-play commands.
#[derive(Debug, Clone)]
pub struct HierarchyNode {
    pub children: Vec<usize>,
    pub has_animation_player: bool,
}

/// A parent-to-children arena of runtime entities.
#[derive(Debug, Clone)]
pub struct Hierarchy {
    pub nodes: Vec<HierarchyNode>,
}

impl Hierarchy {
    /// Each child index lies strictly beyond its parent's and inside the
    /// arena: parents are created before their children.
    pub open spec fn wf(self) -> bool {
        forall|i: int, k: int|
            0 <= i < self.nodes@.len() && 0 <= k < self.nodes@[i].children@.len()
                ==> i < #[trigger] self.nodes@[i].children@[k] < self.nodes@.len()
    }

    /// Whether node `i` accepts animation-play commands.
    pub open spec fn capable(self, i: int) -> bool {
        self.nodes@[i].has_animation_player
    }

    /// The children of node `i`.
    pub open spec fn children_of(self, i: int) -> Seq<usize> {
        self.nodes@[i].children@
    }
}

/// All roots in `cs` lie strictly beyond `parent` and inside the arena.
pub open spec fn roots_beyond(t: Hierarchy, cs: Seq<usize>, parent: int) -> bool {
    forall|k: int| 0 <= k < cs.len() ==> parent < #[trigger] cs[k] < t.nodes@.len()
}

/// The first capable node of the subtree rooted at `i`, in depth-first
/// preorder: the root itself, then each child's subtree in order.
pub open spec fn spec_first_capable(t: Hierarchy, i: int) -> Option<int>
    decreases t.nodes@.len() - i, 0int,
        when t.wf() && 0 <= i < t.nodes@.len()
{
    if t.capable(i) {
        Some(i)
    } else {
        spec_first_capable_forest(t, t.children_of(i), i)
    }
}

/// The first capable node over a row of subtrees, searched left to right.
/// `parent` bounds every root from below; the recursion terminates because
/// children always lie beyond their parent.
pub open spec fn spec_first_capable_forest(t: Hierarchy, cs: Seq<usize>, parent: int) -> Option<
    int,
>
    decreases t.nodes@.len() - parent - 1, cs.len(),
        when t.wf() && roots_beyond(t, cs, parent)
{
    if cs.len() == 0 {
        None
    } else {
        match spec_first_capable(t, cs[0] as int) {
            Some(found) => Some(found),
            None => spec_first_capable_forest(t, cs.drop_first(), parent),
        }
    }
}

/// Whether node `x` belongs to the subtree rooted at `i`.
pub open spec fn spec_in_subtree(t: Hierarchy, i: int, x: int) -> bool
    decreases t.nodes@.len() - i, 0int,
        when t.wf() && 0 <= i < t.nodes@.len()
{
    i == x || spec_in_forest(t, t.children_of(i), i, x)
}

/// Whether node `x` belongs to any subtree of the row `cs`.
pub open spec fn spec_in_forest(t: Hierarchy, cs: Seq<usize>, parent: int, x: int) -> bool
    decreases t.nodes@.len() - parent - 1, cs.len(),
        when t.wf() && roots_beyond(t, cs, parent)
{
    if cs.len() == 0 {
        false
    } else {
        spec_in_subtree(t, cs[0] as int, x) || spec_in_forest(t, cs.drop_first(), parent, x)
    }
}

/// The number of nodes of the subtree rooted at `i`, counting revisits of
/// shared children separately.  Only a termination measure for the search.
pub open spec fn spec_subtree_size(t: Hierarchy, i: int) -> nat
    decreases t.nodes@.len() - i, 0int,
        when t.wf() && 0 <= i < t.nodes@.len()
{
    1 + spec_forest_size(t, t.children_of(i), i)
}

/// The number of nodes over a row of subtrees.
pub open spec fn spec_forest_size(t: Hierarchy, cs: Seq<usize>, parent: int) -> nat
    decreases t.nodes@.len() - parent - 1, cs.len(),
        when t.wf() && roots_beyond(t, cs, parent)
{
    if cs.len() == 0 {
        0
    } else {
        spec_subtree_size(t, cs[0] as int) + spec_forest_size(t, cs.drop_first(), parent)
    }
}

proof fn lemma_drop_first_beyond(t: Hierarchy, cs: Seq<usize>, parent: int)
    requires
        roots_beyond(t, cs, parent),
        cs.len() > 0,
    ensures
        roots_beyond(t, cs.drop_first(), parent),
{
    assert forall|k: int| 0 <= k < cs.drop_first().len() implies parent < #[trigger] cs.drop_first()[k]
        < t.nodes@.len() by {
        assert(cs.drop_first()[k] == cs[k + 1]);
    }
}

/// The forest search does not depend on the lower bound chosen for its
/// roots; the bound only justifies termination.
proof fn lemma_forest_parent_irrelevant(t: Hierarchy, cs: Seq<usize>, p1: int, p2: int)
    requires
        t.wf(),
        roots_beyond(t, cs, p1),
        roots_beyond(t, cs, p2),
    ensures
        spec_first_capable_forest(t, cs, p1) == spec_first_capable_forest(t, cs, p2),
        spec_forest_size(t, cs, p1) == spec_forest_size(t, cs, p2),
    decreases cs.len(),
{
    if cs.len() > 0 {
        lemma_drop_first_beyond(t, cs, p1);
        lemma_drop_first_beyond(t, cs, p2);
        lemma_forest_parent_irrelevant(t, cs.drop_first(), p1, p2);
    }
}

/// Searching a concatenated row searches the left row first.
proof fn lemma_forest_append(t: Hierarchy, cs1: Seq<usize>, cs2: Seq<usize>, parent: int)
    requires
        t.wf(),
        roots_beyond(t, cs1, parent),
        roots_beyond(t, cs2, parent),
    ensures
        roots_beyond(t, cs1 + cs2, parent),
        spec_first_capable_forest(t, cs1 + cs2, parent) == match spec_first_capable_forest(
            t,
            cs1,
            parent,
        ) {
            Some(found) => Some(found),
            None => spec_first_capable_forest(t, cs2, parent),
        },
        spec_forest_size(t, cs1 + cs2, parent) == spec_forest_size(t, cs1, parent)
            + spec_forest_size(t, cs2, parent),
    decreases cs1.len(),
{
    assert(roots_beyond(t, cs1 + cs2, parent)) by {
        assert forall|k: int| 0 <= k < (cs1 + cs2).len() implies parent < #[trigger] (cs1 + cs2)[k]
            < t.nodes@.len() by {
            if k < cs1.len() {
                assert((cs1 + cs2)[k] == cs1[k]);
            } else {
                assert((cs1 + cs2)[k] == cs2[k - cs1.len()]);
            }
        }
    }
    if cs1.len() == 0 {
        assert(cs1 + cs2 =~= cs2);
    } else {
        assert((cs1 + cs2)[0] == cs1[0]);
        assert((cs1 + cs2).drop_first() =~= cs1.drop_first() + cs2);
        lemma_drop_first_beyond(t, cs1, parent);
        lemma_forest_append(t, cs1.drop_first(), cs2, parent);
    }
}

/// Every subtree counts at least its root.
proof fn lemma_subtree_size_pos(t: Hierarchy, i: int)
    requires
        t.wf(),
        0 <= i < t.nodes@.len(),
    ensures
        spec_subtree_size(t, i) >= 1,
{
}

proof fn lemma_reverse_push<A>(s: Seq<A>, x: A)
    ensures
        s.push(x).reverse() =~= seq![x] + s.reverse(),
{
    let l = s.push(x).reverse();
    let r = seq![x] + s.reverse();
    assert(l.len() == r.len());
    assert forall|i: int| 0 <= i < l.len() implies l[i] == r[i] by {
        assert(l[i] == s.push(x)[s.len() - i]);
        if i == 0 {
            assert(s.push(x)[s.len() as int] == x);
        } else {
            assert(r[i] == s.reverse()[i - 1]);
            assert(s.reverse()[i - 1] == s[s.len() - i]);
            assert(s.push(x)[s.len() - i] == s[s.len() - i]);
        }
    }
}

proof fn lemma_reverse_drop_last<A>(s: Seq<A>)
    requires
        s.len() > 0,
    ensures
        s.drop_last().reverse() =~= s.reverse().drop_first(),
        s.reverse()[0] == s.last(),
        s.reverse().len() == s.len(),
{
    let l = s.drop_last().reverse();
    let r = s.reverse().drop_first();
    assert(l.len() == r.len());
    assert forall|i: int| 0 <= i < l.len() implies l[i] == r[i] by {
        assert(l[i] == s.drop_last()[s.len() - 2 - i]);
        assert(r[i] == s.reverse()[i + 1]);
        assert(s.reverse()[i + 1] == s[s.len() - 2 - i]);
        assert(s.drop_last()[s.len() - 2 - i] == s[s.len() - 2 - i]);
    }
}

/// The runtime sub-entity that accepts animation-play commands: the first
/// capable node in depth-first preorder from `root`, or `None` when the
/// whole subtree carries none.  The walk keeps an explicit stack, so deeply
/// nested imported models cannot exhaust the call stack.
pub fn find_player_entity(t: &Hierarchy, root: usize) -> (r: Option<usize>)
    requires
        t.wf(),
        root < t.nodes@.len(),
    ensures
        match r {
            Some(found) => spec_first_capable(*t, root as int) == Some(found as int),
            None => spec_first_capable(*t, root as int) is None,
        },
{
    let ghost parent = root as int - 1;
    let mut stack: Vec<usize> = Vec::new();
    stack.push(root);
    proof {
        assert(stack@ =~= seq![root]);
        assert(stack@.reverse() =~= seq![root]);
        assert(seq![root].drop_first() =~= Seq::<usize>::empty());
        assert(spec_first_capable_forest(*t, Seq::<usize>::empty(), parent) is None);
        assert(spec_first_capable_forest(*t, stack@.reverse(), parent) == spec_first_capable(
            *t,
            root as int,
        ));
    }
    loop
        invariant
            t.wf(),
            root < t.nodes@.len(),
            parent == root as int - 1,
            roots_beyond(*t, stack@.reverse(), parent),
            spec_first_capable(*t, root as int) == spec_first_capable_forest(
                *t,
                stack@.reverse(),
                parent,
            ),
        decreases spec_forest_size(*t, stack@.reverse(), parent),
    {
        let ghost row = stack@.reverse();
        match stack.pop() {
            None => {
                proof {
                    assert(row =~= Seq::<usize>::empty());
                }
                return None;
            },
            Some(top) => {
                proof {
                    lemma_reverse_drop_last(row.reverse());
                    assert(row.reverse() =~= stack@.push(top));
                    lemma_reverse_push(stack@, top);
                    assert(row =~= seq![top] + stack@.reverse());
                    assert(row[0] == top);
                    assert(row.drop_first() =~= stack@.reverse());
                    lemma_drop_first_beyond(*t, row, parent);
                }
                if t.nodes[top].has_animation_player {
                    proof {
                        assert(spec_first_capable(*t, top as int) == Some(top as int));
                        assert(spec_first_capable_forest(*t, row, parent) == Some(top as int));
                    }
                    return Some(top);
                }
                proof {
                    assert(spec_first_capable(*t, top as int) == spec_first_capable_forest(
                        *t,
                        t.children_of(top as int),
                        top as int,
                    ));
                }
                // Push the children in reverse so the walk visits them in
                // declaration order.
                let ghost rest = row.drop_first();
                let node_children_len = t.nodes[top].children.len();
                let mut k = node_children_len;
                proof {
                    assert(t.children_of(top as int).subrange(
                        k as int,
                        node_children_len as int,
                    ) =~= Seq::<usize>::empty());
                    assert(stack@.reverse() =~= t.children_of(top as int).subrange(
                        k as int,
                        node_children_len as int,
                    ) + rest);
                }
                while k > 0
                    invariant
                        t.wf(),
                        top < t.nodes@.len(),
                        node_children_len == t.children_of(top as int).len(),
                        k <= node_children_len,
                        stack@.reverse() =~= t.children_of(top as int).subrange(
                            k as int,
                            node_children_len as int,
                        ) + rest,
                    decreases k,
                {
                    k = k - 1;
                    let child = t.nodes[top].children[k];
                    let ghost before = stack@;
                    stack.push(child);
                    proof {
                        lemma_reverse_push(before, child);
                        assert(t.children_of(top as int).subrange(
                            k as int,
                            node_children_len as int,
                        ) =~= seq![child] + t.children_of(top as int).subrange(
                            k + 1,
                            node_children_len as int,
                        ));
                        assert(stack@.reverse() =~= t.children_of(top as int).subrange(
                            k as int,
                            node_children_len as int,
                        ) + rest);
                    }
                }
                proof {
                    let children = t.children_of(top as int);
                    assert(children.subrange(0, node_children_len as int) =~= children);
                    assert(stack@.reverse() =~= children + rest);
                    assert(roots_beyond(*t, children, top as int));
                    assert(roots_beyond(*t, children, parent));
                    lemma_forest_append(*t, children, rest, parent);
                    lemma_forest_parent_irrelevant(*t, children, top as int, parent);
                    lemma_subtree_size_pos(*t, top as int);
                    assert(spec_forest_size(*t, row, parent) == spec_subtree_size(*t, top as int)
                        + spec_forest_size(*t, rest, parent));
                }
            },
        }
    }
}

/// A found node is capable and lies in the searched subtree.
pub proof fn lemma_find_sound(t: Hierarchy, i: int)
    requires
        t.wf(),
        0 <= i < t.nodes@.len(),
    ensures
        match spec_first_capable(t, i) {
            Some(found) => spec_in_subtree(t, i, found) && t.capable(found) && i <= found
                < t.nodes@.len(),
            None => true,
        },
    decreases t.nodes@.len() - i, 0int,
{
    if !t.capable(i) {
        lemma_find_sound_forest(t, t.children_of(i), i);
    }
}

proof fn lemma_find_sound_forest(t: Hierarchy, cs: Seq<usize>, parent: int)
    requires
        t.wf(),
        roots_beyond(t, cs, parent),
    ensures
        match spec_first_capable_forest(t, cs, parent) {
            Some(found) => spec_in_forest(t, cs, parent, found) && t.capable(found) && parent
                < found < t.nodes@.len(),
            None => true,
        },
    decreases t.nodes@.len() - parent - 1, cs.len(),
{
    if cs.len() > 0 {
        lemma_drop_first_beyond(t, cs, parent);
        lemma_find_sound(t, cs[0] as int);
        lemma_find_sound_forest(t, cs.drop_first(), parent);
    }
}

/// When some capable node lies in the subtree, the search finds one.
pub proof fn lemma_find_complete(t: Hierarchy, i: int, x: int)
    requires
        t.wf(),
        0 <= i < t.nodes@.len(),
        spec_in_subtree(t, i, x),
        t.capable(x),
    ensures
        spec_first_capable(t, i) is Some,
    decreases t.nodes@.len() - i, 0int,
{
    if i != x {
        lemma_find_complete_forest(t, t.children_of(i), i, x);
    }
}

proof fn lemma_find_complete_forest(t: Hierarchy, cs: Seq<usize>, parent: int, x: int)
    requires
        t.wf(),
        roots_beyond(t, cs, parent),
        spec_in_forest(t, cs, parent, x),
        t.capable(x),
    ensures
        spec_first_capable_forest(t, cs, parent) is Some,
    decreases t.nodes@.len() - parent - 1, cs.len(),
{
    assert(cs.len() > 0);
    lemma_drop_first_beyond(t, cs, parent);
    if spec_in_subtree(t, cs[0] as int, x) {
        lemma_find_complete(t, cs[0] as int, x);
    } else {
        lemma_find_complete_forest(t, cs.drop_first(), parent, x);
    }
}

/// Depth-first sub-entity resolution: when exactly one node of the subtree
/// is capable, the search returns that node, wherever its incapable
/// siblings stand and in whatever order they are declared.
pub proof fn lemma_unique_capable_is_found(t: Hierarchy, root: int, x: int)
    requires
        t.wf(),
        0 <= root < t.nodes@.len(),
        spec_in_subtree(t, root, x),
        t.capable(x),
        forall|y: int| spec_in_subtree(t, root, y) && t.capable(y) ==> y == x,
    ensures
        spec_first_capable(t, root) == Some(x),
{
    lemma_find_complete(t, root, x);
    lemma_find_sound(t, root);
}

} // verus!
