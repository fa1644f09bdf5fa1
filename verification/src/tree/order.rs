//! The shape of a forest and the order in which a breadth-first walk visits it.
//!
//! A forest of `n` nodes is described by its parent links alone: a sequence
//! of length `n` whose entry `i` is the parent of node `i`, if it has one.
//! Everything here is stated over that sequence.

use vstd::prelude::*;

verus! {

/// Handle of a node: its position in the arena. Handles are given out in
/// increasing order and stay valid for the life of the tree.
pub type NodeId = usize;

/// Every parent link points to a node that was created earlier. This rules out
/// cycles, and since a node has one link it has at most one parent.
pub open spec fn well_formed(parents: Seq<Option<NodeId>>) -> bool {
    &&& parents.len() <= usize::MAX
    &&& forall|i: int|
        0 <= i < parents.len() ==> (#[trigger] parents[i] matches Some(p) ==> p < i)
}

/// The children of `p` among the first `n` nodes, in the order of creation.
pub open spec fn children_among(parents: Seq<Option<NodeId>>, p: NodeId, n: nat) -> Seq<NodeId>
    decreases n,
{
    if n == 0 || n > parents.len() {
        Seq::empty()
    } else {
        let earlier = children_among(parents, p, (n - 1) as nat);
        if parents[n - 1] == Some(p) {
            earlier.push((n - 1) as usize)
        } else {
            earlier
        }
    }
}

/// The children of `p`, in the order of creation.
pub open spec fn children_of(parents: Seq<Option<NodeId>>, p: NodeId) -> Seq<NodeId> {
    children_among(parents, p, parents.len())
}

/// The children of each node of `nodes`, one list after the other.
pub open spec fn offspring(parents: Seq<Option<NodeId>>, nodes: Seq<NodeId>) -> Seq<NodeId>
    decreases nodes.len(),
{
    if nodes.len() == 0 {
        Seq::empty()
    } else {
        offspring(parents, nodes.drop_last()) + children_of(parents, nodes.last())
    }
}

/// The nodes at `depth` links below `start`: `start` itself at depth 0, then
/// the children of the level above, parent by parent.
pub open spec fn level(parents: Seq<Option<NodeId>>, start: NodeId, depth: nat) -> Seq<NodeId>
    decreases depth,
{
    if depth == 0 {
        seq![start]
    } else {
        offspring(parents, level(parents, start, (depth - 1) as nat))
    }
}

/// The levels above `depth`, one after the other, from `start` down.
pub open spec fn levels_before(
    parents: Seq<Option<NodeId>>,
    start: NodeId,
    depth: nat,
) -> Seq<NodeId>
    decreases depth,
{
    if depth == 0 {
        Seq::empty()
    } else {
        levels_before(parents, start, (depth - 1) as nat) + level(
            parents,
            start,
            (depth - 1) as nat,
        )
    }
}

/// The order of a breadth-first walk from `start`: `start` first, then level
/// after level, each in the order of creation under each parent. A handle that
/// names no node gives the empty walk.
pub open spec fn breadth_first(parents: Seq<Option<NodeId>>, start: NodeId) -> Seq<NodeId> {
    if start < parents.len() {
        levels_before(parents, start, parents.len())
    } else {
        Seq::empty()
    }
}

/// The node reached from `v` by following `steps` parent links, if the chain
/// is that long.
pub open spec fn ancestor(parents: Seq<Option<NodeId>>, v: NodeId, steps: nat) -> Option<NodeId>
    decreases steps,
{
    if steps == 0 {
        Some(v)
    } else if v < parents.len() {
        match parents[v as int] {
            Some(p) => ancestor(parents, p, (steps - 1) as nat),
            None => None,
        }
    } else {
        None
    }
}

/// `v` is `start` or lies below it.
pub open spec fn in_subtree(parents: Seq<Option<NodeId>>, start: NodeId, v: NodeId) -> bool {
    exists|steps: nat| ancestor(parents, v, steps) == Some(start)
}

/// The node at position `i` of `order` has its parent at an earlier position.
pub open spec fn after_parent(parents: Seq<Option<NodeId>>, order: Seq<NodeId>, i: int) -> bool {
    &&& order[i] < parents.len()
    &&& exists|j: int| 0 <= j < i && parents[order[i] as int] == Some(#[trigger] order[j])
}

/// Every node of `order` but the first comes after its parent.
pub open spec fn parents_first(parents: Seq<Option<NodeId>>, order: Seq<NodeId>) -> bool {
    forall|i: int| 0 < i < order.len() ==> after_parent(parents, order, i)
}

// ---------------------------------------------------------------------------
// Children
// ---------------------------------------------------------------------------

/// A child comes after its parent, so among the first `n` nodes only those
/// before the last can have children.
proof fn lemma_children_among_bound(parents: Seq<Option<NodeId>>, p: NodeId, n: nat)
    requires
        well_formed(parents),
        n <= parents.len(),
    ensures
        forall|k: int|
            0 <= k < children_among(parents, p, n).len() ==> p < #[trigger] children_among(
                parents,
                p,
                n,
            )[k] < n,
    decreases n,
{
    if n > 0 {
        lemma_children_among_bound(parents, p, (n - 1) as nat);
        let earlier = children_among(parents, p, (n - 1) as nat);
        let all = children_among(parents, p, n);
        assert forall|k: int| 0 <= k < all.len() implies p < #[trigger] all[k] < n by {
            if k < earlier.len() {
                assert(all[k] == earlier[k]);
            } else {
                assert(parents[n - 1] == Some(p));
                assert(all[k] == (n - 1) as usize);
            }
        }
    }
}

/// A handle that names no node yet, or the newest node, has no children.
pub proof fn lemma_no_children_yet(parents: Seq<Option<NodeId>>, p: NodeId)
    requires
        well_formed(parents),
        p >= parents.len(),
    ensures
        children_of(parents, p) == Seq::<NodeId>::empty(),
{
    lemma_children_among_bound(parents, p, parents.len());
    if children_of(parents, p).len() > 0 {
        assert(p < children_of(parents, p)[0] < parents.len());
    }
    assert(children_of(parents, p) =~= Seq::<NodeId>::empty());
}

/// Adding a node leaves the children among the nodes before it as they were.
proof fn lemma_children_among_push(
    parents: Seq<Option<NodeId>>,
    link: Option<NodeId>,
    p: NodeId,
    n: nat,
)
    requires
        n <= parents.len(),
    ensures
        children_among(parents.push(link), p, n) == children_among(parents, p, n),
    decreases n,
{
    if n > 0 {
        lemma_children_among_push(parents, link, p, (n - 1) as nat);
        assert(parents.push(link)[n - 1] == parents[n - 1]);
    }
}

/// What a new node does to the children lists: it is appended to its parent's
/// list, and every other list stays as it was.
pub proof fn lemma_children_of_push(parents: Seq<Option<NodeId>>, link: Option<NodeId>, p: NodeId)
    requires
        parents.len() < usize::MAX,
    ensures
        children_of(parents.push(link), p) == if link == Some(p) {
            children_of(parents, p).push(parents.len() as usize)
        } else {
            children_of(parents, p)
        },
{
    lemma_children_among_push(parents, link, p, parents.len());
    assert(parents.push(link)[parents.len() as int] == link);
}

/// Membership in a child list: `x` is a child of `p` among the first `n` nodes
/// exactly if it is one of them and names `p` as its parent.
proof fn lemma_children_among_contains(
    parents: Seq<Option<NodeId>>,
    p: NodeId,
    n: nat,
    x: NodeId,
)
    requires
        well_formed(parents),
        n <= parents.len(),
    ensures
        children_among(parents, p, n).contains(x) <==> (x < n && parents[x as int] == Some(p)),
    decreases n,
{
    let all = children_among(parents, p, n);
    if n > 0 {
        let earlier = children_among(parents, p, (n - 1) as nat);
        lemma_children_among_contains(parents, p, (n - 1) as nat, x);
        if parents[n - 1] == Some(p) {
            if all.contains(x) {
                let i = choose|i: int| 0 <= i < all.len() && all[i] == x;
                if i < earlier.len() {
                    assert(earlier[i] == x);
                }
            }
            if x < n && parents[x as int] == Some(p) {
                if x == n - 1 {
                    assert(all[earlier.len() as int] == x);
                } else {
                    let i = choose|i: int| 0 <= i < earlier.len() && earlier[i] == x;
                    assert(all[i] == x);
                }
            }
        }
    }
}

/// A child list is strictly increasing, so no node occurs in it twice.
proof fn lemma_children_among_increasing(parents: Seq<Option<NodeId>>, p: NodeId, n: nat)
    requires
        well_formed(parents),
        n <= parents.len(),
    ensures
        forall|i: int, j: int|
            0 <= i < j < children_among(parents, p, n).len() ==> children_among(parents, p, n)[i]
                < children_among(parents, p, n)[j],
        children_among(parents, p, n).no_duplicates(),
    decreases n,
{
    if n > 0 {
        lemma_children_among_increasing(parents, p, (n - 1) as nat);
        lemma_children_among_bound(parents, p, (n - 1) as nat);
    }
}

// ---------------------------------------------------------------------------
// Levels
// ---------------------------------------------------------------------------

/// A node is in the concatenation of two sequences exactly if it is in one of
/// them.
proof fn lemma_concat_contains(a: Seq<NodeId>, b: Seq<NodeId>, x: NodeId)
    ensures
        (a + b).contains(x) <==> (a.contains(x) || b.contains(x)),
{
    if (a + b).contains(x) {
        let i = choose|i: int| 0 <= i < (a + b).len() && (a + b)[i] == x;
        if i < a.len() {
            assert(a[i] == x);
        } else {
            assert(b[i - a.len()] == x);
        }
    }
    if a.contains(x) {
        let i = choose|i: int| 0 <= i < a.len() && a[i] == x;
        assert((a + b)[i] == x);
    }
    if b.contains(x) {
        let i = choose|i: int| 0 <= i < b.len() && b[i] == x;
        assert((a + b)[a.len() + i] == x);
    }
}

/// Membership in the offspring: `x` is in it exactly if its parent is among
/// `nodes`.
proof fn lemma_offspring_contains(
    parents: Seq<Option<NodeId>>,
    nodes: Seq<NodeId>,
    x: NodeId,
)
    requires
        well_formed(parents),
    ensures
        offspring(parents, nodes).contains(x) <==> (x < parents.len() && (
        parents[x as int] matches Some(p) && nodes.contains(p))),
    decreases nodes.len(),
{
    if nodes.len() > 0 {
        let front = nodes.drop_last();
        let last = nodes.last();
        lemma_offspring_contains(parents, front, x);
        lemma_children_among_contains(parents, last, parents.len(), x);
        lemma_concat_contains(offspring(parents, front), children_of(parents, last), x);
        if x < parents.len() {
            if let Some(p) = parents[x as int] {
                if nodes.contains(p) {
                    let i = choose|i: int| 0 <= i < nodes.len() && nodes[i] == p;
                    if i < front.len() {
                        assert(front[i] == p);
                    }
                }
                if front.contains(p) {
                    let i = choose|i: int| 0 <= i < front.len() && front[i] == p;
                    assert(nodes[i] == p);
                }
                if p == last {
                    assert(nodes[nodes.len() - 1] == p);
                }
            }
        }
    }
}

/// The offspring of distinct nodes are distinct.
proof fn lemma_offspring_no_duplicates(parents: Seq<Option<NodeId>>, nodes: Seq<NodeId>)
    requires
        well_formed(parents),
        nodes.no_duplicates(),
    ensures
        offspring(parents, nodes).no_duplicates(),
    decreases nodes.len(),
{
    if nodes.len() > 0 {
        let front = nodes.drop_last();
        let last = nodes.last();
        let a = offspring(parents, front);
        let b = children_of(parents, last);
        lemma_offspring_no_duplicates(parents, front);
        lemma_children_among_increasing(parents, last, parents.len());
        assert forall|i: int, j: int| 0 <= i < a.len() && 0 <= j < b.len() implies a[i] != b[j] by {
            if a[i] == b[j] {
                let x = a[i];
                assert(a.contains(x));
                assert(b.contains(x));
                lemma_offspring_contains(parents, front, x);
                lemma_children_among_contains(parents, last, parents.len(), x);
                let k = choose|k: int| 0 <= k < front.len() && front[k] == last;
                assert(nodes[k] == nodes[nodes.len() - 1]);
            }
        }
        vstd::seq_lib::lemma_no_dup_in_concat(a, b);
    }
}

/// Every parent link leads to a smaller handle: the node `steps` links above
/// `x` lies at least `steps` below it in the arena.
proof fn lemma_ancestor_below(parents: Seq<Option<NodeId>>, x: NodeId, steps: nat)
    requires
        well_formed(parents),
    ensures
        ancestor(parents, x, steps) matches Some(a) ==> a + steps <= x,
    decreases steps,
{
    if steps > 0 && x < parents.len() {
        if let Some(p) = parents[x as int] {
            lemma_ancestor_below(parents, p, (steps - 1) as nat);
        }
    }
}

/// Following `a` links and then `b` links is following `a + b` links.
proof fn lemma_ancestor_add(parents: Seq<Option<NodeId>>, x: NodeId, a: nat, b: nat)
    ensures
        ancestor(parents, x, a + b) == match ancestor(parents, x, a) {
            Some(y) => ancestor(parents, y, b),
            None => None,
        },
    decreases a,
{
    if a > 0 && x < parents.len() {
        if let Some(p) = parents[x as int] {
            lemma_ancestor_add(parents, p, (a - 1) as nat, b);
            assert((a - 1) as nat + b == (a + b - 1) as nat);
        }
    }
}

/// Membership in a level: `x` is at `depth` below `start` exactly if `depth`
/// parent links lead from `x` to `start`.
proof fn lemma_level_contains(
    parents: Seq<Option<NodeId>>,
    start: NodeId,
    depth: nat,
    x: NodeId,
)
    requires
        well_formed(parents),
    ensures
        level(parents, start, depth).contains(x) <==> ancestor(parents, x, depth) == Some(start),
    decreases depth,
{
    if depth == 0 {
        if x == start {
            assert(seq![start][0] == x);
        }
    } else {
        let above = level(parents, start, (depth - 1) as nat);
        lemma_offspring_contains(parents, above, x);
        if x < parents.len() {
            if let Some(p) = parents[x as int] {
                lemma_level_contains(parents, start, (depth - 1) as nat, p);
            }
        }
    }
}

/// No node occurs twice in a level.
proof fn lemma_level_no_duplicates(parents: Seq<Option<NodeId>>, start: NodeId, depth: nat)
    requires
        well_formed(parents),
    ensures
        level(parents, start, depth).no_duplicates(),
    decreases depth,
{
    if depth > 0 {
        lemma_level_no_duplicates(parents, start, (depth - 1) as nat);
        lemma_offspring_no_duplicates(parents, level(parents, start, (depth - 1) as nat));
    }
}

/// A node lies on one level only.
proof fn lemma_levels_disjoint(
    parents: Seq<Option<NodeId>>,
    start: NodeId,
    upper: nat,
    lower: nat,
    x: NodeId,
)
    requires
        well_formed(parents),
        upper < lower,
    ensures
        !(level(parents, start, upper).contains(x) && level(parents, start, lower).contains(x)),
{
    lemma_level_contains(parents, start, upper, x);
    lemma_level_contains(parents, start, lower, x);
    if ancestor(parents, x, upper) == Some(start) && ancestor(parents, x, lower) == Some(start) {
        lemma_ancestor_add(parents, x, upper, (lower - upper) as nat);
        lemma_ancestor_below(parents, start, (lower - upper) as nat);
    }
}

/// Every node of a level is a node of the tree, and a level that holds a node
/// is less deep than the tree is large.
pub proof fn lemma_level_bound(parents: Seq<Option<NodeId>>, start: NodeId, depth: nat)
    requires
        well_formed(parents),
        start < parents.len(),
    ensures
        forall|i: int|
            0 <= i < level(parents, start, depth).len() ==> start + depth <= #[trigger] level(
                parents,
                start,
                depth,
            )[i] < parents.len(),
        level(parents, start, depth).len() > 0 ==> start + depth < parents.len(),
{
    let nodes = level(parents, start, depth);
    assert forall|i: int| 0 <= i < nodes.len() implies start + depth <= #[trigger] nodes[i]
        < parents.len() by {
        let x = nodes[i];
        assert(nodes.contains(x));
        lemma_level_contains(parents, start, depth, x);
        lemma_ancestor_below(parents, x, depth);
        if depth > 0 {
            lemma_offspring_contains(parents, level(parents, start, (depth - 1) as nat), x);
        }
    }
    if nodes.len() > 0 {
        assert(start + depth <= nodes[0] < parents.len());
    }
}

/// Below an empty level every level is empty, so the walk has ended there.
pub proof fn lemma_levels_end(
    parents: Seq<Option<NodeId>>,
    start: NodeId,
    depth: nat,
    later: nat,
)
    requires
        level(parents, start, depth).len() == 0,
        depth <= later,
    ensures
        level(parents, start, later).len() == 0,
        levels_before(parents, start, later) == levels_before(parents, start, depth),
    decreases later,
{
    if depth < later {
        lemma_levels_end(parents, start, depth, (later - 1) as nat);
        assert(levels_before(parents, start, later) =~= levels_before(parents, start, depth));
    }
}

/// Membership in the levels above `depth`.
proof fn lemma_levels_before_contains(
    parents: Seq<Option<NodeId>>,
    start: NodeId,
    depth: nat,
    x: NodeId,
)
    requires
        well_formed(parents),
    ensures
        levels_before(parents, start, depth).contains(x) <==> exists|d: nat|
            d < depth && ancestor(parents, x, d) == Some(start),
    decreases depth,
{
    if depth > 0 {
        let above = (depth - 1) as nat;
        lemma_levels_before_contains(parents, start, above, x);
        lemma_level_contains(parents, start, above, x);
        lemma_concat_contains(
            levels_before(parents, start, above),
            level(parents, start, above),
            x,
        );
        if levels_before(parents, start, above).contains(x) {
            let d = choose|d: nat| d < above && ancestor(parents, x, d) == Some(start);
            assert(d < depth && ancestor(parents, x, d) == Some(start));
        }
        if ancestor(parents, x, above) == Some(start) {
            assert(above < depth && ancestor(parents, x, above) == Some(start));
        }
        if exists|d: nat| d < depth && ancestor(parents, x, d) == Some(start) {
            let d = choose|d: nat| d < depth && ancestor(parents, x, d) == Some(start);
            if d < above {
                assert(d < above && ancestor(parents, x, d) == Some(start));
            }
        }
    }
}

/// No node occurs twice in the levels above `depth`.
proof fn lemma_levels_before_no_duplicates(
    parents: Seq<Option<NodeId>>,
    start: NodeId,
    depth: nat,
)
    requires
        well_formed(parents),
    ensures
        levels_before(parents, start, depth).no_duplicates(),
    decreases depth,
{
    if depth > 0 {
        let above = (depth - 1) as nat;
        let a = levels_before(parents, start, above);
        let b = level(parents, start, above);
        lemma_levels_before_no_duplicates(parents, start, above);
        lemma_level_no_duplicates(parents, start, above);
        assert forall|i: int, j: int| 0 <= i < a.len() && 0 <= j < b.len() implies a[i] != b[j] by {
            if a[i] == b[j] {
                let x = a[i];
                assert(a.contains(x));
                assert(b.contains(x));
                lemma_levels_before_contains(parents, start, above, x);
                let d = choose|d: nat| d < above && ancestor(parents, x, d) == Some(start);
                lemma_level_contains(parents, start, d, x);
                lemma_levels_disjoint(parents, start, d, above, x);
            }
        }
        vstd::seq_lib::lemma_no_dup_in_concat(a, b);
    }
}

/// The levels begin with `start`.
proof fn lemma_levels_before_starts(parents: Seq<Option<NodeId>>, start: NodeId, depth: nat)
    requires
        depth > 0,
    ensures
        levels_before(parents, start, depth).len() > 0,
        levels_before(parents, start, depth)[0] == start,
    decreases depth,
{
    if depth > 1 {
        lemma_levels_before_starts(parents, start, (depth - 1) as nat);
    } else {
        assert(levels_before(parents, start, 0).len() == 0);
        assert(level(parents, start, 0) == seq![start]);
    }
}

/// Among the levels, every node but the first comes after its parent: the
/// parent lies on the level above, which comes earlier.
proof fn lemma_levels_before_parent_first(
    parents: Seq<Option<NodeId>>,
    start: NodeId,
    depth: nat,
    i: int,
)
    requires
        well_formed(parents),
        0 < i < levels_before(parents, start, depth).len(),
    ensures
        after_parent(parents, levels_before(parents, start, depth), i),
    decreases depth,
{
    let above = (depth - 1) as nat;
    let a = levels_before(parents, start, above);
    let b = level(parents, start, above);
    let all = levels_before(parents, start, depth);
    assert(all == a + b);
    if i < a.len() {
        lemma_levels_before_parent_first(parents, start, above, i);
        let j = choose|j: int| 0 <= j < i && parents[a[i] as int] == Some(#[trigger] a[j]);
        assert(all[j] == a[j]);
    } else {
        let x = b[i - a.len()];
        assert(b.contains(x));
        assert(above > 0);
        let higher = (above - 1) as nat;
        let c = level(parents, start, higher);
        lemma_offspring_contains(parents, c, x);
        let p = parents[x as int]->Some_0;
        let k = choose|k: int| 0 <= k < c.len() && c[k] == p;
        let j = levels_before(parents, start, higher).len() + k;
        assert(a == levels_before(parents, start, higher) + c);
        assert(a[j] == p);
        assert(all[j] == p);
    }
}

// ---------------------------------------------------------------------------
// The breadth-first walk
// ---------------------------------------------------------------------------

/// The walk begins at `start`.
pub proof fn lemma_breadth_first_starts(parents: Seq<Option<NodeId>>, start: NodeId)
    requires
        start < parents.len(),
    ensures
        breadth_first(parents, start).len() > 0,
        breadth_first(parents, start)[0] == start,
{
    lemma_levels_before_starts(parents, start, parents.len());
}

/// The walk visits no node twice.
pub proof fn lemma_breadth_first_no_duplicates(parents: Seq<Option<NodeId>>, start: NodeId)
    requires
        well_formed(parents),
    ensures
        breadth_first(parents, start).no_duplicates(),
{
    lemma_levels_before_no_duplicates(parents, start, parents.len());
}

/// The walk visits `start` and the nodes below it, and no others.
pub proof fn lemma_breadth_first_contains(parents: Seq<Option<NodeId>>, start: NodeId, x: NodeId)
    requires
        well_formed(parents),
        start < parents.len(),
    ensures
        breadth_first(parents, start).contains(x) <==> in_subtree(parents, start, x),
        breadth_first(parents, start).contains(x) ==> start <= x < parents.len(),
{
    lemma_levels_before_contains(parents, start, parents.len(), x);
    if in_subtree(parents, start, x) {
        let steps = choose|steps: nat| ancestor(parents, x, steps) == Some(start);
        lemma_level_contains(parents, start, steps, x);
        lemma_level_bound(parents, start, steps);
        assert(steps < parents.len() && ancestor(parents, x, steps) == Some(start));
    }
    if breadth_first(parents, start).contains(x) {
        let d = choose|d: nat| d < parents.len() && ancestor(parents, x, d) == Some(start);
        lemma_level_contains(parents, start, d, x);
        lemma_level_bound(parents, start, d);
        let i = choose|i: int|
            0 <= i < level(parents, start, d).len() && level(parents, start, d)[i] == x;
        assert(start + d <= level(parents, start, d)[i] < parents.len());
    }
}

/// Every node but the first is visited after its parent.
pub proof fn lemma_breadth_first_parents_first(parents: Seq<Option<NodeId>>, start: NodeId)
    requires
        well_formed(parents),
    ensures
        parents_first(parents, breadth_first(parents, start)),
{
    let order = breadth_first(parents, start);
    assert forall|i: int| 0 < i < order.len() implies after_parent(parents, order, i) by {
        lemma_levels_before_parent_first(parents, start, parents.len(), i);
    }
}

/// Where the first node is the only one without a parent, every node lies
/// below it.
proof fn lemma_all_below_root(parents: Seq<Option<NodeId>>, x: NodeId)
    requires
        well_formed(parents),
        x < parents.len(),
        forall|i: int| 0 < i < parents.len() ==> (#[trigger] parents[i]) is Some,
    ensures
        in_subtree(parents, 0, x),
    decreases x,
{
    if x == 0 {
        assert(ancestor(parents, x, 0) == Some(0usize));
    } else {
        let p = parents[x as int]->Some_0;
        lemma_all_below_root(parents, p);
        let steps = choose|steps: nat| ancestor(parents, p, steps) == Some(0usize);
        assert(ancestor(parents, x, steps + 1) == Some(0usize));
    }
}

/// A walk that visits each of `count` nodes, none twice and no others, has
/// `count` steps.
proof fn lemma_covering_walk_length(order: Seq<NodeId>, count: nat)
    requires
        count <= usize::MAX,
        order.no_duplicates(),
        forall|i: int| 0 <= i < order.len() ==> order[i] < count,
        forall|x: NodeId| x < count ==> order.contains(x),
    ensures
        order.len() == count,
{
    let handles = order.map_values(|x: NodeId| x as int);
    assert(handles.no_duplicates()) by {
        assert forall|i: int, j: int|
            0 <= i < handles.len() && 0 <= j < handles.len() && i != j implies handles[i]
            != handles[j] by {
            assert(order[i] != order[j]);
        }
    }
    handles.unique_seq_to_set();
    vstd::set_lib::lemma_int_range(0, count as int);
    assert(handles.to_set() =~= vstd::set_lib::set_int_range(0, count as int)) by {
        assert forall|v: int| 0 <= v < count implies handles.to_set().contains(v) by {
            let x = v as usize;
            assert(order.contains(x));
            let i = choose|i: int| 0 <= i < order.len() && order[i] == x;
            assert(handles[i] == v);
        }
        assert forall|v: int| handles.to_set().contains(v) implies 0 <= v < count by {
            let i = choose|i: int| 0 <= i < handles.len() && handles[i] == v;
            assert(order[i] < count);
        }
    }
}

/// In a tree, where the first node is the only one without a parent, the walk
/// from it visits every node, each once, and each after its parent.
pub proof fn lemma_breadth_first_of_tree(parents: Seq<Option<NodeId>>)
    requires
        well_formed(parents),
        parents.len() > 0,
        forall|i: int| 0 < i < parents.len() ==> (#[trigger] parents[i]) is Some,
    ensures
        breadth_first(parents, 0).len() == parents.len(),
        breadth_first(parents, 0).no_duplicates(),
        forall|x: NodeId| x < parents.len() ==> breadth_first(parents, 0).contains(x),
        parents_first(parents, breadth_first(parents, 0)),
{
    let order = breadth_first(parents, 0);
    lemma_breadth_first_no_duplicates(parents, 0);
    assert forall|x: NodeId| x < parents.len() implies order.contains(x) by {
        lemma_all_below_root(parents, x);
        lemma_breadth_first_contains(parents, 0, x);
    }
    assert forall|i: int| 0 <= i < order.len() implies order[i] < parents.len() by {
        assert(order.contains(order[i]));
        lemma_breadth_first_contains(parents, 0, order[i]);
    }
    lemma_covering_walk_length(order, parents.len());
    lemma_breadth_first_parents_first(parents, 0);
}

} // verus!
