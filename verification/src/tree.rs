//! A forest of nodes in a dense arena.
//!
//! Each node owns a payload and knows its parent and its children by index.
//! A node is created with its parent already in place, so the parent links can
//! never form a cycle and no node is shared between two parents.

pub mod order;

use vstd::prelude::*;
use crate::tree::order::{
    breadth_first, children_of, in_subtree, lemma_breadth_first_contains,
    lemma_breadth_first_no_duplicates, lemma_breadth_first_parents_first, lemma_children_of_push,
    lemma_level_bound, lemma_levels_end, lemma_no_children_yet, level, levels_before, offspring,
    parents_first, well_formed, NodeId,
};

verus! {

/// Why the tree refused an operation.
#[derive(Clone, Copy, Debug, PartialEq, Eq, Structural)]
pub enum GraphError {
    /// The parent handle does not name a node of this tree.
    DanglingParent,
}

/// The links of one node: up to its parent, down to its children.
struct Link {
    parent: Option<NodeId>,
    children: Vec<NodeId>,
}

/// A forest: nodes with payloads of type `T`, addressed by [`NodeId`].
///
/// The payloads and the link table are kept side by side, one entry per node.
pub struct Tree<T> {
    payloads: Vec<T>,
    links: Vec<Link>,
}

impl<T> Tree<T> {
    /// The parent link of every node, by handle.
    pub closed spec fn parents(&self) -> Seq<Option<NodeId>> {
        Seq::new(self.links@.len(), |i: int| self.links@[i].parent)
    }

    /// The payload of every node, by handle.
    pub closed spec fn payloads(&self) -> Seq<T> {
        self.payloads@
    }

    /// There is one payload per node, the links are well formed, and each
    /// node's child list is exactly the list of nodes that name it as parent,
    /// in the order of creation.
    #[verifier::type_invariant]
    pub closed spec fn inv(&self) -> bool {
        &&& self.payloads@.len() == self.links@.len()
        &&& well_formed(self.parents())
        &&& forall|p: int|
            0 <= p < self.links@.len() ==> (#[trigger] self.links@[p]).children@ == children_of(
                self.parents(),
                p as usize,
            )
    }

    /// An empty forest.
    pub fn new() -> (tree: Self)
        ensures
            tree.parents() == Seq::<Option<NodeId>>::empty(),
            tree.payloads() == Seq::<T>::empty(),
    {
        let tree = Tree { payloads: Vec::new(), links: Vec::new() };
        assert(tree.parents() =~= Seq::<Option<NodeId>>::empty());
        tree
    }

    /// The number of nodes. Every parent link among them points to a node
    /// that was created earlier.
    pub fn len(&self) -> (n: usize)
        ensures
            n == self.parents().len(),
            n == self.payloads().len(),
            well_formed(self.parents()),
    {
        proof {
            use_type_invariant(self);
        }
        self.links.len()
    }

    /// Whether `id` names a node of this tree.
    pub fn contains(&self, id: NodeId) -> (known: bool)
        ensures
            known == (id < self.parents().len()),
    {
        id < self.links.len()
    }

    /// The parent of `id`; `None` for a root and for a handle that names no node.
    pub fn parent(&self, id: NodeId) -> (parent: Option<NodeId>)
        ensures
            parent == if id < self.parents().len() {
                self.parents()[id as int]
            } else {
                None
            },
            parent matches Some(p) ==> p < id,
    {
        proof {
            use_type_invariant(self);
        }
        if id < self.links.len() {
            self.links[id].parent
        } else {
            None
        }
    }

    /// The children of `id` in the order of their creation; `None` for a handle
    /// that names no node.
    pub fn children(&self, id: NodeId) -> (children: Option<&Vec<NodeId>>)
        ensures
            children is Some <==> id < self.parents().len(),
            children matches Some(c) ==> c@ == children_of(self.parents(), id),
    {
        proof {
            use_type_invariant(self);
        }
        if id < self.links.len() {
            Some(&self.links[id].children)
        } else {
            None
        }
    }

    /// The payload of `id`; `None` for a handle that names no node.
    pub fn data(&self, id: NodeId) -> (data: Option<&T>)
        ensures
            data == if id < self.payloads().len() {
                Some(&self.payloads()[id as int])
            } else {
                None
            },
    {
        if id < self.payloads.len() {
            Some(&self.payloads[id])
        } else {
            None
        }
    }

    /// Mutable access to the payload of `id`; `None` for a handle that names no
    /// node. The links stay as they are, and so do the other payloads.
    pub fn data_mut(&mut self, id: NodeId) -> (data: Option<&mut T>)
        ensures
            final(self).parents() == old(self).parents(),
            match data {
                Some(data) => {
                    &&& id < old(self).payloads().len()
                    &&& *data == old(self).payloads()[id as int]
                    &&& final(self).payloads() == old(self).payloads().update(
                        id as int,
                        *final(data),
                    )
                },
                None => {
                    &&& id >= old(self).payloads().len()
                    &&& final(self).payloads() == old(self).payloads()
                },
            },
    {
        proof {
            use_type_invariant(&*self);
        }
        if id < self.payloads.len() {
            Some(&mut self.payloads[id])
        } else {
            None
        }
    }

    /// Creates a node that owns `data`. With a parent, the node is appended to
    /// the parent's children. A parent that is not in the tree is refused and
    /// the tree stays as it was.
    pub fn create(&mut self, data: T, parent: Option<NodeId>) -> (res: Result<NodeId, GraphError>)
        ensures
            match res {
                Ok(id) => {
                    &&& id == old(self).parents().len()
                    &&& final(self).parents() == old(self).parents().push(parent)
                    &&& final(self).payloads() == old(self).payloads().push(data)
                },
                Err(e) => {
                    &&& e == GraphError::DanglingParent
                    &&& final(self).parents() == old(self).parents()
                    &&& final(self).payloads() == old(self).payloads()
                },
            },
            res is Err <==> (parent matches Some(p) && p >= old(self).parents().len()),
    {
        proof {
            use_type_invariant(&*self);
        }
        let id = self.links.len();
        if let Some(p) = parent {
            if p >= id {
                return Err(GraphError::DanglingParent);
            }
        }
        let ghost before = self.parents();
        let ghost earlier = self.links@;
        let mut taken = Tree::new();
        std::mem::swap(self, &mut taken);
        let Tree { mut payloads, mut links } = taken;
        payloads.push(data);
        links.push(Link { parent, children: Vec::new() });
        if let Some(p) = parent {
            links[p].children.push(id);
        }
        let count = links.len();
        proof {
            let after = Seq::new(links@.len(), |i: int| links@[i].parent);
            assert(after =~= before.push(parent));
            assert(count == before.len() + 1);
            assert forall|q: int| 0 <= q < links@.len() implies (#[trigger] links@[q]).children@
                == children_of(after, q as usize) by {
                lemma_children_of_push(before, parent, q as usize);
                if q < id {
                    assert(earlier[q].children@ == children_of(before, q as usize));
                } else {
                    lemma_no_children_yet(before, q as usize);
                }
            }
        }
        *self = Tree { payloads, links };
        Ok(id)
    }

    /// The nodes at and below `start` in breadth-first order: `start` first,
    /// then level after level, the children of each node in the order of their
    /// creation. A handle that names no node gives an empty walk.
    pub fn traverse_breadth_first(&self, start: NodeId) -> (order: Vec<NodeId>)
        ensures
            order@ == breadth_first(self.parents(), start),
            well_formed(self.parents()),
            order@.no_duplicates(),
            parents_first(self.parents(), order@),
            forall|node: NodeId|
                order@.contains(node) <==> start < self.parents().len() && in_subtree(
                    self.parents(),
                    start,
                    node,
                ),
    {
        proof {
            use_type_invariant(self);
            lemma_breadth_first_no_duplicates(self.parents(), start);
            lemma_breadth_first_parents_first(self.parents(), start);
            if start < self.parents().len() {
                assert forall|node: NodeId|
                    breadth_first(self.parents(), start).contains(node) <==> in_subtree(
                        self.parents(),
                        start,
                        node,
                    ) by {
                    lemma_breadth_first_contains(self.parents(), start, node);
                }
            }
        }
        let mut order: Vec<NodeId> = Vec::new();
        let count = self.links.len();
        if start >= count {
            return order;
        }
        let ghost parents = self.parents();
        let mut current: Vec<NodeId> = Vec::new();
        current.push(start);
        let mut depth: usize = 0;
        while current.len() > 0
            invariant
                self.inv(),
                parents == self.parents(),
                count == self.links@.len(),
                start < count,
                depth <= count,
                order@ == levels_before(parents, start, depth as nat),
                current@ == level(parents, start, depth as nat),
            decreases count - depth,
        {
            proof {
                lemma_level_bound(parents, start, depth as nat);
            }
            let mut next: Vec<NodeId> = Vec::new();
            let mut i: usize = 0;
            while i < current.len()
                invariant
                    self.inv(),
                    parents == self.parents(),
                    count == self.links@.len(),
                    i <= current.len(),
                    forall|k: int| 0 <= k < current@.len() ==> #[trigger] current@[k] < count,
                    next@ == offspring(parents, current@.take(i as int)),
                    order@ == levels_before(parents, start, depth as nat) + current@.take(
                        i as int,
                    ),
                decreases current.len() - i,
            {
                let node = current[i];
                let kids = &self.links[node].children;
                let mut j: usize = 0;
                while j < kids.len()
                    invariant
                        j <= kids.len(),
                        next@ == offspring(parents, current@.take(i as int)) + kids@.take(j as int),
                    decreases kids.len() - j,
                {
                    next.push(kids[j]);
                    proof {
                        assert(kids@.take(j + 1) =~= kids@.take(j as int).push(kids@[j as int]));
                    }
                    j += 1;
                }
                order.push(node);
                proof {
                    assert(kids@.take(kids@.len() as int) =~= kids@);
                    assert(current@.take(i + 1).drop_last() =~= current@.take(i as int));
                    assert(current@.take(i + 1) =~= current@.take(i as int).push(node));
                }
                i += 1;
            }
            proof {
                assert(current@.take(current@.len() as int) =~= current@);
            }
            current = next;
            depth += 1;
        }
        proof {
            lemma_levels_end(parents, start, depth as nat, count as nat);
        }
        order
    }
}

/// A breadth-first walk in progress. The order of the walk is fixed when the
/// walk is made; each node of it is handed out once, and a walk that has
/// ended stays ended.
pub struct BreadthFirstIterator {
    order: Vec<NodeId>,
    position: usize,
}

impl BreadthFirstIterator {
    /// The nodes that the walk has yet to visit, next first.
    pub closed spec fn remaining(&self) -> Seq<NodeId> {
        self.order@.subrange(self.position as int, self.order@.len() as int)
    }

    /// The walk has not gone past its end.
    #[verifier::type_invariant]
    pub closed spec fn inv(&self) -> bool {
        self.position <= self.order@.len()
    }

    /// A walk over the nodes at and below `start`, as the tree stands now.
    pub fn new<T>(tree: &Tree<T>, start: NodeId) -> (walk: Self)
        ensures
            walk.remaining() == breadth_first(tree.parents(), start),
    {
        let order = tree.traverse_breadth_first(start);
        let walk = BreadthFirstIterator { order, position: 0 };
        assert(walk.remaining() =~= breadth_first(tree.parents(), start));
        walk
    }

    /// Hands out the next node of the walk; `None` once the walk has ended.
    pub fn next(&mut self) -> (node: Option<NodeId>)
        ensures
            match node {
                Some(node) => {
                    &&& old(self).remaining().len() > 0
                    &&& node == old(self).remaining()[0]
                    &&& final(self).remaining() == old(self).remaining().skip(1)
                },
                None => {
                    &&& old(self).remaining().len() == 0
                    &&& final(self).remaining() == old(self).remaining()
                },
            },
    {
        proof {
            use_type_invariant(&*self);
        }
        if self.position < self.order.len() {
            let node = self.order[self.position];
            self.position = self.position + 1;
            assert(self.remaining() =~= old(self).remaining().skip(1));
            Some(node)
        } else {
            None
        }
    }
}

} // verus!
