//! The scene graph: a tree of spatial payloads under one root.
//!
//! A payload carries a local transform, the world transform derived from it,
//! and whatever the renderer needs to draw it. The transform type is left to
//! the caller, together with the operation that composes two transforms.

use vstd::prelude::*;
use crate::identity::{Identifyable, Identity};
use crate::tree::order::{
    after_parent, breadth_first, children_of, in_subtree, lemma_breadth_first_contains,
    lemma_breadth_first_no_duplicates, lemma_breadth_first_parents_first,
    lemma_breadth_first_starts, parents_first, well_formed, NodeId,
};
use crate::tree::{GraphError, Tree};

verus! {

/// The payload of a scene node.
pub struct Model<X, R> {
    /// Identity of the payload; renderers key their caches by it.
    pub id: Identity,
    /// Transform relative to the parent node.
    pub model_matrix: X,
    /// Transform relative to the scene, derived once per frame.
    pub world_matrix: X,
    /// What is drawn at this node: mesh and texture data, or a reference to them.
    pub resource: R,
}

impl<X, R> Model<X, R> {
    /// A payload with the given identity, transforms and resource.
    pub fn new(id: Identity, model_matrix: X, world_matrix: X, resource: R) -> (model: Self)
        ensures
            model == (Model { id, model_matrix, world_matrix, resource }),
    {
        Model { id, model_matrix, world_matrix, resource }
    }

    /// The transform relative to the parent node.
    pub fn get_model_matrix(&self) -> (matrix: &X)
        ensures
            *matrix == self.model_matrix,
    {
        &self.model_matrix
    }

    /// Replaces the transform relative to the parent node. The world transform
    /// follows with the next pass over the graph.
    pub fn set_model_matrix(&mut self, matrix: X)
        ensures
            *final(self) == (Model { model_matrix: matrix, ..*old(self) }),
    {
        self.model_matrix = matrix;
    }

    /// The transform relative to the scene, as of the last pass over the graph.
    pub fn get_world_matrix(&self) -> (matrix: &X)
        ensures
            *matrix == self.world_matrix,
    {
        &self.world_matrix
    }

    /// Replaces the world transform.
    pub fn set_world_matrix(&mut self, matrix: X)
        ensures
            *final(self) == (Model { world_matrix: matrix, ..*old(self) }),
    {
        self.world_matrix = matrix;
    }

    /// What is drawn at this node.
    pub fn get_resource(&self) -> (resource: &R)
        ensures
            *resource == self.resource,
    {
        &self.resource
    }
}

impl<X, R> Identifyable for Model<X, R> {
    fn identify(&self) -> (id: Identity)
        ensures
            id == self.id,
    {
        self.id
    }
}

/// `world` is what a pass derives for a node with transform `local` under a
/// parent whose world transform is `above`: `local` composed with `delta`,
/// and that composed onto `above` if there is a parent.
pub open spec fn derives<X, F: Fn(&X, &X) -> X>(
    compose: &F,
    delta: X,
    local: X,
    above: Option<X>,
    world: X,
) -> bool {
    exists|moved: X|
        {
            &&& call_ensures(*compose, (&local, &delta), moved)
            &&& match above {
                Some(above) => call_ensures(*compose, (&above, &moved), world),
                None => world == moved,
            }
        }
}

/// The world transform of node `i` in `after` is what a pass derives for it
/// from its local transform in `before` and the world transform of its parent
/// in `after`.
pub open spec fn placed<X, R, F: Fn(&X, &X) -> X>(
    compose: &F,
    delta: X,
    parents: Seq<Option<NodeId>>,
    before: Seq<Model<X, R>>,
    after: Seq<Model<X, R>>,
    i: int,
) -> bool {
    derives(
        compose,
        delta,
        before[i].model_matrix,
        match parents[i] {
            Some(p) => Some(after[p as int].world_matrix),
            None => None,
        },
        after[i].world_matrix,
    )
}

/// `after` is `before` but for the world transform.
pub open spec fn same_but_world<X, R>(before: Model<X, R>, after: Model<X, R>) -> bool {
    after == (Model { world_matrix: after.world_matrix, ..before })
}

/// Under a root that is not moved, a child is where its local transform puts
/// it: if `identity` is neutral for the composition, the root's local transform
/// is `identity` and so is the delta of the frame, then a pass gives the root
/// the world transform `identity` and a child of the root its own local
/// transform.
pub proof fn lemma_child_of_identity_root<X, F: Fn(&X, &X) -> X>(
    compose: &F,
    identity: X,
    local: X,
    root_world: X,
    child_world: X,
)
    requires
        forall|x: X, r: X| call_ensures(*compose, (&x, &identity), r) ==> r == x,
        forall|x: X, r: X| call_ensures(*compose, (&identity, &x), r) ==> r == x,
        derives(compose, identity, identity, None, root_world),
        derives(compose, identity, local, Some(root_world), child_world),
    ensures
        root_world == identity,
        child_world == local,
{
}

/// A scene graph: a forest of models whose first node is the root of the
/// scene. Nodes created without a parent, other than the root, are detached:
/// no walk from the root reaches them.
pub struct SceneGraph<X, R> {
    tree: Tree<Model<X, R>>,
}

impl<X, R> SceneGraph<X, R> {
    /// The parent link of every node, by handle.
    pub closed spec fn parents(&self) -> Seq<Option<NodeId>> {
        self.tree.parents()
    }

    /// The payload of every node, by handle.
    pub closed spec fn models(&self) -> Seq<Model<X, R>> {
        self.tree.payloads()
    }

    /// What a walk from the root yields: each node at or below the root, with
    /// the identity of its payload, in breadth-first order.
    pub open spec fn visits(&self) -> Seq<(Identity, NodeId)> {
        breadth_first(self.parents(), 0).map_values(
            |node: NodeId| (self.models()[node as int].id, node),
        )
    }

    /// `after` is what a pass with `delta` makes of this graph: the links and
    /// everything in the payloads but the world transforms are as they were,
    /// every node at or below the root has the world transform derived for
    /// it, and the detached nodes are untouched.
    pub open spec fn passed<F: Fn(&X, &X) -> X>(&self, after: Self, compose: &F, delta: X) -> bool {
        &&& after.parents() == self.parents()
        &&& after.models().len() == self.models().len()
        &&& forall|i: int|
            0 <= i < self.models().len() ==> same_but_world(
                self.models()[i],
                #[trigger] after.models()[i],
            )
        &&& forall|node: NodeId|
            node < self.models().len() && #[trigger] in_subtree(self.parents(), 0, node) ==> placed(
                compose,
                delta,
                self.parents(),
                self.models(),
                after.models(),
                node as int,
            )
        &&& forall|node: NodeId|
            node < self.models().len() && !#[trigger] in_subtree(self.parents(), 0, node)
                ==> after.models()[node as int] == self.models()[node as int]
    }

    /// A pass starts from the local transforms alone: a second pass over what
    /// a first pass made gives what a pass over the graph as it was could have
    /// given.
    pub proof fn lemma_passed_again<F: Fn(&X, &X) -> X>(
        &self,
        once: Self,
        twice: Self,
        compose: &F,
        delta: X,
    )
        requires
            self.passed(once, compose, delta),
            once.passed(twice, compose, delta),
        ensures
            self.passed(twice, compose, delta),
    {
        assert forall|i: int| 0 <= i < self.models().len() implies same_but_world(
            self.models()[i],
            #[trigger] twice.models()[i],
        ) by {
            assert(same_but_world(self.models()[i], once.models()[i]));
            assert(same_but_world(once.models()[i], twice.models()[i]));
        }
        assert forall|node: NodeId|
            node < self.models().len() && #[trigger] in_subtree(self.parents(), 0, node) implies placed(
            compose,
            delta,
            self.parents(),
            self.models(),
            twice.models(),
            node as int,
        ) by {
            assert(same_but_world(self.models()[node as int], once.models()[node as int]));
            assert(placed(compose, delta, once.parents(), once.models(), twice.models(), node as int));
        }
    }

    /// A scene graph with `root` as its only node.
    pub fn new(root: Model<X, R>) -> (graph: Self)
        ensures
            graph.parents() == seq![None::<NodeId>],
            graph.models() == seq![root],
    {
        let mut tree = Tree::new();
        let _ = tree.create(root, None);
        assert(tree.parents() =~= seq![None::<NodeId>]);
        assert(tree.payloads() =~= seq![root]);
        SceneGraph { tree }
    }

    /// The handle of the root: the first node.
    pub fn root(&self) -> (root: NodeId)
        ensures
            root == 0,
    {
        0
    }

    /// The number of nodes, the root and detached nodes included. Every parent
    /// link among them points to a node that was created earlier.
    pub fn len(&self) -> (n: usize)
        ensures
            n == self.parents().len(),
            n == self.models().len(),
            well_formed(self.parents()),
    {
        self.tree.len()
    }

    /// Creates a node that owns `model`, as the last child of `parent` if one
    /// is given. A parent that is not in the graph is refused and the graph
    /// stays as it was.
    pub fn create(&mut self, model: Model<X, R>, parent: Option<NodeId>) -> (res: Result<
        NodeId,
        GraphError,
    >)
        ensures
            match res {
                Ok(id) => {
                    &&& id == old(self).parents().len()
                    &&& final(self).parents() == old(self).parents().push(parent)
                    &&& final(self).models() == old(self).models().push(model)
                },
                Err(e) => {
                    &&& e == GraphError::DanglingParent
                    &&& final(self).parents() == old(self).parents()
                    &&& final(self).models() == old(self).models()
                },
            },
            res is Err <==> (parent matches Some(p) && p >= old(self).parents().len()),
    {
        self.tree.create(model, parent)
    }

    /// The parent of `id`; `None` for the root, for a detached node and for a
    /// handle that names no node.
    pub fn parent(&self, id: NodeId) -> (parent: Option<NodeId>)
        ensures
            parent == if id < self.parents().len() {
                self.parents()[id as int]
            } else {
                None
            },
            parent matches Some(p) ==> p < id,
    {
        self.tree.parent(id)
    }

    /// The children of `id` in the order of their creation; `None` for a handle
    /// that names no node.
    pub fn children(&self, id: NodeId) -> (children: Option<&Vec<NodeId>>)
        ensures
            children is Some <==> id < self.parents().len(),
            children matches Some(c) ==> c@ == children_of(self.parents(), id),
    {
        self.tree.children(id)
    }

    /// The payload of `id`; `None` for a handle that names no node.
    pub fn model(&self, id: NodeId) -> (model: Option<&Model<X, R>>)
        ensures
            model == if id < self.models().len() {
                Some(&self.models()[id as int])
            } else {
                None
            },
    {
        self.tree.data(id)
    }

    /// Mutable access to the payload of `id`; `None` for a handle that names no
    /// node. The links stay as they are, and so do the other payloads.
    pub fn model_mut(&mut self, id: NodeId) -> (model: Option<&mut Model<X, R>>)
        ensures
            final(self).parents() == old(self).parents(),
            match model {
                Some(model) => {
                    &&& id < old(self).models().len()
                    &&& *model == old(self).models()[id as int]
                    &&& final(self).models() == old(self).models().update(
                        id as int,
                        *final(model),
                    )
                },
                None => {
                    &&& id >= old(self).models().len()
                    &&& final(self).models() == old(self).models()
                },
            },
    {
        self.tree.data_mut(id)
    }

    /// Walks the graph from the root, breadth first: the root, then level after
    /// level, the children of each node in the order of their creation. Every
    /// node at or below the root is visited once, and after its parent.
    pub fn traverse_breadth_first(&self) -> (order: Vec<(Identity, NodeId)>)
        ensures
            order@ == self.visits(),
            well_formed(self.parents()),
            breadth_first(self.parents(), 0).no_duplicates(),
            parents_first(self.parents(), breadth_first(self.parents(), 0)),
    {
        let walk = self.tree.traverse_breadth_first(0);
        let count = self.tree.len();
        proof {
            lemma_breadth_first_no_duplicates(self.parents(), 0);
            lemma_breadth_first_parents_first(self.parents(), 0);
        }
        let mut order: Vec<(Identity, NodeId)> = Vec::new();
        let mut k: usize = 0;
        while k < walk.len()
            invariant
                k <= walk.len(),
                walk@ == breadth_first(self.parents(), 0),
                well_formed(self.parents()),
                self.parents() == self.tree.parents(),
                self.models() == self.tree.payloads(),
                self.models().len() == self.parents().len(),
                order@ == self.visits().take(k as int),
            decreases walk.len() - k,
        {
            let node = walk[k];
            proof {
                assert(walk@.contains(node));
                if 0 < self.parents().len() {
                    lemma_breadth_first_contains(self.parents(), 0, node);
                }
            }
            if let Some(model) = self.tree.data(node) {
                order.push((model.id, node));
            }
            proof {
                assert(self.visits().take(k + 1) =~= self.visits().take(k as int).push(
                    self.visits()[k as int],
                ));
            }
            k += 1;
        }
        proof {
            assert(self.visits().take(walk@.len() as int) =~= self.visits());
        }
        order
    }

    /// The world transform that a pass derives for `node` from the graph as it
    /// stands; `None` for a handle that names no node.
    fn derive<F: Fn(&X, &X) -> X>(&self, node: NodeId, delta: &X, compose: &F) -> (world: Option<X>)
        requires
            forall|a: X, b: X| call_requires(*compose, (&a, &b)),
        ensures
            world is Some <==> node < self.models().len(),
            world matches Some(w) ==> derives(
                compose,
                *delta,
                self.models()[node as int].model_matrix,
                match self.parents()[node as int] {
                    Some(p) => Some(self.models()[p as int].world_matrix),
                    None => None,
                },
                w,
            ),
    {
        let _ = self.tree.len();
        let model = self.tree.data(node)?;
        let moved = compose(&model.model_matrix, delta);
        match self.tree.parent(node) {
            Some(p) => {
                let above = self.tree.data(p)?;
                Some(compose(&above.world_matrix, &moved))
            },
            None => Some(moved),
        }
    }

    /// Derives the world transform of every node at or below the root, parents
    /// before children. For each node the local transform is composed with
    /// `delta`; the result is the world transform of a node without parent, and
    /// is composed onto the parent's world transform otherwise. Nothing is kept
    /// from an earlier pass, and nothing else about the graph changes.
    pub fn update_world_transforms<F: Fn(&X, &X) -> X>(&mut self, delta: &X, compose: &F)
        requires
            forall|a: X, b: X| call_requires(*compose, (&a, &b)),
        ensures
            old(self).passed(*final(self), compose, *delta),
    {
        let ghost parents = self.parents();
        let ghost before = self.models();
        let order = self.tree.traverse_breadth_first(0);
        let count = self.tree.len();
        proof {
            lemma_breadth_first_no_duplicates(parents, 0);
            lemma_breadth_first_parents_first(parents, 0);
            assert forall|k: int| 0 <= k < order@.len() implies #[trigger] order@[k] < count by {
                assert(order@.contains(order@[k]));
                if 0 < count {
                    lemma_breadth_first_contains(parents, 0, order@[k]);
                }
            }
        }
        let mut k: usize = 0;
        while k < order.len()
            invariant
                forall|a: X, b: X| call_requires(*compose, (&a, &b)),
                k <= order.len(),
                well_formed(parents),
                order@ == breadth_first(parents, 0),
                order@.no_duplicates(),
                parents_first(parents, order@),
                forall|m: int| 0 <= m < order@.len() ==> #[trigger] order@[m] < count,
                count == parents.len(),
                count == before.len(),
                self.parents() == parents,
                self.models().len() == count,
                forall|i: int|
                    0 <= i < count ==> same_but_world(before[i], #[trigger] self.models()[i]),
                forall|i: int|
                    0 <= i < count && (forall|m: int| 0 <= m < k ==> order@[m] != i)
                        ==> #[trigger] self.models()[i] == before[i],
                forall|m: int|
                    0 <= m < k ==> placed(
                        compose,
                        *delta,
                        parents,
                        before,
                        self.models(),
                        #[trigger] order@[m] as int,
                    ),
            decreases order.len() - k,
        {
            let node = order[k];
            let ghost models = self.models();
            if let Some(world) = self.derive(node, delta, compose) {
                if let Some(model) = self.tree.data_mut(node) {
                    model.world_matrix = world;
                }
            }
            proof {
                let now = self.models();
                assert(now == models.update(node as int, now[node as int]));
                // The parent of `node`, if any, was visited earlier and is not
                // `node`, so its world transform is the one that was used.
                assert(placed(compose, *delta, parents, before, now, node as int));
                // The nodes visited before are not `node`, nor are their
                // parents, so what was derived for them still stands.
                assert forall|m: int| 0 <= m < k implies placed(
                    compose,
                    *delta,
                    parents,
                    before,
                    now,
                    #[trigger] order@[m] as int,
                ) by {
                    let i = order@[m] as int;
                    assert(placed(compose, *delta, parents, before, models, i));
                    assert(order@[m] != order@[k as int]);
                    if parents[i] is Some {
                        if m == 0 {
                            lemma_breadth_first_starts(parents, 0);
                        }
                        assert(after_parent(parents, order@, m));
                        let j = choose|j: int|
                            0 <= j < m && parents[order@[m] as int] == Some(#[trigger] order@[j]);
                        assert(order@[j] != order@[k as int]);
                    }
                    assert(now[i] == models[i]);
                }
                assert forall|i: int|
                    0 <= i < count && (forall|m: int| 0 <= m < k + 1 ==> order@[m] != i)
                        implies #[trigger] now[i] == before[i] by {
                    assert(order@[k as int] != i);
                    assert(forall|m: int| 0 <= m < k ==> order@[m] != i);
                }
            }
            k += 1;
        }
        proof {
            let after = self.models();
            assert forall|node: NodeId|
                node < count && #[trigger] in_subtree(parents, 0, node) implies placed(
                compose,
                *delta,
                parents,
                before,
                after,
                node as int,
            ) by {
                lemma_breadth_first_contains(parents, 0, node);
                let m = choose|m: int| 0 <= m < order@.len() && order@[m] == node;
                assert(placed(compose, *delta, parents, before, after, order@[m] as int));
            }
            assert forall|node: NodeId|
                node < count && !#[trigger] in_subtree(parents, 0, node) implies after[node as int]
                == before[node as int] by {
                lemma_breadth_first_contains(parents, 0, node);
                assert forall|m: int| 0 <= m < k implies order@[m] != node by {
                    if order@[m] == node {
                        assert(order@.contains(node));
                    }
                }
            }
        }
    }
}

} // verus!
