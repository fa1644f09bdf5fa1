//! The resource cache: renderable buffers, built once per payload identity.

use vstd::prelude::*;
use std::collections::HashMap;
use crate::identity::Identity;

verus! {

/// The buffers a renderer derives from the raw mesh and texture of one
/// payload.
pub struct BufferItem<V, I, D> {
    /// The vertex buffer.
    pub vertices: V,
    /// The index buffer.
    pub indices: I,
    /// The pixels of the diffuse texture.
    pub diffuse_map: D,
}

/// A cache of built resources, keyed by the identity of the payload they were
/// built for. It only grows, until it is cleared as a whole.
pub struct ResourceCache<B> {
    items: HashMap<Identity, B>,
}

/// The cache after `id` was asked for, where `built` is what the builder
/// makes: as before if `id` was cached, with `built` under `id` otherwise.
pub open spec fn after_query<B>(cache: Map<Identity, B>, id: Identity, built: B) -> Map<
    Identity,
    B,
> {
    if cache.contains_key(id) {
        cache
    } else {
        cache.insert(id, built)
    }
}

/// What asking for `id` returns, where `built` is what the builder makes: the
/// cached resource if there is one, `built` otherwise.
pub open spec fn answer<B>(cache: Map<Identity, B>, id: Identity, built: B) -> B {
    if cache.contains_key(id) {
        cache[id]
    } else {
        built
    }
}

impl<B> View for ResourceCache<B> {
    type V = Map<Identity, B>;

    closed spec fn view(&self) -> Map<Identity, B> {
        self.items@
    }
}

impl<B> ResourceCache<B> {
    /// An empty cache.
    pub fn new() -> (cache: Self)
        ensures
            cache@ == Map::<Identity, B>::empty(),
    {
        ResourceCache { items: HashMap::new() }
    }

    /// The number of cached resources.
    pub fn len(&self) -> (n: usize)
        ensures
            n == self@.len(),
            self@.dom().finite(),
    {
        broadcast use vstd::std_specs::hash::group_hash_axioms;

        self.items.len()
    }

    /// Whether a resource is cached under `id`.
    pub fn contains(&self, id: Identity) -> (cached: bool)
        ensures
            cached == self@.contains_key(id),
    {
        broadcast use vstd::std_specs::hash::group_hash_axioms;

        self.items.contains_key(&id)
    }

    /// The resource cached under `id`, if there is one.
    pub fn get(&self, id: Identity) -> (item: Option<&B>)
        ensures
            item == if self@.contains_key(id) {
                Some(&self@[id])
            } else {
                None
            },
    {
        broadcast use vstd::std_specs::hash::group_hash_axioms;

        self.items.get(&id)
    }

    /// Caches `item` under `id`. A resource cached there before is replaced
    /// and handed back: the last write wins.
    pub fn insert(&mut self, id: Identity, item: B) -> (previous: Option<B>)
        ensures
            final(self)@ == old(self)@.insert(id, item),
            previous == if old(self)@.contains_key(id) {
                Some(old(self)@[id])
            } else {
                None
            },
    {
        broadcast use vstd::std_specs::hash::group_hash_axioms;

        self.items.insert(id, item)
    }

    /// The resource cached under `id`. Only if there is none, `build` is called
    /// and what it makes is cached under `id` and returned. A cached resource
    /// is never built again.
    pub fn get_or_insert_with<F: FnOnce() -> B>(&mut self, id: Identity, build: F) -> (item: &B)
        requires
            !old(self)@.contains_key(id) ==> call_requires(build, ()),
        ensures
            !old(self)@.contains_key(id) ==> call_ensures(build, (), *item),
            *item == answer(old(self)@, id, *item),
            final(self)@ == after_query(old(self)@, id, *item),
    {
        broadcast use vstd::std_specs::hash::group_hash_axioms;

        if !self.items.contains_key(&id) {
            let built = build();
            self.items.insert(id, built);
        }
        self.items.get(&id).unwrap()
    }

    /// Drops every cached resource.
    pub fn clear(&mut self)
        ensures
            final(self)@ == Map::<Identity, B>::empty(),
    {
        self.items.clear();
    }
}

/// Memoization: once a resource is cached under `id`, every query for `id`
/// returns that resource and leaves the cache as it is, whatever the builder
/// would make.
pub proof fn lemma_query_after_insert<B>(cache: Map<Identity, B>, id: Identity, item: B, built: B)
    ensures
        answer(cache.insert(id, item), id, built) == item,
        after_query(cache.insert(id, item), id, built) == cache.insert(id, item),
{
}

/// Queries repeat: after one query for `id`, a second one returns the same
/// resource and leaves the cache as it is, whatever the builder would make.
pub proof fn lemma_query_twice<B>(cache: Map<Identity, B>, id: Identity, first: B, second: B)
    ensures
        answer(after_query(cache, id, first), id, second) == answer(cache, id, first),
        after_query(after_query(cache, id, first), id, second) == after_query(cache, id, first),
{
}

/// The last write wins: of two resources cached under `id` one after the
/// other, the cache holds the second, and queries return it.
pub proof fn lemma_insert_twice<B>(
    cache: Map<Identity, B>,
    id: Identity,
    first: B,
    second: B,
    built: B,
)
    ensures
        cache.insert(id, first).insert(id, second) == cache.insert(id, second),
        answer(cache.insert(id, first).insert(id, second), id, built) == second,
{
    assert(cache.insert(id, first).insert(id, second) =~= cache.insert(id, second));
}

/// A query for one identity leaves what is cached under every other identity
/// as it is.
pub proof fn lemma_query_elsewhere<B>(cache: Map<Identity, B>, id: Identity, built: B, other: Identity)
    requires
        other != id,
    ensures
        after_query(cache, id, built).contains_key(other) == cache.contains_key(other),
        cache.contains_key(other) ==> after_query(cache, id, built)[other] == cache[other],
{
}

} // verus!
