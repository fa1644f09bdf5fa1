//! Identities: integer handles that are handed out in increasing order and
//! never reused.

use vstd::prelude::*;

verus! {

/// Handle of an addressable entity: a scene payload, a module, a cached
/// resource, a window.
pub type Identity = u64;

/// Anything that carries an identity.
pub trait Identifyable {
    /// Returns the identity of this value.
    fn identify(&self) -> Identity;
}

/// The one place identities come from. It counts upwards from zero, so an
/// identity is never handed out twice.
pub struct IdentitySource {
    next: Identity,
}

impl IdentitySource {
    /// How many identities have been handed out. They are the numbers below it.
    pub closed spec fn issued(&self) -> nat {
        self.next as nat
    }

    /// A source that has handed out nothing yet.
    pub fn new() -> (source: Self)
        ensures
            source.issued() == 0,
    {
        IdentitySource { next: 0 }
    }

    /// Hands out the next identity: the smallest number not handed out before.
    /// When all numbers below `u64::MAX` are taken there is none left, and the
    /// source stays as it is.
    pub fn create_next_identity(&mut self) -> (id: Option<Identity>)
        ensures
            match id {
                Some(id) => {
                    &&& id == old(self).issued()
                    &&& final(self).issued() == old(self).issued() + 1
                },
                None => {
                    &&& old(self).issued() == u64::MAX
                    &&& final(self).issued() == old(self).issued()
                },
            },
            id is Some <==> old(self).issued() < u64::MAX,
    {
        if self.next < u64::MAX {
            let id = self.next;
            self.next = id + 1;
            Some(id)
        } else {
            None
        }
    }
}

} // verus!
