//! The active set: the modules that loaded, in the order of their
//! registration, which is the order in which they run every frame.

use vstd::prelude::*;
use crate::clock::Micros;
use crate::module::{Module, ModuleError};

verus! {

/// The modules that take part in every frame, in registration order.
pub struct ModuleHost<M> {
    modules: Vec<M>,
}

impl<M> View for ModuleHost<M> {
    type V = Seq<M>;

    closed spec fn view(&self) -> Seq<M> {
        self.modules@
    }
}

/// The modules, updated one after the other in order, each on the state that
/// the one before it left, lead from `before` to `after` and report
/// `durations`, one for each module.
pub open spec fn threaded<M: Module>(
    modules: Seq<M>,
    before: M::State,
    elapsed: Micros,
    durations: Seq<Micros>,
    after: M::State,
) -> bool
    decreases modules.len(),
{
    if modules.len() == 0 {
        after == before && durations.len() == 0
    } else {
        &&& durations.len() == modules.len()
        &&& exists|mid: M::State|
            threaded(modules.drop_last(), before, elapsed, durations.drop_last(), mid)
                && modules.last().updated(mid, elapsed, after, durations.last())
    }
}

/// The modules, checked one after the other in order, each on the state that
/// the one before it left, become `checked` and lead from `before` to `after`;
/// `applied` of them report a fresh implementation.
pub open spec fn checked_through<M: Module>(
    modules: Seq<M>,
    before: M::State,
    checked: Seq<M>,
    after: M::State,
    applied: nat,
) -> bool
    decreases modules.len(),
{
    if modules.len() == 0 {
        checked.len() == 0 && after == before && applied == 0
    } else {
        &&& checked.len() == modules.len()
        &&& exists|mid: M::State, fresh: bool|
            {
                &&& fresh ==> applied > 0
                &&& checked_through(
                    modules.drop_last(),
                    before,
                    checked.drop_last(),
                    mid,
                    if fresh {
                        (applied - 1) as nat
                    } else {
                        applied
                    },
                )
                &&& modules.last().checked(mid, &checked.last(), after, fresh)
            }
    }
}

/// Every module runs on the state that the modules before it have left, and
/// the modules after it run on the state that it leaves: a run of all modules
/// is a run of the first `k`, then an update of module `k`, then a run of the
/// rest.
pub proof fn lemma_threaded_through<M: Module>(
    modules: Seq<M>,
    before: M::State,
    elapsed: Micros,
    durations: Seq<Micros>,
    after: M::State,
    k: int,
)
    requires
        0 <= k < modules.len(),
        threaded(modules, before, elapsed, durations, after),
    ensures
        durations.len() == modules.len(),
        exists|found: M::State, left: M::State|
            {
                &&& #[trigger] threaded(modules.take(k), before, elapsed, durations.take(k), found)
                &&& modules[k].updated(found, elapsed, left, durations[k])
                &&& #[trigger] threaded(
                    modules.skip(k + 1),
                    left,
                    elapsed,
                    durations.skip(k + 1),
                    after,
                )
            },
    decreases modules.len(),
{
    let front = modules.drop_last();
    let reported = durations.drop_last();
    assert(modules.len() > 0);
    assert(threaded(modules, before, elapsed, durations, after));
    assert(exists|mid: M::State|
        threaded(modules.drop_last(), before, elapsed, durations.drop_last(), mid)
            && modules.last().updated(mid, elapsed, after, durations.last()));
    let mid = choose|mid: M::State|
        threaded(front, before, elapsed, reported, mid) && modules.last().updated(
            mid,
            elapsed,
            after,
            durations.last(),
        );
    if k == modules.len() - 1 {
        assert(modules.take(k) =~= front);
        assert(durations.take(k) =~= reported);
        assert(modules.skip(k + 1) =~= Seq::<M>::empty());
        assert(threaded(modules.skip(k + 1), after, elapsed, durations.skip(k + 1), after));
        assert(threaded(modules.take(k), before, elapsed, durations.take(k), mid));
    } else {
        lemma_threaded_through(front, before, elapsed, reported, mid, k);
        let (found, left) = choose|found: M::State, left: M::State|
            {
                &&& #[trigger] threaded(front.take(k), before, elapsed, reported.take(k), found)
                &&& front[k].updated(found, elapsed, left, reported[k])
                &&& #[trigger] threaded(
                    front.skip(k + 1),
                    left,
                    elapsed,
                    reported.skip(k + 1),
                    mid,
                )
            };
        assert(front.take(k) =~= modules.take(k));
        assert(reported.take(k) =~= durations.take(k));
        let rest = modules.skip(k + 1);
        let rest_reported = durations.skip(k + 1);
        assert(rest.drop_last() =~= front.skip(k + 1));
        assert(rest_reported.drop_last() =~= reported.skip(k + 1));
        assert(rest.last() == modules.last());
        assert(threaded(rest.drop_last(), left, elapsed, rest_reported.drop_last(), mid)
            && rest.last().updated(mid, elapsed, after, rest_reported.last()));
        assert(threaded(rest, left, elapsed, rest_reported, after));
        assert(threaded(modules.take(k), before, elapsed, durations.take(k), found));
    }
}

impl<M: Module> ModuleHost<M> {
    /// A host without modules.
    pub fn new() -> (host: Self)
        ensures
            host@ == Seq::<M>::empty(),
    {
        ModuleHost { modules: Vec::new() }
    }

    /// The number of active modules.
    pub fn len(&self) -> (n: usize)
        ensures
            n == self@.len(),
    {
        self.modules.len()
    }

    /// The module at position `index` of the registration order.
    pub fn get(&self, index: usize) -> (module: Option<&M>)
        ensures
            module == if index < self@.len() {
                Some(&self@[index as int])
            } else {
                None
            },
    {
        if index < self.modules.len() {
            Some(&self.modules[index])
        } else {
            None
        }
    }

    /// Takes in what a first load gave. A module that loaded joins the active
    /// set behind those registered before it, and its position is returned. A
    /// module that failed to load is left out, and its error is handed on.
    pub fn register(&mut self, loaded: Result<M, ModuleError>) -> (res: Result<usize, ModuleError>)
        ensures
            match loaded {
                Ok(module) => {
                    &&& res == Ok::<usize, ModuleError>(old(self)@.len() as usize)
                    &&& final(self)@ == old(self)@.push(module)
                },
                Err(e) => {
                    &&& res == Err::<usize, ModuleError>(e)
                    &&& final(self)@ == old(self)@
                },
            },
    {
        match loaded {
            Ok(module) => {
                let position = self.modules.len();
                self.modules.push(module);
                Ok(position)
            },
            Err(e) => Err(e),
        }
    }

    /// The names of the active modules, in registration order.
    pub fn names(&self) -> (names: Vec<String>)
        ensures
            names@.len() == self@.len(),
            forall|i: int| 0 <= i < self@.len() ==> self@[i].named(#[trigger] names@[i]@),
    {
        let mut names: Vec<String> = Vec::new();
        let mut i: usize = 0;
        while i < self.modules.len()
            invariant
                i <= self.modules@.len(),
                names@.len() == i,
                forall|j: int| 0 <= j < i ==> self.modules@[j].named(#[trigger] names@[j]@),
            decreases self.modules@.len() - i,
        {
            names.push(self.modules[i].get_name());
            i += 1;
        }
        names
    }

    /// Updates every active module once, in registration order, so that each
    /// module works on the state that the modules before it have left. Returns
    /// the time each call reported, in the same order.
    pub fn update_all(&self, state: &mut M::State, elapsed: Micros) -> (durations: Vec<Micros>)
        ensures
            durations@.len() == self@.len(),
            threaded(self@, *old(state), elapsed, durations@, *final(state)),
    {
        let mut durations: Vec<Micros> = Vec::new();
        let mut i: usize = 0;
        while i < self.modules.len()
            invariant
                i <= self.modules@.len(),
                durations@.len() == i,
                threaded(self.modules@.take(i as int), *old(state), elapsed, durations@, *state),
            decreases self.modules@.len() - i,
        {
            let ghost mid = *state;
            let ghost reported = durations@;
            let took = self.modules[i].update(state, elapsed);
            durations.push(took);
            proof {
                let done = self.modules@.take(i + 1);
                assert(done.drop_last() =~= self.modules@.take(i as int));
                assert(durations@.drop_last() =~= reported);
                assert(threaded(done.drop_last(), *old(state), elapsed, durations@.drop_last(), mid)
                    && done.last().updated(mid, elapsed, *state, durations@.last()));
            }
            i += 1;
        }
        proof {
            assert(self.modules@.take(self.modules@.len() as int) =~= self.modules@);
        }
        durations
    }

    /// Lets every active module check its backing source, in registration
    /// order. Returns how many of them swapped in a fresh implementation. No
    /// module joins or leaves the active set.
    pub fn check_updates(&mut self, state: &mut M::State) -> (applied: usize)
        ensures
            final(self)@.len() == old(self)@.len(),
            applied <= old(self)@.len(),
            checked_through(old(self)@, *old(state), final(self)@, *final(state), applied as nat),
    {
        let mut applied: usize = 0;
        let mut i: usize = 0;
        while i < self.modules.len()
            invariant
                self.modules@.len() == old(self).modules@.len(),
                i <= self.modules@.len(),
                applied <= i,
                forall|j: int|
                    i <= j < self.modules@.len() ==> self.modules@[j] == old(self).modules@[j],
                checked_through(
                    old(self).modules@.take(i as int),
                    *old(state),
                    self.modules@.take(i as int),
                    *state,
                    applied as nat,
                ),
            decreases self.modules@.len() - i,
        {
            let ghost mid = *state;
            let ghost so_far = self.modules@;
            let ghost count = applied;
            let fresh = self.modules[i].check_update(state);
            if fresh {
                applied += 1;
            }
            proof {
                let before = old(self).modules@.take(i + 1);
                let now = self.modules@.take(i + 1);
                assert(before.drop_last() =~= old(self).modules@.take(i as int));
                assert(now.drop_last() =~= so_far.take(i as int));
                assert(before.last() == so_far[i as int]);
                assert(fresh ==> applied > 0);
                assert(checked_through(
                    before.drop_last(),
                    *old(state),
                    now.drop_last(),
                    mid,
                    if fresh {
                        (applied - 1) as nat
                    } else {
                        applied as nat
                    },
                ));
                assert(before.last().checked(mid, &now.last(), *state, fresh));
            }
            i += 1;
        }
        proof {
            assert(self.modules@.take(self.modules@.len() as int) =~= self.modules@);
            assert(old(self).modules@.take(self.modules@.len() as int) =~= old(self).modules@);
        }
        applied
    }
}

} // verus!
