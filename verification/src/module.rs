//! The module host: behavior units behind a fixed surface of three operations,
//! each loaded from a backing source and swapped for a fresh implementation
//! when that source changes.

use vstd::prelude::*;
use crate::clock::{Micros, Timestamp};

verus! {

/// Why a module does not run the code of its backing source.
#[derive(Clone, Copy, Debug, PartialEq, Eq, Structural)]
pub enum ModuleError {
    /// The first load failed. The module is left out of the active set.
    LoadFailure,
    /// A later load failed. The implementation loaded before it stays active.
    ReloadFailure,
}

/// The surface every module offers to the host.
///
/// Each operation comes with a relation that says what one call of it may do.
/// A module that overrides none of them promises nothing, and nothing is
/// assumed of it.
pub trait Module {
    /// The shared state that the module works on.
    type State;

    /// `name` is a name that the module may give itself.
    open spec fn named(&self, name: Seq<char>) -> bool {
        true
    }

    /// One check may take the module to `after_self` and the shared state from
    /// `before` to `after`, and report `applied`.
    open spec fn checked(
        &self,
        before: Self::State,
        after_self: &Self,
        after: Self::State,
        applied: bool,
    ) -> bool {
        true
    }

    /// One update that is handed `elapsed` may take the shared state from
    /// `before` to `after` and report that it took `took`.
    open spec fn updated(
        &self,
        before: Self::State,
        elapsed: Micros,
        after: Self::State,
        took: Micros,
    ) -> bool {
        true
    }

    /// The name of the module, for diagnostics. Names need not be unique.
    fn get_name(&self) -> (name: String)
        ensures
            self.named(name@),
    ;

    /// Looks whether the backing source has changed since the last load and,
    /// if so, tries to swap in a fresh implementation. Returns whether a fresh
    /// implementation is active now.
    fn check_update(&mut self, state: &mut Self::State) -> (applied: bool)
        ensures
            old(self).checked(*old(state), final(self), *final(state), applied),
    ;

    /// Runs the active implementation on the shared state. `elapsed` is the
    /// time since the frame before; the result is the time the call took.
    fn update(&self, state: &mut Self::State, elapsed: Micros) -> (took: Micros)
        ensures
            self.updated(*old(state), elapsed, *final(state), took),
    ;
}

/// What an implementation does each frame.
pub trait Behavior {
    /// The shared state that the implementation works on.
    type State;

    /// One step that is handed `elapsed` may take the shared state from
    /// `before` to `after`. An implementation that says nothing here promises
    /// nothing.
    open spec fn stepped(&self, before: Self::State, elapsed: Micros, after: Self::State) -> bool {
        true
    }

    /// Advances the shared state by one frame.
    fn update(&self, state: &mut Self::State, elapsed: Micros)
        ensures
            self.stepped(*old(state), elapsed, *final(state)),
    ;
}

/// The backing source of a module: it knows when it was last modified and can
/// construct an implementation from what it holds now.
pub trait ModuleSource {
    /// What the source is loaded into.
    type Implementation: Behavior;

    /// `stamp` is a modification stamp that the source may report. A source
    /// that says nothing here promises nothing.
    open spec fn stamped(&self, stamp: u64) -> bool {
        true
    }

    /// One load may take the shared state from `before` to `after` and end in
    /// `outcome`. A source that says nothing here promises nothing.
    open spec fn loaded(
        &self,
        before: <Self::Implementation as Behavior>::State,
        outcome: Option<Self::Implementation>,
        after: <Self::Implementation as Behavior>::State,
    ) -> bool {
        true
    }

    /// The modification stamp of the source as it is now.
    fn modified(&self) -> (stamp: u64)
        ensures
            self.stamped(stamp),
    ;

    /// Constructs an implementation from the source as it is now; `None` if
    /// the source cannot be read or does not satisfy the module surface.
    fn load(&self, state: &mut <Self::Implementation as Behavior>::State) -> (outcome: Option<
        Self::Implementation,
    >)
        ensures
            self.loaded(*old(state), outcome, *final(state)),
    ;
}

/// What the host records of a module.
pub struct ModuleRecord<I> {
    /// The name of the module.
    pub name: String,
    /// Where the backing source is found, and the entry it is entered by.
    pub source: String,
    /// The implementation that is run.
    pub active: I,
    /// The modification stamp that the source had at the last successful load.
    pub modified: u64,
    /// When the last successful load took place.
    pub loaded_at: Timestamp,
}

impl<I> ModuleRecord<I> {
    /// A reload is due exactly if the stamp observed on the source differs
    /// from the one of the last successful load.
    pub open spec fn reload_is_due(self, observed: u64) -> bool {
        observed != self.modified
    }

    /// The record after a load attempt at stamp `observed` ended in `outcome`
    /// at time `at`: on success the fresh implementation is active and the
    /// stamp and time are noted; on failure nothing changes.
    pub open spec fn after_reload(self, observed: u64, outcome: Option<I>, at: Timestamp) -> Self {
        match outcome {
            Some(fresh) => ModuleRecord { active: fresh, modified: observed, loaded_at: at, ..self },
            None => self,
        }
    }

    /// The record after a check that observed the stamp `observed`, where
    /// `outcome` is what a load attempt would end in.
    pub open spec fn after_check(self, observed: u64, outcome: Option<I>, at: Timestamp) -> Self {
        if self.reload_is_due(observed) {
            self.after_reload(observed, outcome, at)
        } else {
            self
        }
    }

    /// What a check reports that observed the stamp `observed`, where `outcome`
    /// is what a load attempt would end in: no reload, a reload, or a failed
    /// attempt.
    pub open spec fn check_result(self, observed: u64, outcome: Option<I>) -> Result<
        bool,
        ModuleError,
    > {
        if !self.reload_is_due(observed) {
            Ok(false)
        } else if outcome is Some {
            Ok(true)
        } else {
            Err(ModuleError::ReloadFailure)
        }
    }

    /// Records the first load of a module. Without an implementation there is
    /// no record.
    pub fn load(
        name: String,
        source: String,
        observed: u64,
        outcome: Option<I>,
        at: Timestamp,
    ) -> (res: Result<Self, ModuleError>)
        ensures
            match outcome {
                Some(fresh) => res == Ok::<Self, ModuleError>(
                    ModuleRecord { name, source, active: fresh, modified: observed, loaded_at: at },
                ),
                None => res == Err::<Self, ModuleError>(ModuleError::LoadFailure),
            },
    {
        match outcome {
            Some(fresh) => Ok(
                ModuleRecord { name, source, active: fresh, modified: observed, loaded_at: at },
            ),
            None => Err(ModuleError::LoadFailure),
        }
    }

    /// Whether the stamp observed on the source calls for a reload.
    pub fn reload_due(&self, observed: u64) -> (due: bool)
        ensures
            due == self.reload_is_due(observed),
    {
        observed != self.modified
    }

    /// Takes in the outcome of a load attempt. On success the fresh
    /// implementation replaces the active one, which is handed back. On
    /// failure the record stays as it is.
    pub fn reload(&mut self, observed: u64, outcome: Option<I>, at: Timestamp) -> (res: Result<
        I,
        ModuleError,
    >)
        ensures
            *final(self) == old(self).after_reload(observed, outcome, at),
            match outcome {
                Some(fresh) => res == Ok::<I, ModuleError>(old(self).active),
                None => res == Err::<I, ModuleError>(ModuleError::ReloadFailure),
            },
    {
        match outcome {
            Some(fresh) => {
                let mut retired = fresh;
                std::mem::swap(&mut retired, &mut self.active);
                self.modified = observed;
                self.loaded_at = at;
                Ok(retired)
            },
            None => Err(ModuleError::ReloadFailure),
        }
    }
}

/// A change of the source is answered by one load attempt: once a reload at
/// a stamp has succeeded, that stamp calls for no further reload.
pub proof fn lemma_reload_settles<I>(
    record: ModuleRecord<I>,
    observed: u64,
    fresh: I,
    at: Timestamp,
)
    ensures
        !record.after_reload(observed, Some(fresh), at).reload_is_due(observed),
        record.after_reload(observed, Some(fresh), at).active == fresh,
        forall|outcome: Option<I>, later: Timestamp|
            record.after_reload(observed, Some(fresh), at).after_check(observed, outcome, later)
                == record.after_reload(observed, Some(fresh), at),
{
}

/// A failed reload leaves everything as it was: the implementation loaded
/// before stays active, and the change still calls for a reload.
pub proof fn lemma_failed_reload_keeps<I>(record: ModuleRecord<I>, observed: u64, at: Timestamp)
    ensures
        record.after_reload(observed, None, at) == record,
        record.after_check(observed, None, at) == record,
        record.after_check(observed, None, at).reload_is_due(observed) == record.reload_is_due(
            observed,
        ),
{
}

/// An unchanged source is left alone: a check that observes the stamp of the
/// last successful load changes nothing, whatever a load would give.
pub proof fn lemma_unchanged_source_no_reload<I>(
    record: ModuleRecord<I>,
    outcome: Option<I>,
    at: Timestamp,
)
    ensures
        !record.reload_is_due(record.modified),
        record.after_check(record.modified, outcome, at) == record,
{
}

/// A module that is loaded from a backing source and reloaded when the source
/// changes.
pub struct HotModule<L: ModuleSource> {
    record: ModuleRecord<L::Implementation>,
    loader: L,
}

impl<L: ModuleSource> HotModule<L> {
    /// What the host records of this module.
    pub closed spec fn record(&self) -> ModuleRecord<L::Implementation> {
        self.record
    }

    /// The backing source.
    pub closed spec fn loader(&self) -> L {
        self.loader
    }

    /// A first load from `loader` with the shared state at `before` may leave
    /// the shared state at `after` and end in `res`: the source reports a
    /// stamp and is loaded once; with an implementation there is a module that
    /// records it under the stamp, without one there is none.
    pub open spec fn opened(
        name: String,
        source: String,
        loader: L,
        before: <L::Implementation as Behavior>::State,
        after: <L::Implementation as Behavior>::State,
        res: Result<Self, ModuleError>,
    ) -> bool {
        exists|observed: u64, outcome: Option<L::Implementation>|
            {
                &&& #[trigger] loader.stamped(observed)
                &&& #[trigger] loader.loaded(before, outcome, after)
                &&& match (outcome, res) {
                    (Some(fresh), Ok(module)) => {
                        &&& module.loader() == loader
                        &&& module.record() == (ModuleRecord {
                            name,
                            source,
                            active: fresh,
                            modified: observed,
                            loaded_at: module.record().loaded_at,
                        })
                    },
                    (None, Err(e)) => e == ModuleError::LoadFailure,
                    _ => false,
                }
            }
    }

    /// One check of the module with the shared state at `before` may leave the
    /// module at `after_self` and the shared state at `after`, and end in
    /// `res`: the source reports a stamp; only if the stamp calls for a reload
    /// the source is loaded, once, and the record takes in the outcome.
    pub open spec fn tried(
        &self,
        before: <L::Implementation as Behavior>::State,
        after_self: &Self,
        after: <L::Implementation as Behavior>::State,
        res: Result<bool, ModuleError>,
    ) -> bool {
        &&& after_self.loader() == self.loader()
        &&& exists|observed: u64, outcome: Option<L::Implementation>|
            {
                &&& self.loader().stamped(observed)
                &&& if self.record().reload_is_due(observed) {
                    self.loader().loaded(before, outcome, after)
                } else {
                    after == before
                }
                &&& after_self.record() == self.record().after_check(
                    observed,
                    outcome,
                    after_self.record().loaded_at,
                )
                &&& res == #[trigger] self.record().check_result(observed, outcome)
            }
    }

    /// Loads a module for the first time. If the source gives no
    /// implementation, there is no module.
    pub fn open(
        name: String,
        source: String,
        loader: L,
        state: &mut <L::Implementation as Behavior>::State,
    ) -> (res: Result<Self, ModuleError>)
        ensures
            Self::opened(name, source, loader, *old(state), *final(state), res),
    {
        let observed = loader.modified();
        let outcome = loader.load(state);
        let at = Timestamp::now();
        let ghost attempt = outcome;
        let res = match ModuleRecord::load(name, source, observed, outcome, at) {
            Ok(record) => Ok(HotModule { record, loader }),
            Err(e) => Err(e),
        };
        proof {
            assert(loader.stamped(observed));
            assert(loader.loaded(*old(state), attempt, *state));
        }
        res
    }

    /// The record of this module.
    pub fn get_record(&self) -> (record: &ModuleRecord<L::Implementation>)
        ensures
            *record == self.record(),
    {
        &self.record
    }

    /// Checks the source and takes in a fresh implementation if it has
    /// changed and loads. `Ok` says whether a fresh implementation is active;
    /// a failed attempt is an error, and leaves the module as it was.
    pub fn try_update(&mut self, state: &mut <L::Implementation as Behavior>::State) -> (res:
        Result<bool, ModuleError>)
        ensures
            old(self).tried(*old(state), final(self), *final(state), res),
            res is Err ==> final(self).record() == old(self).record(),
            res == Ok::<bool, ModuleError>(false) ==> final(self).record() == old(self).record(),
    {
        let observed = self.loader.modified();
        if self.record.reload_due(observed) {
            let outcome = self.loader.load(state);
            let at = Timestamp::now();
            let ghost attempt = outcome;
            let res = match self.record.reload(observed, outcome, at) {
                Ok(_) => Ok(true),
                Err(e) => Err(e),
            };
            proof {
                assert(res == old(self).record().check_result(observed, attempt));
            }
            res
        } else {
            proof {
                assert(old(self).record().check_result(observed, None) == Ok::<bool, ModuleError>(
                    false,
                ));
            }
            Ok(false)
        }
    }
}

impl<L: ModuleSource> Module for HotModule<L> {
    type State = <L::Implementation as Behavior>::State;

    /// The module goes by the name in its record.
    open spec fn named(&self, name: Seq<char>) -> bool {
        name == self.record().name@
    }

    /// A check is an attempt to update in which a failed reload counts as no
    /// reload: the implementation loaded before stays active.
    open spec fn checked(
        &self,
        before: Self::State,
        after_self: &Self,
        after: Self::State,
        applied: bool,
    ) -> bool {
        exists|res: Result<bool, ModuleError>|
            #[trigger] self.tried(before, after_self, after, res) && applied == (res == Ok::<
                bool,
                ModuleError,
            >(true))
    }

    /// An update of the module is a step of its active implementation. The
    /// time it reports is read off the wall clock.
    open spec fn updated(
        &self,
        before: Self::State,
        elapsed: Micros,
        after: Self::State,
        took: Micros,
    ) -> bool {
        self.record().active.stepped(before, elapsed, after)
    }

    fn get_name(&self) -> (name: String) {
        self.record.name.clone()
    }

    fn check_update(&mut self, state: &mut Self::State) -> (applied: bool)
        ensures
            !applied ==> final(self).record() == old(self).record(),
            applied ==> final(self).record().modified != old(self).record().modified,
    {
        let res = self.try_update(state);
        proof {
            assert(old(self).tried(*old(state), self, *state, res));
        }
        match res {
            Ok(applied) => applied,
            Err(_) => false,
        }
    }

    fn update(&self, state: &mut Self::State, elapsed: Micros) -> (took: Micros) {
        let start = Timestamp::now();
        self.record.active.update(state, elapsed);
        let end = Timestamp::now();
        start.micros_until(&end)
    }
}

} // verus!
