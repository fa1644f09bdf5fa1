use game_state::clock::Timestamp;
use game_state::host::ModuleHost;
use game_state::module::{Behavior, HotModule, Module, ModuleError, ModuleRecord, ModuleSource};
use std::cell::Cell;
use std::rc::Rc;

/// An implementation that leaves its version number in the shared state.
#[derive(Debug, PartialEq)]
struct Version(u32);

impl Behavior for Version {
    type State = Vec<u32>;

    fn update(&self, state: &mut Vec<u32>, _elapsed: i64) {
        state.push(self.0);
    }
}

/// A source whose stamp and whose fate the test controls.
struct Source {
    stamp: Rc<Cell<u64>>,
    broken: Rc<Cell<bool>>,
    attempts: Rc<Cell<u32>>,
}

impl ModuleSource for Source {
    type Implementation = Version;

    fn modified(&self) -> u64 {
        self.stamp.get()
    }

    fn load(&self, _state: &mut Vec<u32>) -> Option<Version> {
        self.attempts.set(self.attempts.get() + 1);
        if self.broken.get() {
            None
        } else {
            Some(Version(self.attempts.get()))
        }
    }
}

struct Rig {
    stamp: Rc<Cell<u64>>,
    broken: Rc<Cell<bool>>,
    attempts: Rc<Cell<u32>>,
}

impl Rig {
    fn new(stamp: u64) -> Rig {
        Rig {
            stamp: Rc::new(Cell::new(stamp)),
            broken: Rc::new(Cell::new(false)),
            attempts: Rc::new(Cell::new(0)),
        }
    }

    fn source(&self) -> Source {
        Source {
            stamp: self.stamp.clone(),
            broken: self.broken.clone(),
            attempts: self.attempts.clone(),
        }
    }

    fn open(&self, state: &mut Vec<u32>) -> Result<HotModule<Source>, ModuleError> {
        HotModule::open("sim".to_string(), "libsim.so#mod_sim".to_string(), self.source(), state)
    }
}

fn at(sec: i64) -> Timestamp {
    Timestamp { sec, nsec: 0 }
}

#[test]
fn a_first_load_gives_a_record() {
    let record =
        ModuleRecord::load("sim".to_string(), "libsim.so".to_string(), 5, Some(Version(1)), at(9));
    let record = record.ok().expect("the load succeeded");
    assert_eq!(record.name, "sim");
    assert_eq!(record.source, "libsim.so");
    assert_eq!(record.active, Version(1));
    assert_eq!(record.modified, 5);
    assert_eq!(record.loaded_at, at(9));
}

#[test]
fn a_failed_first_load_gives_no_record() {
    let record: Result<ModuleRecord<Version>, ModuleError> =
        ModuleRecord::load("sim".to_string(), "libsim.so".to_string(), 5, None, at(9));
    assert_eq!(record.err(), Some(ModuleError::LoadFailure));
}

#[test]
fn a_reload_is_due_when_the_stamp_differs() {
    let record =
        ModuleRecord::load("sim".to_string(), "libsim.so".to_string(), 5, Some(Version(1)), at(9))
            .ok()
            .unwrap();
    assert!(!record.reload_due(5));
    assert!(record.reload_due(6));
    assert!(record.reload_due(4));
    assert!(record.reload_due(0));
}

#[test]
fn a_successful_reload_swaps_the_implementation() {
    let mut record =
        ModuleRecord::load("sim".to_string(), "libsim.so".to_string(), 5, Some(Version(1)), at(9))
            .ok()
            .unwrap();
    assert_eq!(record.reload(6, Some(Version(2)), at(10)), Ok(Version(1)));
    assert_eq!(record.active, Version(2));
    assert_eq!(record.modified, 6);
    assert_eq!(record.loaded_at, at(10));
    assert_eq!(record.name, "sim");
    assert_eq!(record.source, "libsim.so");
    assert!(!record.reload_due(6));
    assert!(record.reload_due(5));
}

#[test]
fn a_failed_reload_keeps_the_implementation() {
    let mut record =
        ModuleRecord::load("sim".to_string(), "libsim.so".to_string(), 5, Some(Version(1)), at(9))
            .ok()
            .unwrap();
    assert_eq!(record.reload(6, None, at(10)), Err(ModuleError::ReloadFailure));
    assert_eq!(record.active, Version(1));
    assert_eq!(record.modified, 5);
    assert_eq!(record.loaded_at, at(9));
    assert!(record.reload_due(6));
}

#[test]
fn opening_a_module_loads_it_once() {
    let rig = Rig::new(100);
    let mut state = Vec::new();
    let module = rig.open(&mut state).ok().expect("the source loads");
    assert_eq!(rig.attempts.get(), 1);
    assert_eq!(module.get_name(), "sim");
    assert_eq!(module.get_record().source, "libsim.so#mod_sim");
    assert_eq!(module.get_record().modified, 100);
    assert_eq!(module.get_record().active, Version(1));
}

#[test]
fn opening_a_broken_module_fails() {
    let rig = Rig::new(100);
    rig.broken.set(true);
    let mut state = Vec::new();
    assert_eq!(rig.open(&mut state).err(), Some(ModuleError::LoadFailure));
    assert_eq!(rig.attempts.get(), 1);
}

#[test]
fn a_bumped_stamp_causes_exactly_one_reload() {
    let rig = Rig::new(100);
    let mut state = Vec::new();
    let mut module = rig.open(&mut state).ok().unwrap();

    assert!(!module.check_update(&mut state));
    assert_eq!(rig.attempts.get(), 1);

    rig.stamp.set(101);
    assert!(module.check_update(&mut state));
    assert_eq!(rig.attempts.get(), 2);
    assert_eq!(module.get_record().active, Version(2));
    assert_eq!(module.get_record().modified, 101);

    assert!(!module.check_update(&mut state));
    assert!(!module.check_update(&mut state));
    assert_eq!(rig.attempts.get(), 2);

    module.update(&mut state, 0);
    assert_eq!(state, vec![2]);
}

#[test]
fn a_failed_reload_leaves_the_module_running() {
    let rig = Rig::new(100);
    let mut state = Vec::new();
    let mut module = rig.open(&mut state).ok().unwrap();
    module.update(&mut state, 0);

    rig.stamp.set(101);
    rig.broken.set(true);
    assert!(!module.check_update(&mut state));
    assert_eq!(rig.attempts.get(), 2);
    assert_eq!(module.get_record().active, Version(1));
    assert_eq!(module.get_record().modified, 100);

    module.update(&mut state, 0);
    assert_eq!(state, vec![1, 1]);

    // The change is still there, so the next check tries again.
    assert_eq!(module.try_update(&mut state), Err(ModuleError::ReloadFailure));
    assert_eq!(rig.attempts.get(), 3);

    rig.broken.set(false);
    assert_eq!(module.try_update(&mut state), Ok(true));
    assert_eq!(rig.attempts.get(), 4);
    assert_eq!(module.get_record().active, Version(4));
    assert_eq!(module.try_update(&mut state), Ok(false));
    assert_eq!(rig.attempts.get(), 4);

    module.update(&mut state, 0);
    assert_eq!(state, vec![1, 1, 4]);
}

#[test]
fn an_update_reports_a_plausible_duration() {
    let rig = Rig::new(100);
    let mut state = Vec::new();
    let module = rig.open(&mut state).ok().unwrap();
    let took = module.update(&mut state, 16_000);
    assert!(took >= 0);
    assert!(took < 60_000_000);
    assert_eq!(state, vec![1]);
}

#[test]
fn a_module_that_fails_to_load_is_left_out() {
    let good = Rig::new(1);
    let bad = Rig::new(1);
    bad.broken.set(true);
    let later = Rig::new(1);
    let mut state = Vec::new();

    let mut host: ModuleHost<HotModule<Source>> = ModuleHost::new();
    assert_eq!(host.register(good.open(&mut state)), Ok(0));
    assert_eq!(host.register(bad.open(&mut state)), Err(ModuleError::LoadFailure));
    assert_eq!(host.register(later.open(&mut state)), Ok(1));
    assert_eq!(host.len(), 2);
    assert_eq!(host.names(), vec!["sim".to_string(), "sim".to_string()]);
    assert!(host.get(1).is_some());
    assert!(host.get(2).is_none());

    let durations = host.update_all(&mut state, 0);
    assert_eq!(durations.len(), 2);
    assert_eq!(state, vec![1, 1]);
}

#[test]
fn the_host_checks_every_module() {
    let a = Rig::new(1);
    let b = Rig::new(1);
    let c = Rig::new(1);
    let mut state = Vec::new();
    let mut host: ModuleHost<HotModule<Source>> = ModuleHost::new();
    host.register(a.open(&mut state)).unwrap();
    host.register(b.open(&mut state)).unwrap();
    host.register(c.open(&mut state)).unwrap();

    assert_eq!(host.check_updates(&mut state), 0);
    a.stamp.set(2);
    c.stamp.set(2);
    assert_eq!(host.check_updates(&mut state), 2);
    assert_eq!(host.check_updates(&mut state), 0);
    b.stamp.set(2);
    b.broken.set(true);
    assert_eq!(host.check_updates(&mut state), 0);
    assert_eq!(host.len(), 3);

    host.update_all(&mut state, 0);
    assert_eq!(state, vec![2, 1, 2]);
}
