use game_state::clock::Timestamp;
use game_state::host::ModuleHost;
use game_state::module::Module;
use game_state::scheduler::{
    sleep_for, sum_durations, FrameScheduler, DEFAULT_FRAME_BUDGET, DEFAULT_RELOAD_INTERVAL,
    DEFAULT_REPORT_INTERVAL,
};

/// What the test modules share.
#[derive(Default)]
struct Shared {
    frame: u64,
    marker: u64,
    seen: Vec<u64>,
    elapsed: Vec<i64>,
    checks: u32,
}

/// A clears the marker, B writes the number of the frame into it, C notes
/// what it finds there.
enum Step {
    A,
    B,
    C,
    Takes(&'static str, i64),
}

impl Module for Step {
    type State = Shared;

    fn get_name(&self) -> String {
        match self {
            Step::A => "a".to_string(),
            Step::B => "b".to_string(),
            Step::C => "c".to_string(),
            Step::Takes(name, _) => name.to_string(),
        }
    }

    fn check_update(&mut self, state: &mut Shared) -> bool {
        state.checks += 1;
        matches!(self, Step::B)
    }

    fn update(&self, state: &mut Shared, elapsed: i64) -> i64 {
        match self {
            Step::A => {
                state.frame += 1;
                state.marker = 0;
                state.elapsed.push(elapsed);
                1
            }
            Step::B => {
                state.marker = state.frame;
                2
            }
            Step::C => {
                state.seen.push(state.marker);
                3
            }
            Step::Takes(_, took) => *took,
        }
    }
}

fn at(sec: i64, nsec: i32) -> Timestamp {
    Timestamp { sec, nsec }
}

fn host_of(steps: Vec<Step>) -> ModuleHost<Step> {
    let mut host = ModuleHost::new();
    for step in steps {
        host.register(Ok(step)).unwrap();
    }
    host
}

#[test]
fn later_modules_see_what_earlier_modules_did() {
    let mut host = host_of(vec![Step::A, Step::B, Step::C]);
    let mut state = Shared::default();
    let mut scheduler = FrameScheduler::with_defaults(at(0, 0));
    for frame in 1..=1000 {
        let outcome = scheduler.run_frame(&mut host, &mut state, at(frame, 0));
        assert_eq!(outcome.stats.durations, vec![1, 2, 3]);
        assert_eq!(state.seen.len() as i64, frame);
        assert_eq!(*state.seen.last().unwrap(), frame as u64);
    }
    let expected: Vec<u64> = (1..=1000).collect();
    assert_eq!(state.seen, expected);
}

#[test]
fn the_order_of_registration_decides() {
    let mut host = host_of(vec![Step::A, Step::C, Step::B]);
    let mut state = Shared::default();
    let mut scheduler = FrameScheduler::with_defaults(at(0, 0));
    for frame in 1..=10 {
        scheduler.run_frame(&mut host, &mut state, at(frame, 0));
    }
    assert_eq!(state.seen, vec![0; 10]);
}

#[test]
fn the_sleep_is_what_is_left_of_the_budget() {
    assert_eq!(sleep_for(16000, 0), 16000);
    assert_eq!(sleep_for(16000, 5000), 11000);
    assert_eq!(sleep_for(16000, 15999), 1);
    assert_eq!(sleep_for(16000, 16000), 0);
    assert_eq!(sleep_for(16000, 16001), 0);
    assert_eq!(sleep_for(16000, 1_000_000), 0);
    assert_eq!(sleep_for(0, 0), 0);
    assert_eq!(sleep_for(0, 1), 0);
}

#[test]
fn the_sleep_is_exact_at_the_edges() {
    assert_eq!(sleep_for(16000, -4000), 20000);
    assert_eq!(sleep_for(-10, -30), 20);
    assert_eq!(sleep_for(-10, -10), 0);
    assert_eq!(sleep_for(-10, 5), 0);
    assert_eq!(sleep_for(i64::MAX, i64::MIN as i128), u64::MAX as u128);
    assert_eq!(sleep_for(i64::MIN, i128::MIN), (1u128 << 127) - (1u128 << 63));
    assert_eq!(sleep_for(i64::MAX, i128::MIN), (1u128 << 127) + (i64::MAX as u128));
    assert_eq!(sleep_for(i64::MAX, i128::MAX), 0);
    assert_eq!(sleep_for(i64::MIN, i64::MIN as i128 - 1), 1);
}

#[test]
fn durations_add_up() {
    assert_eq!(sum_durations(&vec![]), 0);
    assert_eq!(sum_durations(&vec![1, 2, 3]), 6);
    assert_eq!(sum_durations(&vec![5, -7]), -2);
    assert_eq!(sum_durations(&vec![i64::MAX, i64::MAX, 2]), 2 * (i64::MAX as i128) + 2);
    assert_eq!(sum_durations(&vec![i64::MIN, i64::MIN]), 2 * (i64::MIN as i128));
}

#[test]
fn a_frame_within_budget_sleeps_for_the_rest() {
    let mut host = host_of(vec![Step::Takes("input", 1500), Step::Takes("sim", 2500)]);
    let mut state = Shared::default();
    let mut scheduler = FrameScheduler::new(16000, 30, 300, at(0, 0)).unwrap();
    let outcome = scheduler.run_frame(&mut host, &mut state, at(0, 16_000_000));
    assert_eq!(outcome.stats.durations, vec![1500, 2500]);
    assert_eq!(outcome.stats.total, 4000);
    assert_eq!(outcome.sleep, 12000);
}

#[test]
fn a_frame_over_budget_does_not_sleep() {
    let mut host = host_of(vec![Step::Takes("input", 1500), Step::Takes("sim", 14500)]);
    let mut state = Shared::default();
    let mut scheduler = FrameScheduler::new(16000, 30, 300, at(0, 0)).unwrap();
    let outcome = scheduler.run_frame(&mut host, &mut state, at(0, 16_000_000));
    assert_eq!(outcome.stats.total, 16000);
    assert_eq!(outcome.sleep, 0);

    let mut host = host_of(vec![Step::Takes("slow", 40_000)]);
    let outcome = scheduler.run_frame(&mut host, &mut state, at(0, 32_000_000));
    assert_eq!(outcome.stats.total, 40_000);
    assert_eq!(outcome.sleep, 0);
}

#[test]
fn a_frame_without_modules_sleeps_for_the_budget() {
    let mut host: ModuleHost<Step> = ModuleHost::new();
    let mut state = Shared::default();
    let mut scheduler = FrameScheduler::new(5000, 1, 1, at(0, 0)).unwrap();
    let outcome = scheduler.run_frame(&mut host, &mut state, at(1, 0));
    assert_eq!(outcome.stats.durations, Vec::<i64>::new());
    assert_eq!(outcome.stats.total, 0);
    assert_eq!(outcome.sleep, 5000);
    assert_eq!(outcome.reloads, Some(0));
    assert_eq!(outcome.report, Some(vec![]));
}

#[test]
fn modules_get_the_time_since_the_frame_before() {
    let mut host = host_of(vec![Step::A]);
    let mut state = Shared::default();
    let mut scheduler = FrameScheduler::with_defaults(at(100, 0));
    let first = scheduler.run_frame(&mut host, &mut state, at(100, 16_000_000));
    let second = scheduler.run_frame(&mut host, &mut state, at(100, 49_500_000));
    let third = scheduler.run_frame(&mut host, &mut state, at(101, 0));
    let fourth = scheduler.run_frame(&mut host, &mut state, at(100, 0));
    assert_eq!(first.elapsed, 16_000);
    assert_eq!(second.elapsed, 33_500);
    assert_eq!(third.elapsed, 950_500);
    assert_eq!(fourth.elapsed, -1_000_000);
    assert_eq!(state.elapsed, vec![16_000, 33_500, 950_500, -1_000_000]);
}

#[test]
fn sources_are_checked_every_thirtieth_frame() {
    let mut host = host_of(vec![Step::A, Step::B, Step::C]);
    let mut state = Shared::default();
    let mut scheduler = FrameScheduler::with_defaults(at(0, 0));
    assert!(scheduler.reload_due());
    assert!(scheduler.report_due());
    let mut checked = Vec::new();
    let mut reported = Vec::new();
    for frame in 0..601 {
        let outcome = scheduler.run_frame(&mut host, &mut state, at(frame, 0));
        if let Some(applied) = outcome.reloads {
            assert_eq!(applied, 1);
            checked.push(frame);
        }
        if let Some(names) = outcome.report {
            assert_eq!(names, vec!["a".to_string(), "b".to_string(), "c".to_string()]);
            reported.push(frame);
        }
    }
    let every_thirtieth: Vec<i64> = (0..=20).map(|k| k * 30).collect();
    assert_eq!(checked, every_thirtieth);
    assert_eq!(reported, vec![0, 300, 600]);
    assert_eq!(state.checks, 21 * 3);
}

#[test]
fn the_intervals_can_be_chosen() {
    let mut host = host_of(vec![Step::A]);
    let mut state = Shared::default();
    let mut scheduler = FrameScheduler::new(1000, 2, 3, at(0, 0)).unwrap();
    let mut checked = Vec::new();
    let mut reported = Vec::new();
    for frame in 0..7 {
        assert_eq!(scheduler.reload_due(), frame % 2 == 0);
        assert_eq!(scheduler.report_due(), frame % 3 == 0);
        let outcome = scheduler.run_frame(&mut host, &mut state, at(frame, 0));
        checked.push(outcome.reloads.is_some());
        reported.push(outcome.report.is_some());
    }
    assert_eq!(checked, vec![true, false, true, false, true, false, true]);
    assert_eq!(reported, vec![true, false, false, true, false, false, true]);
}

#[test]
fn an_interval_of_no_frames_is_refused() {
    assert!(FrameScheduler::new(16000, 0, 300, at(0, 0)).is_none());
    assert!(FrameScheduler::new(16000, 30, 0, at(0, 0)).is_none());
    assert!(FrameScheduler::new(16000, 0, 0, at(0, 0)).is_none());
    assert!(FrameScheduler::new(16000, 1, 1, at(0, 0)).is_some());
    assert!(FrameScheduler::new(-5, u64::MAX, u64::MAX, at(0, 0)).is_some());
}

#[test]
fn the_defaults() {
    assert_eq!(DEFAULT_FRAME_BUDGET, 16000);
    assert_eq!(DEFAULT_RELOAD_INTERVAL, 30);
    assert_eq!(DEFAULT_REPORT_INTERVAL, 300);
}

#[test]
fn a_tick_runs_a_frame_by_the_wall_clock() {
    let mut host = host_of(vec![Step::A, Step::B, Step::C]);
    let mut state = Shared::default();
    let mut scheduler = FrameScheduler::with_defaults(Timestamp::now());
    let outcome = scheduler.tick(&mut host, &mut state);
    assert!(outcome.elapsed >= 0 && outcome.elapsed < 60_000_000);
    assert_eq!(outcome.stats.total, 6);
    assert_eq!(outcome.sleep, 16000 - 6);
    assert_eq!(state.seen, vec![1]);
    assert_eq!(state.elapsed, vec![outcome.elapsed]);
}
