use goose_core::metrics::{Aggregator, RequestOutcome};
use goose_core::controller::{ControlAction, Controller, RunPhase};
use goose_core::schedule::{assign_users, hatch_offsets, validate_sets};
use goose_core::throttle::acquire;
use goose_core::sink::{frame_line, parse_debug_format, DebugFormat, Sink, SinkAction, SinkInput};
use goose_core::tasks::{
    phase_order, sequential_cycle, total_main_weight, validate_task_set, weighted_pick, SetupError,
    Task, TaskPhase, TaskSet,
};
use goose_core::throttle::Throttle;
use goose_core::user::{SelectionPolicy, UserAction, UserPhase, VirtualUser};

fn task(name: &str, weight: u64) -> Task {
    Task {
        name: name.to_string(),
        weight,
        sequence: None,
        on_start: false,
        on_stop: false,
    }
}

fn seq_task(name: &str, weight: u64, sequence: Option<u64>) -> Task {
    Task {
        sequence,
        ..task(name, weight)
    }
}

fn set(name: &str, weight: u64, tasks: Vec<Task>) -> TaskSet {
    TaskSet {
        name: name.to_string(),
        weight,
        tasks,
    }
}

fn outcome(method: &str, path: &str, elapsed: u64, success: bool) -> RequestOutcome {
    RequestOutcome {
        method: method.to_string(),
        path: path.to_string(),
        elapsed,
        success,
        timestamp: 0,
    }
}

#[test]
fn throttle_starts_full_and_drains() {
    let mut t = Throttle::new(3, 2);
    assert_eq!(t.tokens(), 3);
    assert!(t.try_acquire());
    assert!(t.try_acquire());
    assert!(t.try_acquire());
    assert!(!t.try_acquire());
    assert_eq!(t.tokens(), 0);
}

#[test]
fn throttle_refill_is_capped() {
    let mut t = Throttle::new(5, 2);
    for _ in 0..5 {
        assert!(t.try_acquire());
    }
    t.elapse(1);
    assert_eq!(t.tokens(), 2);
    t.elapse(10);
    assert_eq!(t.tokens(), 5);
    t.elapse(u64::MAX);
    assert_eq!(t.tokens(), 5);
}

#[test]
fn throttle_acquisitions_within_rate_bound() {
    let capacity: u64 = 10;
    let rate: u64 = 10;
    let mut t = Throttle::new(capacity, rate);
    let mut granted: u64 = 0;
    let window: u64 = 3;
    for _ in 0..window {
        for _ in 0..100 {
            if t.try_acquire() {
                granted += 1;
            }
        }
        t.elapse(1);
    }
    assert_eq!(granted, 30);
    assert!(granted <= capacity + rate * window);
}

#[test]
fn aggregator_counts_by_method_and_path() {
    let mut a = Aggregator::new();
    a.record(&outcome("GET", "/", 3, true));
    a.record(&outcome("GET", "/about.html", 5, false));
    a.record(&outcome("GET", "/", 4, true));
    let snap = a.snapshot(1, 2);
    assert_eq!(snap.requests.len(), 2);
    let index = snap.get("GET /").unwrap();
    assert_eq!(index.response_time_counter, 2);
    assert_eq!(index.total_response_time, 7);
    assert_eq!(index.success_count, 2);
    assert_eq!(index.fail_count, 0);
    let about = snap.get("GET /about.html").unwrap();
    assert_eq!(about.fail_count, 1);
    assert_eq!(about.success_count, 0);
    assert!(snap.get("POST /").is_none());
    assert_eq!(snap.duration, 1);
    assert_eq!(snap.users, 2);
}

#[test]
fn aggregator_loses_no_outcome() {
    let mut a = Aggregator::new();
    let paths = ["/", "/a", "/b", "/", "/a", "/"];
    for (i, p) in paths.iter().enumerate() {
        a.record(&outcome("GET", p, i as u64, i % 2 == 0));
    }
    let snap = a.snapshot(0, 0);
    let total: u64 = snap
        .requests
        .iter()
        .map(|m| m.success_count + m.fail_count)
        .sum();
    assert_eq!(total, paths.len() as u64);
    assert_eq!(a.recorded(), paths.len() as u64);
}

#[test]
fn aggregator_total_time_saturates() {
    let mut a = Aggregator::new();
    a.record(&outcome("GET", "/", u64::MAX, true));
    a.record(&outcome("GET", "/", 1, true));
    let snap = a.snapshot(0, 0);
    assert_eq!(snap.get("GET /").unwrap().total_response_time, u64::MAX);
}

#[test]
fn snapshot_twice_is_identical() {
    let mut a = Aggregator::new();
    a.record(&outcome("GET", "/", 3, true));
    a.record(&outcome("POST", "/login", 9, false));
    let first = a.snapshot(4, 2);
    let second = a.snapshot(4, 2);
    assert_eq!(first.requests.len(), second.requests.len());
    for (x, y) in first.requests.iter().zip(second.requests.iter()) {
        assert_eq!(x.key, y.key);
        assert_eq!(x.response_time_counter, y.response_time_counter);
        assert_eq!(x.total_response_time, y.total_response_time);
        assert_eq!(x.success_count, y.success_count);
        assert_eq!(x.fail_count, y.fail_count);
    }
}

#[test]
fn reset_keeps_keys_and_clears_counts() {
    let mut a = Aggregator::new();
    a.record(&outcome("GET", "/", 3, true));
    a.record(&outcome("GET", "/x", 3, false));
    a.reset();
    assert_eq!(a.recorded(), 0);
    let snap = a.snapshot(0, 0);
    assert_eq!(snap.requests.len(), 2);
    let m = snap.get("GET /x").unwrap();
    assert_eq!(m.response_time_counter, 0);
    assert_eq!(m.fail_count, 0);
    assert_eq!(m.total_response_time, 0);
}

#[test]
fn weighted_pick_follows_weight_line() {
    let mut start = task("login", 5);
    start.on_start = true;
    let tasks = vec![task("a", 2), start, task("b", 0), task("c", 3)];
    assert_eq!(total_main_weight(&tasks), Some(5));
    assert_eq!(weighted_pick(&tasks, 0), 0);
    assert_eq!(weighted_pick(&tasks, 1), 0);
    assert_eq!(weighted_pick(&tasks, 2), 3);
    assert_eq!(weighted_pick(&tasks, 4), 3);
}

#[test]
fn total_main_weight_overflow_is_none() {
    let tasks = vec![task("a", u64::MAX), task("b", 1)];
    assert_eq!(total_main_weight(&tasks), None);
}

#[test]
fn phase_order_sorts_by_sequence_then_registration() {
    let tasks = vec![
        seq_task("late", 1, None),
        seq_task("second", 1, Some(2)),
        seq_task("first", 1, Some(1)),
        seq_task("second_too", 1, Some(2)),
    ];
    assert_eq!(phase_order(&tasks, TaskPhase::Main), vec![2, 1, 3, 0]);
}

#[test]
fn phase_order_picks_start_and_stop_tasks() {
    let mut a = seq_task("a", 1, Some(3));
    a.on_start = true;
    let mut b = seq_task("b", 1, Some(1));
    b.on_start = true;
    let mut c = task("c", 1);
    c.on_stop = true;
    let tasks = vec![a, b, c, task("d", 1)];
    assert_eq!(phase_order(&tasks, TaskPhase::OnStart), vec![1, 0]);
    assert_eq!(phase_order(&tasks, TaskPhase::OnStop), vec![2]);
    assert_eq!(phase_order(&tasks, TaskPhase::Main), vec![3]);
}

#[test]
fn sequential_cycle_repeats_by_weight() {
    let tasks = vec![
        seq_task("b", 2, Some(2)),
        seq_task("a", 1, Some(1)),
        seq_task("c", 3, None),
    ];
    assert_eq!(sequential_cycle(&tasks), vec![1, 0, 0, 2, 2, 2]);
}

#[test]
fn single_task_sequential_has_period_one() {
    let ts = set("Only", 1, vec![task("only", 1)]);
    assert_eq!(sequential_cycle(&ts.tasks), vec![0]);
    let mut u = VirtualUser::new(&ts, SelectionPolicy::Sequential).unwrap();
    for _ in 0..5 {
        assert_eq!(u.next_action(&ts.tasks, 0), UserAction::RunTask(0));
    }
}

#[test]
fn validate_task_set_errors() {
    let mut only_start = task("s", 1);
    only_start.on_start = true;
    let empty = set("E", 1, vec![only_start]);
    assert_eq!(validate_task_set(&empty, 4), Err(SetupError::EmptyTaskSet(4)));
    let big = set("B", 1, vec![task("a", u64::MAX), task("b", 1)]);
    assert_eq!(validate_task_set(&big, 0), Err(SetupError::WeightOverflow));
    let ok = set("O", 1, vec![task("a", 2), task("b", 3)]);
    assert_eq!(validate_task_set(&ok, 0), Ok(5));
}

#[test]
fn validate_sets_errors() {
    assert_eq!(validate_sets(&vec![]), Err(SetupError::NoTaskSets));
    let sets = vec![
        set("A", 1, vec![task("a", 1)]),
        set("B", 1, vec![]),
        set("C", 1, vec![]),
    ];
    assert_eq!(validate_sets(&sets), Err(SetupError::EmptyTaskSet(1)));
    let zero = vec![set("A", 0, vec![task("a", 1)])];
    assert_eq!(validate_sets(&zero), Err(SetupError::NoTaskSetWeight));
    let huge = vec![
        set("A", u64::MAX, vec![task("a", 1)]),
        set("B", 1, vec![task("b", 1)]),
    ];
    assert_eq!(validate_sets(&huge), Err(SetupError::WeightOverflow));
}

#[test]
fn users_spread_over_weighted_sets() {
    let sets = vec![
        set("Index", 1, vec![task("get_index", 1)]),
        set("About", 1, vec![task("get_about", 1)]),
    ];
    assert_eq!(assign_users(&sets, 2), Ok(vec![0, 1]));
    let weighted = vec![
        set("A", 2, vec![task("a", 1)]),
        set("B", 1, vec![task("b", 1)]),
    ];
    assert_eq!(assign_users(&weighted, 7), Ok(vec![0, 0, 1, 0, 0, 1, 0]));
    assert_eq!(assign_users(&weighted, 1), Ok(vec![0]));
    assert_eq!(assign_users(&weighted, 0), Ok(vec![]));
}

#[test]
fn every_user_is_spawned() {
    let sets = vec![
        set("A", 3, vec![task("a", 1)]),
        set("B", 5, vec![task("b", 1)]),
    ];
    for users in [1usize, 2, 9, 40] {
        let v = assign_users(&sets, users).unwrap();
        assert_eq!(v.len(), users);
        assert_eq!(hatch_offsets(users as u64, 3).len(), users);
    }
}

#[test]
fn hatch_offsets_at_four_per_second() {
    let offsets = hatch_offsets(2, 4);
    assert_eq!(offsets, vec![0, 250]);
    assert!(offsets.iter().all(|&o| o < 500));
    assert_eq!(hatch_offsets(4, 3), vec![0, 333, 666, 1000]);
}

#[test]
fn controller_hatches_then_runs_then_stops() {
    let sets = vec![
        set("Index", 1, vec![task("get_index", 1)]),
        set("About", 1, vec![task("get_about", 1)]),
    ];
    let mut c = Controller::new(&sets, 2, 4, Some(1), true).unwrap();
    assert_eq!(c.phase(), RunPhase::Hatching);
    assert_eq!(c.on_tick(0), ControlAction::Spawn { user: 0, task_set: 0 });
    assert_eq!(c.on_tick(100), ControlAction::WaitUntil(250));
    assert_eq!(c.on_tick(250), ControlAction::Spawn { user: 1, task_set: 1 });
    assert_eq!(c.spawned(), 2);
    assert_eq!(c.on_tick(260), ControlAction::StartTimer { reset_metrics: true });
    assert_eq!(c.phase(), RunPhase::Running);
    assert_eq!(c.on_tick(700), ControlAction::WaitUntil(1260));
    assert_eq!(c.on_tick(1260), ControlAction::StopUsers);
    assert_eq!(c.phase(), RunPhase::Stopping);
    assert_eq!(c.on_tick(1300), ControlAction::Wait);
    assert_eq!(c.on_drained(), ControlAction::Collect { users: 2 });
    assert_eq!(c.phase(), RunPhase::Finished);
}

#[test]
fn controller_finishes_hatching_before_a_short_run_ends() {
    let sets = vec![set("A", 1, vec![task("a", 1)])];
    let mut c = Controller::new(&sets, 3, 1, Some(0), false).unwrap();
    let mut spawned = 0;
    let mut now: u64 = 0;
    loop {
        match c.on_tick(now) {
            ControlAction::Spawn { .. } => spawned += 1,
            ControlAction::WaitUntil(t) => now = t,
            ControlAction::StartTimer { reset_metrics } => assert!(!reset_metrics),
            ControlAction::StopUsers => break,
            other => panic!("unexpected {:?}", other),
        }
    }
    assert_eq!(spawned, 3);
    assert_eq!(now, 2000);
}

#[test]
fn controller_without_run_time_waits_for_interrupt() {
    let sets = vec![set("A", 1, vec![task("a", 1)])];
    let mut c = Controller::new(&sets, 1, 1, None, false).unwrap();
    assert_eq!(c.on_tick(0), ControlAction::Spawn { user: 0, task_set: 0 });
    assert_eq!(c.on_tick(0), ControlAction::StartTimer { reset_metrics: false });
    assert_eq!(c.on_tick(u64::MAX), ControlAction::Wait);
    assert_eq!(c.on_interrupt(), ControlAction::StopUsers);
    assert_eq!(c.on_interrupt(), ControlAction::Wait);
    assert_eq!(c.on_drained(), ControlAction::Collect { users: 1 });
}

#[test]
fn controller_refuses_bad_sets() {
    assert!(matches!(
        Controller::new(&vec![], 2, 1, None, false),
        Err(SetupError::NoTaskSets)
    ));
}

#[test]
fn disabled_throttle_never_blocks() {
    let mut none: Option<Throttle> = None;
    for _ in 0..1000 {
        assert!(acquire(&mut none));
    }
    let mut one = Some(Throttle::new(1, 0));
    assert!(acquire(&mut one));
    assert!(!acquire(&mut one));
}

#[test]
fn debug_format_names() {
    assert_eq!(parse_debug_format("json"), Ok(DebugFormat::Structured));
    assert_eq!(parse_debug_format("raw"), Ok(DebugFormat::Raw));
    assert_eq!(parse_debug_format("csv"), Err(SetupError::InvalidDebugFormat));
    assert_eq!(parse_debug_format(""), Err(SetupError::InvalidDebugFormat));
}

#[test]
fn frame_line_appends_newline() {
    assert_eq!(frame_line("{\"tag\":\"x\"}"), "{\"tag\":\"x\"}\n");
    assert_eq!(frame_line(""), "\n");
}

#[test]
fn sink_with_file_writes_and_flushes() {
    let mut s = Sink::new("debug.log", DebugFormat::Raw);
    assert!(s.has_file());
    assert_eq!(s.on_input(SinkInput::Record), SinkAction::Write(DebugFormat::Raw));
    s.on_written(true);
    assert_eq!(s.on_input(SinkInput::Record), SinkAction::Write(DebugFormat::Raw));
    s.on_written(false);
    assert!(s.is_running());
    assert_eq!(s.on_input(SinkInput::Shutdown), SinkAction::FlushAndStop);
    assert!(!s.is_running());
    assert_eq!(s.lines_written(), 1);
    assert_eq!(s.write_failures(), 1);
}

#[test]
fn sink_without_file_discards() {
    let mut s = Sink::new("", DebugFormat::Structured);
    assert!(!s.has_file());
    assert_eq!(s.on_input(SinkInput::Record), SinkAction::Discard);
    assert_eq!(s.discarded(), 1);
    assert_eq!(s.on_input(SinkInput::Closed), SinkAction::Stop);
    assert!(!s.is_running());
    assert_eq!(s.lines_written(), 0);
}

#[test]
fn user_runs_start_main_stop_in_order() {
    let mut login = seq_task("login", 1, Some(1));
    login.on_start = true;
    let mut logout = task("logout", 1);
    logout.on_stop = true;
    let ts = set("S", 1, vec![task("a", 1), login, task("b", 2), logout]);
    let mut u = VirtualUser::new(&ts, SelectionPolicy::Sequential).unwrap();
    assert_eq!(u.phase(), UserPhase::Idle);
    let mut seen = Vec::new();
    for _ in 0..5 {
        seen.push(u.next_action(&ts.tasks, 0));
    }
    u.request_stop();
    seen.push(u.next_action(&ts.tasks, 0));
    seen.push(u.next_action(&ts.tasks, 0));
    seen.push(u.next_action(&ts.tasks, 0));
    assert_eq!(
        seen,
        vec![
            UserAction::RunTask(1),
            UserAction::RunTask(0),
            UserAction::RunTask(2),
            UserAction::RunTask(2),
            UserAction::RunTask(0),
            UserAction::RunTask(3),
            UserAction::Finish,
            UserAction::Finish,
        ]
    );
    assert_eq!(u.phase(), UserPhase::Done);
}

#[test]
fn user_weighted_uses_draw() {
    let ts = set("W", 1, vec![task("a", 1), task("b", 3)]);
    let mut u = VirtualUser::new(&ts, SelectionPolicy::WeightedRandom).unwrap();
    assert_eq!(u.next_action(&ts.tasks, 0), UserAction::RunTask(0));
    assert_eq!(u.next_action(&ts.tasks, 1), UserAction::RunTask(1));
    assert_eq!(u.next_action(&ts.tasks, 4), UserAction::RunTask(0));
    assert_eq!(u.next_action(&ts.tasks, 7), UserAction::RunTask(1));
}

#[test]
fn user_of_empty_set_is_refused() {
    let ts = set("E", 1, vec![task("a", 0)]);
    assert!(matches!(
        VirtualUser::new(&ts, SelectionPolicy::Sequential),
        Err(SetupError::EmptyTaskSet(0))
    ));
    let huge = set("H", 1, vec![task("a", u64::MAX), task("b", u64::MAX)]);
    assert!(matches!(
        VirtualUser::new(&huge, SelectionPolicy::WeightedRandom),
        Err(SetupError::WeightOverflow)
    ));
}

/// Drives two users over the "Index" and "About" task sets; `about_fails`
/// makes every request to the about page fail. Returns the aggregator and
/// the sink after the run.
fn two_user_run(about_fails: bool) -> (Aggregator, Sink) {
    let sets = vec![
        set("Index", 1, vec![task("get_index", 1)]),
        set("About", 1, vec![task("get_about", 1)]),
    ];
    let paths = ["/", "/about.html"];
    let assignment = assign_users(&sets, 2).unwrap();
    assert!(hatch_offsets(2, 4).iter().all(|&o| o < 500));
    let mut users: Vec<VirtualUser> = assignment
        .iter()
        .map(|&s| VirtualUser::new(&sets[s], SelectionPolicy::WeightedRandom).unwrap())
        .collect();
    let mut agg = Aggregator::new();
    let mut sink = Sink::new("debug.log", DebugFormat::Raw);
    for round in 0..5u64 {
        for (u, &s) in users.iter_mut().zip(assignment.iter()) {
            if let UserAction::RunTask(_) = u.next_action(&sets[s].tasks, round) {
                let success = !(about_fails && s == 1);
                agg.record(&outcome("GET", paths[s], 1, success));
                if !success {
                    if let SinkAction::Write(_) = sink.on_input(SinkInput::Record) {
                        sink.on_written(true);
                    }
                }
            }
        }
    }
    for u in users.iter_mut() {
        u.request_stop();
    }
    assert_eq!(sink.on_input(SinkInput::Shutdown), SinkAction::FlushAndStop);
    (agg, sink)
}

#[test]
fn two_users_no_failures() {
    let (agg, sink) = two_user_run(false);
    let snap = agg.snapshot(1, 2);
    assert_eq!(snap.requests.len(), 2);
    for key in ["GET /", "GET /about.html"] {
        let m = snap.get(key).unwrap();
        assert_eq!(m.fail_count, 0);
        assert_eq!(m.response_time_counter, m.success_count);
    }
    assert_eq!(snap.users, 2);
    assert_eq!(sink.lines_written(), 0);
}

#[test]
fn two_users_about_fails() {
    let (agg, sink) = two_user_run(true);
    let snap = agg.snapshot(1, 2);
    let about = snap.get("GET /about.html").unwrap();
    assert!(about.fail_count > 0);
    assert_eq!(sink.lines_written(), about.fail_count);
    assert_eq!(snap.get("GET /").unwrap().fail_count, 0);
}
