use uup::scheduler::{Action, Event, RunMode, Scheduler};

#[test]
fn oneshot_runs_single_check() {
    let mut s = Scheduler::new(RunMode::OneShot, false);
    assert!(matches!(s.step(Event::ProbeDone(true)), Action::EmitThenDelay));
    match s.step(Event::DelayElapsed) {
        Action::Stop(up) => assert!(up),
        _ => panic!("one-shot run must stop after its first delay"),
    }
}

#[test]
fn count_zero_runs_one_check() {
    let mut s = Scheduler::new(RunMode::Count(0), false);
    assert!(matches!(s.step(Event::ProbeDone(true)), Action::EmitThenDelay));
    match s.step(Event::DelayElapsed) {
        Action::Stop(up) => assert!(up),
        _ => panic!("a Count(0) run must stop after one iteration"),
    }
}

#[test]
fn count_three_runs_four_checks() {
    let mut s = Scheduler::new(RunMode::Count(3), false);
    let mut checks: u32 = 0;
    loop {
        assert!(matches!(s.step(Event::ProbeDone(false)), Action::EmitThenDelay));
        checks += 1;
        match s.step(Event::DelayElapsed) {
            Action::AwaitProbe => continue,
            Action::Stop(up) => {
                assert!(!up);
                break;
            }
            _ => panic!("unexpected action after the delay"),
        }
    }
    assert_eq!(checks, 4);
}

#[test]
fn exclusive_verdict_is_conjunction() {
    let outcomes = [true, true, false, true];
    let mut s = Scheduler::new(RunMode::Count(3), true);
    for up in outcomes {
        assert!(matches!(s.step(Event::ProbeDone(up)), Action::EmitThenDelay));
        s.step(Event::DelayElapsed);
    }
    assert!(!s.accumulated_up);

    let mut all_up = Scheduler::new(RunMode::Count(2), true);
    for _ in 0..3 {
        all_up.step(Event::ProbeDone(true));
        all_up.step(Event::DelayElapsed);
    }
    assert!(all_up.accumulated_up);
}

#[test]
fn inclusive_verdict_is_disjunction() {
    let outcomes = [false, true, false];
    let mut s = Scheduler::new(RunMode::Count(2), false);
    for up in outcomes {
        assert!(matches!(s.step(Event::ProbeDone(up)), Action::EmitThenDelay));
        s.step(Event::DelayElapsed);
    }
    assert!(s.accumulated_up);

    let mut none_up = Scheduler::new(RunMode::Count(2), false);
    for _ in 0..3 {
        none_up.step(Event::ProbeDone(false));
        none_up.step(Event::DelayElapsed);
    }
    assert!(!none_up.accumulated_up);
}

#[test]
fn immediate_signal_yields_initial_verdict() {
    let mut exclusive = Scheduler::new(RunMode::Forever, true);
    match exclusive.step(Event::TermSignal) {
        Action::Stop(up) => assert!(up),
        _ => panic!("a signal during the checking phase must stop the run"),
    }

    let mut inclusive = Scheduler::new(RunMode::Forever, false);
    match inclusive.step(Event::TermSignal) {
        Action::Stop(up) => assert!(!up),
        _ => panic!("a signal during the checking phase must stop the run"),
    }
}

#[test]
fn signal_during_delay_keeps_completed_attempts() {
    let mut s = Scheduler::new(RunMode::Forever, false);
    s.step(Event::ProbeDone(false));
    s.step(Event::DelayElapsed);
    s.step(Event::ProbeDone(true));
    match s.step(Event::TermSignal) {
        Action::Stop(up) => assert!(up),
        _ => panic!("a signal during the delaying phase must stop the run"),
    }
}

#[test]
fn probe_failure_aborts() {
    let mut s = Scheduler::new(RunMode::Forever, true);
    s.step(Event::ProbeDone(true));
    s.step(Event::DelayElapsed);
    assert!(matches!(s.step(Event::ProbeFailed), Action::Abort));
}

#[test]
fn forever_mode_never_stops_by_policy() {
    let mut s = Scheduler::new(RunMode::Forever, false);
    for _ in 0..1000 {
        assert!(matches!(s.step(Event::ProbeDone(true)), Action::EmitThenDelay));
        assert!(matches!(s.step(Event::DelayElapsed), Action::AwaitProbe));
    }
}
