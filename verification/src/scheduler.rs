//! The run-loop scheduler: a state machine that drives repeated probe
//! attempts under a run-mode policy, folds each attempt's liveness into
//! an aggregated verdict, and terminates on signal, probe failure or
//! run-mode exhaustion.
//!
//! The surrounding program owns the actual waiting (the probe, the
//! inter-attempt delay and the termination signals are raced there);
//! it reports which of the raced events won as an [`Event`], and this
//! module decides, with a verified transition, what happens next.
use vstd::prelude::*;

verus! {

/// How many probe iterations a run performs before terminating on its
/// own.
#[derive(Clone, Copy)]
pub enum RunMode {
    /// Exactly one iteration.
    OneShot,
    /// Iterate until a termination signal arrives.
    Forever,
    /// `Count(n)` performs `n + 1` iterations: the iteration counter is
    /// compared against `n` only after an iteration completes, and it
    /// starts at zero.
    Count(u128),
}

/// The phase the scheduler is in.
#[derive(Clone, Copy)]
pub enum Phase {
    /// A probe attempt is being raced against termination signals.
    Checking,
    /// The inter-attempt delay is being raced against termination
    /// signals.
    Delaying,
    /// The run is over; the aggregated verdict stands.
    Finished,
    /// A probe attempt failed; the run ended abnormally.
    Failed,
}

/// What the race of the current phase resolved to.
#[derive(Clone, Copy)]
pub enum Event {
    /// The probe completed with the given liveness outcome
    /// (only meaningful during [`Phase::Checking`]).
    ProbeDone(bool),
    /// The probe failed with a backend error
    /// (only meaningful during [`Phase::Checking`]).
    ProbeFailed,
    /// The inter-attempt delay elapsed
    /// (only meaningful during [`Phase::Delaying`]).
    DelayElapsed,
    /// A termination signal arrived (meaningful in either phase).
    TermSignal,
}

/// What the caller must do after a transition.
#[derive(Clone, Copy)]
pub enum Action {
    /// Start the next probe attempt and race it against termination
    /// signals.
    AwaitProbe,
    /// Emit the completed attempt's detail line, then race the
    /// inter-attempt delay against termination signals.
    EmitThenDelay,
    /// The run is over; the carried value is the aggregated verdict.
    Stop(bool),
    /// The probe failed; propagate the backend error outward.
    Abort,
}

/// The scheduler's whole state: configuration, aggregation state,
/// iteration counter and phase.
pub struct Scheduler {
    /// Run-mode policy, fixed for the whole run.
    pub run_mode: RunMode,
    /// When set, every attempt must report up for the verdict to be up;
    /// otherwise one attempt reporting up suffices.
    pub exclusive: bool,
    /// The aggregated verdict so far. Starts at `exclusive` and folds
    /// each attempt's outcome in with AND (exclusive) or OR
    /// (inclusive).
    pub accumulated_up: bool,
    /// Number of completed iterations the run-mode policy has already
    /// let pass. Increments only when the policy decides to continue.
    pub loop_count: u128,
    /// The phase the run is in.
    pub phase: Phase,
}

impl Scheduler {
    /// The state a run starts in.
    pub open spec fn init_spec(run_mode: RunMode, exclusive: bool) -> Scheduler {
        Scheduler {
            run_mode,
            exclusive,
            accumulated_up: exclusive,
            loop_count: 0,
            phase: Phase::Checking,
        }
    }

    /// One attempt's outcome folded into the aggregated verdict.
    pub open spec fn folded_up(self, up: bool) -> bool {
        if self.exclusive {
            self.accumulated_up && up
        } else {
            self.accumulated_up || up
        }
    }

    /// Whether the run-mode policy calls for termination once the
    /// current iteration has completed.
    pub open spec fn policy_terminates(self) -> bool {
        match self.run_mode {
            RunMode::OneShot => true,
            RunMode::Forever => false,
            RunMode::Count(n) => self.loop_count >= n,
        }
    }

    /// Whether `ev` can resolve the race of the current phase.
    pub open spec fn accepts(self, ev: Event) -> bool {
        match self.phase {
            Phase::Checking => !(ev matches Event::DelayElapsed),
            Phase::Delaying => ev matches Event::DelayElapsed || ev matches Event::TermSignal,
            Phase::Finished => false,
            Phase::Failed => false,
        }
    }

    /// The state after `ev` resolves the current phase's race. The
    /// iteration counter saturates instead of wrapping; saturation is
    /// reachable only in `Forever` mode, where the counter is never
    /// consulted.
    pub open spec fn step_spec(self, ev: Event) -> Scheduler {
        match (self.phase, ev) {
            (Phase::Checking, Event::ProbeDone(up)) => Scheduler {
                accumulated_up: self.folded_up(up),
                phase: Phase::Delaying,
                ..self
            },
            (Phase::Checking, Event::ProbeFailed) => Scheduler { phase: Phase::Failed, ..self },
            (Phase::Checking, Event::TermSignal) => Scheduler { phase: Phase::Finished, ..self },
            (Phase::Delaying, Event::DelayElapsed) => if self.policy_terminates() {
                Scheduler { phase: Phase::Finished, ..self }
            } else {
                Scheduler {
                    loop_count: if self.loop_count < u128::MAX {
                        (self.loop_count + 1) as u128
                    } else {
                        self.loop_count
                    },
                    phase: Phase::Checking,
                    ..self
                }
            },
            (Phase::Delaying, Event::TermSignal) => Scheduler { phase: Phase::Finished, ..self },
            _ => self,
        }
    }

    /// The action the caller must take after `ev` resolves the current
    /// phase's race.
    pub open spec fn action_spec(self, ev: Event) -> Action {
        match (self.phase, ev) {
            (Phase::Checking, Event::ProbeDone(_)) => Action::EmitThenDelay,
            (Phase::Checking, Event::ProbeFailed) => Action::Abort,
            (Phase::Checking, Event::TermSignal) => Action::Stop(self.accumulated_up),
            (Phase::Delaying, Event::DelayElapsed) => if self.policy_terminates() {
                Action::Stop(self.accumulated_up)
            } else {
                Action::AwaitProbe
            },
            (Phase::Delaying, Event::TermSignal) => Action::Stop(self.accumulated_up),
            _ => Action::Stop(self.accumulated_up),
        }
    }

    /// A fresh scheduler, about to race its first probe attempt.
    pub fn new(run_mode: RunMode, exclusive: bool) -> (s: Scheduler)
        ensures
            s == Scheduler::init_spec(run_mode, exclusive),
    {
        Scheduler {
            run_mode,
            exclusive,
            accumulated_up: exclusive,
            loop_count: 0,
            phase: Phase::Checking,
        }
    }

    /// Performs one transition of the state machine: folds a completed
    /// attempt into the verdict, records failure or termination, or
    /// consults the run-mode policy after a completed delay.
    pub fn step(&mut self, ev: Event) -> (a: Action)
        requires
            old(self).accepts(ev),
        ensures
            *final(self) == old(self).step_spec(ev),
            a == old(self).action_spec(ev),
    {
        let phase = self.phase;
        match (phase, ev) {
            (Phase::Checking, Event::ProbeDone(up)) => {
                if self.exclusive {
                    self.accumulated_up = self.accumulated_up && up;
                } else {
                    self.accumulated_up = self.accumulated_up || up;
                }
                self.phase = Phase::Delaying;
                Action::EmitThenDelay
            },
            (Phase::Checking, Event::ProbeFailed) => {
                self.phase = Phase::Failed;
                Action::Abort
            },
            (Phase::Delaying, Event::DelayElapsed) => {
                let terminate = match self.run_mode {
                    RunMode::OneShot => true,
                    RunMode::Forever => false,
                    RunMode::Count(n) => self.loop_count >= n,
                };
                if terminate {
                    self.phase = Phase::Finished;
                    Action::Stop(self.accumulated_up)
                } else {
                    if self.loop_count < u128::MAX {
                        self.loop_count = self.loop_count + 1;
                    }
                    self.phase = Phase::Checking;
                    Action::AwaitProbe
                }
            },
            _ => {
                self.phase = Phase::Finished;
                Action::Stop(self.accumulated_up)
            },
        }
    }
}

/// The state reached after the events of `evs` resolve the races of a
/// run that starts in `s`, in order.
pub open spec fn run_steps(s: Scheduler, evs: Seq<Event>) -> Scheduler
    decreases evs.len(),
{
    if evs.len() == 0 {
        s
    } else {
        run_steps(s.step_spec(evs.first()), evs.drop_first())
    }
}

/// Whether every event of `evs` can actually resolve the race of the
/// phase the run is in when the event arrives. Once the run is finished
/// or failed no further event is accepted, so a valid trace ends there.
pub open spec fn valid_trace(s: Scheduler, evs: Seq<Event>) -> bool
    decreases evs.len(),
{
    evs.len() == 0 || (s.accepts(evs.first()) && valid_trace(s.step_spec(evs.first()), evs.drop_first()))
}

/// The liveness outcomes of the completed probe attempts of `evs`, in
/// order.
pub open spec fn ups_of(evs: Seq<Event>) -> Seq<bool>
    decreases evs.len(),
{
    if evs.len() == 0 {
        Seq::empty()
    } else {
        match evs.first() {
            Event::ProbeDone(up) => seq![up] + ups_of(evs.drop_first()),
            _ => ups_of(evs.drop_first()),
        }
    }
}

/// The aggregation fold: starting from `acc`, AND each outcome in when
/// `exclusive` is set, OR it in otherwise.
pub open spec fn fold_verdict(exclusive: bool, acc: bool, ups: Seq<bool>) -> bool
    decreases ups.len(),
{
    if ups.len() == 0 {
        acc
    } else {
        fold_verdict(
            exclusive,
            if exclusive {
                acc && ups.first()
            } else {
                acc || ups.first()
            },
            ups.drop_first(),
        )
    }
}

/// Along any valid trace the aggregated verdict is exactly the
/// aggregation fold of the completed attempts' outcomes, and the
/// aggregation flag never changes.
pub proof fn lemma_verdict_folds(s: Scheduler, evs: Seq<Event>)
    requires
        valid_trace(s, evs),
    ensures
        run_steps(s, evs).accumulated_up == fold_verdict(
            s.exclusive,
            s.accumulated_up,
            ups_of(evs),
        ),
        run_steps(s, evs).exclusive == s.exclusive,
    decreases evs.len(),
{
    if evs.len() == 0 {
    } else {
        let s1 = s.step_spec(evs.first());
        lemma_verdict_folds(s1, evs.drop_first());
        match evs.first() {
            Event::ProbeDone(up) => {
                let rest = ups_of(evs.drop_first());
                assert((seq![up] + rest).first() == up);
                assert((seq![up] + rest).drop_first() =~= rest);
            },
            _ => {},
        }
    }
}

proof fn lemma_fold_and(acc: bool, ups: Seq<bool>)
    ensures
        fold_verdict(true, acc, ups) <==> (acc && (forall|i: int|
            0 <= i < ups.len() ==> ups[i])),
    decreases ups.len(),
{
    if ups.len() == 0 {
    } else {
        lemma_fold_and(acc && ups.first(), ups.drop_first());
        let rest = ups.drop_first();
        assert(forall|i: int| 0 <= i < rest.len() ==> rest[i] == ups[i + 1]);
        if acc && ups.first() && (forall|i: int| 0 <= i < rest.len() ==> rest[i]) {
            assert forall|i: int| 0 <= i < ups.len() implies ups[i] by {
                if i > 0 {
                    assert(rest[i - 1]);
                }
            }
        }
        if acc && (forall|i: int| 0 <= i < ups.len() ==> ups[i]) {
            assert(ups.first() == ups[0]);
            assert forall|i: int| 0 <= i < rest.len() implies rest[i] by {
                assert(ups[i + 1]);
            }
        }
    }
}

proof fn lemma_fold_or(acc: bool, ups: Seq<bool>)
    ensures
        fold_verdict(false, acc, ups) <==> (acc || (exists|i: int|
            0 <= i < ups.len() && ups[i])),
    decreases ups.len(),
{
    if ups.len() == 0 {
    } else {
        lemma_fold_or(acc || ups.first(), ups.drop_first());
        let rest = ups.drop_first();
        assert(forall|i: int| 0 <= i < rest.len() ==> rest[i] == ups[i + 1]);
        if fold_verdict(false, acc, ups) && !acc {
            if ups.first() {
                assert(ups[0]);
            } else {
                let i = choose|i: int| 0 <= i < rest.len() && rest[i];
                assert(ups[i + 1]);
            }
        }
        if !fold_verdict(false, acc, ups) && (exists|i: int| 0 <= i < ups.len() && ups[i]) {
            let i = choose|i: int| 0 <= i < ups.len() && ups[i];
            if i > 0 {
                assert(rest[i - 1]);
            }
        }
    }
}

/// With exclusive aggregation, the final verdict of any valid run is
/// the conjunction of the completed attempts' outcomes; in particular a
/// run with no completed attempt reports up.
pub proof fn lemma_exclusive_verdict_is_and(run_mode: RunMode, evs: Seq<Event>)
    requires
        valid_trace(Scheduler::init_spec(run_mode, true), evs),
    ensures
        run_steps(Scheduler::init_spec(run_mode, true), evs).accumulated_up <==> (forall|i: int|
            0 <= i < ups_of(evs).len() ==> ups_of(evs)[i]),
{
    lemma_verdict_folds(Scheduler::init_spec(run_mode, true), evs);
    lemma_fold_and(true, ups_of(evs));
}

/// With inclusive aggregation, the final verdict of any valid run is
/// the disjunction of the completed attempts' outcomes; in particular a
/// run with no completed attempt reports down.
pub proof fn lemma_inclusive_verdict_is_or(run_mode: RunMode, evs: Seq<Event>)
    requires
        valid_trace(Scheduler::init_spec(run_mode, false), evs),
    ensures
        run_steps(Scheduler::init_spec(run_mode, false), evs).accumulated_up <==> (exists|i: int|
            0 <= i < ups_of(evs).len() && ups_of(evs)[i]),
{
    lemma_verdict_folds(Scheduler::init_spec(run_mode, false), evs);
    lemma_fold_or(false, ups_of(evs));
}

/// A one-shot run completes exactly one checking phase, however the
/// termination signals are timed, provided nothing cuts that single
/// phase short: its first event is a completed probe.
pub proof fn lemma_oneshot_single_check(exclusive: bool, evs: Seq<Event>)
    requires
        valid_trace(Scheduler::init_spec(RunMode::OneShot, exclusive), evs),
        evs.len() > 0,
        evs.first() matches Event::ProbeDone(_),
    ensures
        ups_of(evs).len() == 1,
{
    let s0 = Scheduler::init_spec(RunMode::OneShot, exclusive);
    let s1 = s0.step_spec(evs.first());
    let rest = evs.drop_first();
    assert(valid_trace(s1, rest));
    if rest.len() > 0 {
        let s2 = s1.step_spec(rest.first());
        let rest2 = rest.drop_first();
        assert(s1.accepts(rest.first()));
        assert(valid_trace(s2, rest2));
        assert(s2.phase matches Phase::Finished);
        if rest2.len() > 0 {
            assert(s2.accepts(rest2.first()));
            assert(false);
        }
        assert(ups_of(rest) == ups_of(rest2));
        assert(ups_of(rest).len() == 0);
    }
    match evs.first() {
        Event::ProbeDone(up) => {
            assert(ups_of(evs) == seq![up] + ups_of(rest));
        },
        _ => {},
    }
}

/// The iteration count a `Count` run-mode was configured with; zero for
/// the other modes.
pub open spec fn count_of(m: RunMode) -> int {
    match m {
        RunMode::Count(n) => n as int,
        _ => 0,
    }
}

proof fn lemma_count_segment(s: Scheduler, evs: Seq<Event>)
    requires
        valid_trace(s, evs),
        s.run_mode matches RunMode::Count(_),
        forall|i: int|
            0 <= i < evs.len() ==> !((#[trigger] evs[i]) matches Event::TermSignal) && !(evs[i]
                matches Event::ProbeFailed),
        run_steps(s, evs).phase matches Phase::Finished,
        s.phase matches Phase::Checking || s.phase matches Phase::Delaying,
        s.loop_count <= count_of(s.run_mode),
    ensures
        s.phase matches Phase::Checking ==> ups_of(evs).len() == count_of(s.run_mode)
            - s.loop_count + 1,
        s.phase matches Phase::Delaying ==> ups_of(evs).len() == count_of(s.run_mode)
            - s.loop_count,
    decreases evs.len(),
{
    if evs.len() == 0 {
        assert(run_steps(s, evs) == s);
    } else {
        let ev = evs.first();
        assert(evs[0] == ev);
        let s1 = s.step_spec(ev);
        let rest = evs.drop_first();
        assert(forall|i: int| 0 <= i < rest.len() ==> rest[i] == evs[i + 1]);
        match s.phase {
            Phase::Checking => {
                assert(ev matches Event::ProbeDone(_));
                lemma_count_segment(s1, rest);
                match ev {
                    Event::ProbeDone(up) => {
                        assert(ups_of(evs) =~= seq![up] + ups_of(rest));
                    },
                    _ => {},
                }
            },
            Phase::Delaying => {
                assert(ev matches Event::DelayElapsed);
                if s.policy_terminates() {
                    assert(s1.phase matches Phase::Finished);
                    assert(valid_trace(s1, rest));
                    if rest.len() > 0 {
                        assert(s1.accepts(rest.first()));
                        assert(false);
                    }
                    assert(ups_of(evs) == ups_of(rest));
                    assert(ups_of(rest).len() == 0);
                    assert(s.loop_count == count_of(s.run_mode));
                } else {
                    lemma_count_segment(s1, rest);
                }
            },
            _ => {},
        }
    }
}

/// A `Count(n)` run that no termination signal and no probe failure
/// interrupts completes exactly `n + 1` checking phases before its
/// policy terminates it.
pub proof fn lemma_count_completes_n_plus_one(n: u128, exclusive: bool, evs: Seq<Event>)
    requires
        valid_trace(Scheduler::init_spec(RunMode::Count(n), exclusive), evs),
        forall|i: int|
            0 <= i < evs.len() ==> !((#[trigger] evs[i]) matches Event::TermSignal) && !(evs[i]
                matches Event::ProbeFailed),
        run_steps(Scheduler::init_spec(RunMode::Count(n), exclusive), evs).phase
            matches Phase::Finished,
    ensures
        ups_of(evs).len() == n + 1,
{
    lemma_count_segment(Scheduler::init_spec(RunMode::Count(n), exclusive), evs);
}

proof fn lemma_run_steps_snoc(s: Scheduler, evs: Seq<Event>, ev: Event)
    ensures
        run_steps(s, evs.push(ev)) == run_steps(s, evs).step_spec(ev),
    decreases evs.len(),
{
    if evs.len() == 0 {
        assert(evs.push(ev).first() == ev);
        assert(evs.push(ev).drop_first() =~= Seq::<Event>::empty());
        assert(run_steps(s, evs.push(ev)) == run_steps(
            s.step_spec(ev),
            Seq::<Event>::empty(),
        ));
        assert(run_steps(s.step_spec(ev), Seq::<Event>::empty()) == s.step_spec(ev));
    } else {
        assert(evs.push(ev).first() == evs.first());
        assert(evs.push(ev).drop_first() =~= evs.drop_first().push(ev));
        lemma_run_steps_snoc(s.step_spec(evs.first()), evs.drop_first(), ev);
        assert(run_steps(s, evs.push(ev)) == run_steps(
            s.step_spec(evs.first()),
            evs.drop_first().push(ev),
        ));
        assert(run_steps(s, evs) == run_steps(s.step_spec(evs.first()), evs.drop_first()));
    }
}

proof fn lemma_valid_trace_snoc(s: Scheduler, evs: Seq<Event>, ev: Event)
    requires
        valid_trace(s, evs),
        run_steps(s, evs).accepts(ev),
    ensures
        valid_trace(s, evs.push(ev)),
    decreases evs.len(),
{
    if evs.len() == 0 {
        assert(evs.push(ev).first() == ev);
        assert(evs.push(ev).drop_first() =~= Seq::<Event>::empty());
        assert(valid_trace(s.step_spec(ev), Seq::<Event>::empty()));
        assert(s.accepts(ev));
    } else {
        assert(evs.push(ev).first() == evs.first());
        assert(evs.push(ev).drop_first() =~= evs.drop_first().push(ev));
        assert(s.accepts(evs.first()));
        assert(valid_trace(s.step_spec(evs.first()), evs.drop_first()));
        assert(run_steps(s, evs) == run_steps(s.step_spec(evs.first()), evs.drop_first()));
        lemma_valid_trace_snoc(s.step_spec(evs.first()), evs.drop_first(), ev);
    }
}

proof fn lemma_ups_of_snoc(evs: Seq<Event>, ev: Event)
    ensures
        ups_of(evs.push(ev)) == (match ev {
            Event::ProbeDone(up) => ups_of(evs).push(up),
            _ => ups_of(evs),
        }),
    decreases evs.len(),
{
    if evs.len() == 0 {
        assert(evs.push(ev).first() == ev);
        assert(evs.push(ev).drop_first() =~= Seq::<Event>::empty());
        assert(ups_of(Seq::<Event>::empty()) == Seq::<bool>::empty());
        match ev {
            Event::ProbeDone(up) => {
                assert(ups_of(evs.push(ev)) == seq![up] + ups_of(Seq::<Event>::empty()));
                assert(seq![up] + ups_of(Seq::<Event>::empty()) =~= ups_of(evs).push(up));
            },
            _ => {
                assert(ups_of(evs.push(ev)) == ups_of(Seq::<Event>::empty()));
            },
        }
    } else {
        assert(evs.push(ev).first() == evs.first());
        assert(evs.push(ev).drop_first() =~= evs.drop_first().push(ev));
        lemma_ups_of_snoc(evs.drop_first(), ev);
        match evs.first() {
            Event::ProbeDone(u0) => {
                assert(ups_of(evs.push(ev)) == seq![u0] + ups_of(evs.drop_first().push(ev)));
                assert(ups_of(evs) == seq![u0] + ups_of(evs.drop_first()));
                match ev {
                    Event::ProbeDone(up) => {
                        assert(seq![u0] + ups_of(evs.drop_first()).push(up) =~= (seq![u0]
                            + ups_of(evs.drop_first())).push(up));
                    },
                    _ => {},
                }
            },
            _ => {
                assert(ups_of(evs.push(ev)) == ups_of(evs.drop_first().push(ev)));
                assert(ups_of(evs) == ups_of(evs.drop_first()));
            },
        }
    }
}

/// A termination signal that arrives during the delaying phase ends the
/// run at once: the run finishes, its verdict is the aggregation fold
/// of exactly the attempts completed before the signal, the signal
/// itself contributes no attempt, and no further event is accepted
/// afterwards.
pub proof fn lemma_signal_during_delay(run_mode: RunMode, exclusive: bool, evs: Seq<Event>)
    requires
        valid_trace(Scheduler::init_spec(run_mode, exclusive), evs),
        run_steps(Scheduler::init_spec(run_mode, exclusive), evs).phase matches Phase::Delaying,
    ensures
        valid_trace(Scheduler::init_spec(run_mode, exclusive), evs.push(Event::TermSignal)),
        run_steps(
            Scheduler::init_spec(run_mode, exclusive),
            evs.push(Event::TermSignal),
        ).phase matches Phase::Finished,
        run_steps(
            Scheduler::init_spec(run_mode, exclusive),
            evs.push(Event::TermSignal),
        ).accumulated_up == fold_verdict(exclusive, exclusive, ups_of(evs)),
        ups_of(evs.push(Event::TermSignal)) == ups_of(evs),
        forall|ev: Event|
            !run_steps(Scheduler::init_spec(run_mode, exclusive), evs.push(Event::TermSignal)).accepts(
                ev,
            ),
{
    let s0 = Scheduler::init_spec(run_mode, exclusive);
    lemma_run_steps_snoc(s0, evs, Event::TermSignal);
    lemma_valid_trace_snoc(s0, evs, Event::TermSignal);
    lemma_ups_of_snoc(evs, Event::TermSignal);
    lemma_verdict_folds(s0, evs);
}

} // verus!
