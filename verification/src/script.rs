//! The order of work when the screen changes hands.
//!
//! A play, a stop, a page and their failures are each a list of steps on the
//! player, the overlay, the clock and the browser. A `Run` hands the steps out
//! one at a time, is told how each went, and decides what comes next: go on,
//! give up, or put the clock back so that a failure never leaves a black
//! screen.

use vstd::prelude::*;

use crate::fcast::Real;

verus! {

/// One piece of work.
#[derive(Debug, Clone, Copy, PartialEq, Eq, Structural)]
pub enum Op {
    /// Take the web page on screen down.
    HidePage,
    /// Fade what is on screen to black.
    Conceal,
    /// Hide the clock.
    HideClock,
    /// Put the loading spinner up.
    SpawnSpinner,
    /// Submit the target to the player.
    LoadFile,
    /// Let the player run, which stays paused after an earlier file's end.
    Unpause,
    SetStart(Real),
    SetVolume(Real),
    SetSpeed(Real),
    /// Stop the player.
    StopMedia,
    /// Draw the clock, opaque, and keep it current.
    ShowClock,
    /// Display the target in the browser.
    ShowPage,
    /// Remove the spinner and keep the black behind it.
    StopSpinner,
    /// Draw the clock, transparent.
    RenderClock,
    /// Fade the clock in.
    FadeInClock,
    /// Remove the spinner and the black.
    ClearOverlay,
}

impl Op {
    /// Whether this work gives the screen to something else: it starts or ends
    /// media or a page, or shows or hides the clock.
    pub open spec fn changes_hands(self) -> bool {
        match self {
            Op::HidePage | Op::ShowPage | Op::LoadFile | Op::StopMedia | Op::ShowClock
            | Op::HideClock => true,
            _ => false,
        }
    }

    /// Whether every sender is told what is playing once this work is done.
    pub fn publishes(self) -> (r: bool)
        ensures
            r == self.changes_hands(),
    {
        match self {
            Op::HidePage | Op::ShowPage | Op::LoadFile | Op::StopMedia | Op::ShowClock
            | Op::HideClock => true,
            _ => false,
        }
    }
}

/// What a step's failure does to the run.
#[derive(Debug, Clone, Copy, PartialEq, Eq, Structural)]
pub enum OnError {
    /// Nothing: the run goes on.
    Ignore,
    /// The run ends.
    Fail,
    /// The run ends by returning to the clock.
    Abort,
    /// The run ends by putting the clock up at once.
    RollBack,
}

#[derive(Debug, Clone, Copy, PartialEq, Eq, Structural)]
pub struct Step {
    pub op: Op,
    pub on_error: OnError,
}

/// Work under way.
#[derive(Debug)]
pub struct Run {
    pub steps: Vec<Step>,
    /// Index of the step that is next.
    pub at: usize,
    /// Whether the run goes on by returning to the clock.
    pub then_idle: bool,
    /// Whether a step has failed that must not.
    pub failed: bool,
}

/// What is left of a run.
#[verifier::ext_equal]
pub struct RunView {
    pub rest: Seq<Step>,
    pub then_idle: bool,
    pub failed: bool,
}

impl View for Run {
    type V = RunView;

    open spec fn view(&self) -> RunView {
        RunView {
            rest: self.steps@.skip(self.at as int),
            then_idle: self.then_idle,
            failed: self.failed,
        }
    }
}

/// The step that does `op`.
pub open spec fn step(op: Op, on_error: OnError) -> Step {
    Step { op, on_error }
}

/// A run that has just begun.
pub open spec fn beginning(steps: Seq<Step>, then_idle: bool) -> RunView {
    RunView { rest: steps, then_idle, failed: false }
}

// ---------------------------------------------------------------------------
// The scripts
// ---------------------------------------------------------------------------

/// Steps that set `value`, if there is one; they do not matter enough to fail.
pub open spec fn optional(value: Option<Real>, op: spec_fn(Real) -> Op) -> Seq<Step> {
    match value {
        Some(v) => seq![step(op(v), OnError::Ignore)],
        None => Seq::empty(),
    }
}

/// Play media: fade to black, put the spinner up, and only then submit the
/// load, so that the spinner is there for the whole wait.
pub open spec fn media_steps(
    time: Option<Real>,
    volume: Option<Real>,
    speed: Option<Real>,
) -> Seq<Step> {
    seq![
        step(Op::HidePage, OnError::Ignore),
        step(Op::Conceal, OnError::Abort),
        step(Op::HideClock, OnError::Abort),
        step(Op::SpawnSpinner, OnError::Abort),
        step(Op::LoadFile, OnError::Abort),
        step(Op::Unpause, OnError::Abort),
    ] + optional(time, |v: Real| Op::SetStart(v)) + optional(volume, |v: Real| Op::SetVolume(v))
        + optional(speed, |v: Real| Op::SetSpeed(v))
}

/// Display a page: the engine first, so that a failure to start one leaves the
/// player as it is; then the player stops and the clock is behind the page.
pub open spec fn page_steps() -> Seq<Step> {
    seq![
        step(Op::ShowPage, OnError::Fail),
        step(Op::StopMedia, OnError::Fail),
        step(Op::ShowClock, OnError::Fail),
    ]
}

/// Media turned out not to be media: put the clock behind, and display a page.
pub open spec fn fall_back_steps() -> Seq<Step> {
    seq![
        step(Op::StopMedia, OnError::Ignore),
        step(Op::ShowClock, OnError::Ignore),
        step(Op::ShowPage, OnError::Fail),
    ]
}

/// Stop. With the clock up and nothing loading there is nothing to fade; while
/// loading the screen is black already.
pub open spec fn stop_steps(clock_showing: bool, loading: bool) -> Seq<Step> {
    if clock_showing && !loading {
        seq![
            step(Op::HidePage, OnError::Ignore),
            step(Op::StopMedia, OnError::Abort),
            step(Op::ShowClock, OnError::Fail),
        ]
    } else if loading {
        seq![step(Op::HidePage, OnError::Ignore), step(Op::StopMedia, OnError::Abort)]
    } else {
        seq![
            step(Op::HidePage, OnError::Ignore),
            step(Op::Conceal, OnError::Abort),
            step(Op::StopMedia, OnError::Abort),
        ]
    }
}

/// Return to the clock. Where it is up already it is only re-asserted; else it
/// is faded in over the black, which is dropped once the clock covers it.
pub open spec fn return_to_clock(clock_showing: bool) -> Seq<Step> {
    if clock_showing {
        seq![step(Op::ClearOverlay, OnError::Fail), step(Op::ShowClock, OnError::Fail)]
    } else {
        seq![
            step(Op::StopSpinner, OnError::RollBack),
            step(Op::RenderClock, OnError::RollBack),
            step(Op::FadeInClock, OnError::RollBack),
            step(Op::ClearOverlay, OnError::RollBack),
            step(Op::ShowClock, OnError::RollBack),
        ]
    }
}

/// Put the clock up at once, as far as that goes.
pub open spec fn roll_back() -> Seq<Step> {
    seq![step(Op::ClearOverlay, OnError::Ignore), step(Op::ShowClock, OnError::Ignore)]
}

/// A load will not start: bring the clock back, as far as that goes.
pub open spec fn restore_steps() -> Seq<Step> {
    seq![
        step(Op::StopSpinner, OnError::Ignore),
        step(Op::RenderClock, OnError::Ignore),
        step(Op::FadeInClock, OnError::Ignore),
        step(Op::ClearOverlay, OnError::Ignore),
        step(Op::ShowClock, OnError::Ignore),
    ]
}

impl RunView {
    /// Whether there is nothing left to do.
    pub open spec fn is_over(self) -> bool {
        self.rest.len() == 0
    }

    /// Whether this failure is the one that the run fails by.
    pub open spec fn blames(self, ok: bool) -> bool {
        !ok && self.rest[0].on_error != OnError::Ignore && !self.failed
    }

    /// The run after its next step, which went well or not, with the clock on
    /// screen or not.
    pub open spec fn after(self, ok: bool, clock_showing: bool) -> RunView {
        let done = self.rest[0];
        if ok || done.on_error == OnError::Ignore {
            if self.rest.len() == 1 && self.then_idle {
                RunView { rest: return_to_clock(clock_showing), then_idle: false, ..self }
            } else {
                RunView { rest: self.rest.drop_first(), ..self }
            }
        } else {
            RunView {
                rest: match done.on_error {
                    OnError::Abort => return_to_clock(clock_showing),
                    OnError::RollBack => roll_back(),
                    _ => Seq::empty(),
                },
                then_idle: false,
                failed: true,
            }
        }
    }
}

fn push_step(steps: &mut Vec<Step>, op: Op, on_error: OnError)
    ensures
        final(steps)@ == old(steps)@.push(step(op, on_error)),
{
    steps.push(Step { op, on_error });
}

fn return_to_clock_steps(clock_showing: bool) -> (r: Vec<Step>)
    ensures
        r@ == return_to_clock(clock_showing),
{
    let mut r: Vec<Step> = Vec::new();
    if clock_showing {
        push_step(&mut r, Op::ClearOverlay, OnError::Fail);
        push_step(&mut r, Op::ShowClock, OnError::Fail);
    } else {
        push_step(&mut r, Op::StopSpinner, OnError::RollBack);
        push_step(&mut r, Op::RenderClock, OnError::RollBack);
        push_step(&mut r, Op::FadeInClock, OnError::RollBack);
        push_step(&mut r, Op::ClearOverlay, OnError::RollBack);
        push_step(&mut r, Op::ShowClock, OnError::RollBack);
    }
    assert(r@ =~= return_to_clock(clock_showing));
    r
}

fn roll_back_steps() -> (r: Vec<Step>)
    ensures
        r@ == roll_back(),
{
    let mut r: Vec<Step> = Vec::new();
    push_step(&mut r, Op::ClearOverlay, OnError::Ignore);
    push_step(&mut r, Op::ShowClock, OnError::Ignore);
    assert(r@ =~= roll_back());
    r
}

impl Run {
    /// Whether the next step, if there is one, is in the list.
    pub open spec fn wf(self) -> bool {
        self.at <= self.steps@.len()
    }

    fn begin(steps: Vec<Step>, then_idle: bool) -> (r: Run)
        ensures
            r.wf(),
            r@ == beginning(steps@, then_idle),
    {
        let r: Run = Run { steps, at: 0, then_idle, failed: false };
        assert(r@ =~= beginning(steps@, then_idle));
        r
    }

    /// Play media, with the settings that came with it.
    pub fn media(time: Option<Real>, volume: Option<Real>, speed: Option<Real>) -> (r: Run)
        ensures
            r.wf(),
            r@ == beginning(media_steps(time, volume, speed), false),
    {
        let mut s: Vec<Step> = Vec::new();
        push_step(&mut s, Op::HidePage, OnError::Ignore);
        push_step(&mut s, Op::Conceal, OnError::Abort);
        push_step(&mut s, Op::HideClock, OnError::Abort);
        push_step(&mut s, Op::SpawnSpinner, OnError::Abort);
        push_step(&mut s, Op::LoadFile, OnError::Abort);
        push_step(&mut s, Op::Unpause, OnError::Abort);
        if let Some(v) = time {
            push_step(&mut s, Op::SetStart(v), OnError::Ignore);
        }
        if let Some(v) = volume {
            push_step(&mut s, Op::SetVolume(v), OnError::Ignore);
        }
        if let Some(v) = speed {
            push_step(&mut s, Op::SetSpeed(v), OnError::Ignore);
        }
        assert(s@ =~= media_steps(time, volume, speed));
        Run::begin(s, false)
    }

    /// Display a page.
    pub fn page() -> (r: Run)
        ensures
            r.wf(),
            r@ == beginning(page_steps(), false),
    {
        let mut s: Vec<Step> = Vec::new();
        push_step(&mut s, Op::ShowPage, OnError::Fail);
        push_step(&mut s, Op::StopMedia, OnError::Fail);
        push_step(&mut s, Op::ShowClock, OnError::Fail);
        assert(s@ =~= page_steps());
        Run::begin(s, false)
    }

    /// Display a page in place of media that would not load.
    pub fn fall_back() -> (r: Run)
        ensures
            r.wf(),
            r@ == beginning(fall_back_steps(), false),
    {
        let mut s: Vec<Step> = Vec::new();
        push_step(&mut s, Op::StopMedia, OnError::Ignore);
        push_step(&mut s, Op::ShowClock, OnError::Ignore);
        push_step(&mut s, Op::ShowPage, OnError::Fail);
        assert(s@ =~= fall_back_steps());
        Run::begin(s, false)
    }

    /// Stop, with the clock on screen or not, and a load under way or not.
    pub fn stop(clock_showing: bool, loading: bool) -> (r: Run)
        ensures
            r.wf(),
            r@ == beginning(
                stop_steps(clock_showing, loading),
                !(clock_showing && !loading),
            ),
    {
        let mut s: Vec<Step> = Vec::new();
        let already_idle: bool = clock_showing && !loading;
        push_step(&mut s, Op::HidePage, OnError::Ignore);
        if !already_idle && !loading {
            push_step(&mut s, Op::Conceal, OnError::Abort);
        }
        push_step(&mut s, Op::StopMedia, OnError::Abort);
        if already_idle {
            push_step(&mut s, Op::ShowClock, OnError::Fail);
        }
        assert(s@ =~= stop_steps(clock_showing, loading));
        Run::begin(s, !already_idle)
    }

    /// Bring the clock back because a load will not start.
    pub fn restore_clock() -> (r: Run)
        ensures
            r.wf(),
            r@ == beginning(restore_steps(), false),
    {
        let mut s: Vec<Step> = Vec::new();
        push_step(&mut s, Op::StopSpinner, OnError::Ignore);
        push_step(&mut s, Op::RenderClock, OnError::Ignore);
        push_step(&mut s, Op::FadeInClock, OnError::Ignore);
        push_step(&mut s, Op::ClearOverlay, OnError::Ignore);
        push_step(&mut s, Op::ShowClock, OnError::Ignore);
        assert(s@ =~= restore_steps());
        Run::begin(s, false)
    }

    /// Return to the clock, with the clock on screen or not.
    pub fn abort_to_idle(clock_showing: bool) -> (r: Run)
        ensures
            r.wf(),
            r@ == beginning(return_to_clock(clock_showing), false),
    {
        Run::begin(return_to_clock_steps(clock_showing), false)
    }

    /// The next piece of work, or `None` when the run is over.
    pub fn next(&self) -> (r: Option<Op>)
        requires
            self.wf(),
        ensures
            r == if self@.is_over() {
                None
            } else {
                Some(self@.rest[0].op)
            },
    {
        if self.at < self.steps.len() {
            Some(self.steps[self.at].op)
        } else {
            None
        }
    }

    /// Whether the run has failed.
    pub fn has_failed(&self) -> (r: bool)
        ensures
            r == self@.failed,
    {
        self.failed
    }

    /// The next piece of work was done, or failed. Says whether this failure
    /// is the one to report.
    pub fn report(&mut self, ok: bool, clock_showing: bool) -> (r: bool)
        requires
            old(self).wf(),
            !old(self)@.is_over(),
        ensures
            final(self).wf(),
            final(self)@ == old(self)@.after(ok, clock_showing),
            r == old(self)@.blames(ok),
    {
        let ghost before = self@;
        let n: usize = self.steps.len();
        let done: Step = self.steps[self.at];
        assert(done == before.rest[0]);
        if ok || done.on_error == OnError::Ignore {
            self.at = self.at + 1;
            if self.at == n && self.then_idle {
                self.steps = return_to_clock_steps(clock_showing);
                self.at = 0;
                self.then_idle = false;
            }
            assert(self@ =~= before.after(ok, clock_showing));
            return false;
        }
        let blamed: bool = !self.failed;
        self.steps = match done.on_error {
            OnError::Abort => return_to_clock_steps(clock_showing),
            OnError::RollBack => roll_back_steps(),
            _ => Vec::new(),
        };
        self.at = 0;
        self.then_idle = false;
        self.failed = true;
        assert(self@ =~= before.after(ok, clock_showing));
        blamed
    }
}

// ---------------------------------------------------------------------------
// Laws
// ---------------------------------------------------------------------------

/// How one step went: whether it succeeded, and whether the clock was on
/// screen when it was over.
pub struct Outcome {
    pub ok: bool,
    pub clock_showing: bool,
}

/// The run after its first steps went as `outcomes` says.
pub open spec fn after_all(run: RunView, outcomes: Seq<Outcome>) -> RunView
    decreases outcomes.len(),
{
    if run.is_over() || outcomes.len() == 0 {
        run
    } else {
        after_all(
            run.after(outcomes[0].ok, outcomes[0].clock_showing),
            outcomes.drop_first(),
        )
    }
}

/// The work that a run does while its steps go as `outcomes` says.
pub open spec fn trace(run: RunView, outcomes: Seq<Outcome>) -> Seq<Op>
    decreases outcomes.len(),
{
    if run.is_over() || outcomes.len() == 0 {
        Seq::empty()
    } else {
        seq![run.rest[0].op] + trace(
            run.after(outcomes[0].ok, outcomes[0].clock_showing),
            outcomes.drop_first(),
        )
    }
}

spec fn only_ends(steps: Seq<Step>) -> bool {
    forall|i: int|
        0 <= i < steps.len() ==> (#[trigger] steps[i]).on_error == OnError::Ignore
            || steps[i].on_error == OnError::Fail
}

spec fn never_aborts(steps: Seq<Step>) -> bool {
    forall|i: int| 0 <= i < steps.len() ==> (#[trigger] steps[i]).on_error != OnError::Abort
}

/// An upper bound on the steps that a run still takes: those it has, five to
/// return to the clock, and two to put it up at once.
pub closed spec fn bound(run: RunView) -> nat {
    if !run.then_idle && only_ends(run.rest) {
        run.rest.len()
    } else if !run.then_idle && never_aborts(run.rest) {
        run.rest.len() + 2
    } else {
        run.rest.len() + 7
    }
}

/// Every run ends: each step, however it goes, brings the end nearer.
pub proof fn lemma_runs_end(run: RunView, ok: bool, clock_showing: bool)
    requires
        !run.is_over(),
    ensures
        bound(run.after(ok, clock_showing)) < bound(run),
        bound(run) <= run.rest.len() + 7,
{
    let next = run.after(ok, clock_showing);
    let done = run.rest[0];
    if ok || done.on_error == OnError::Ignore {
        if run.rest.len() == 1 && run.then_idle {
            assert(never_aborts(next.rest));
        } else {
            assert forall|i: int| 0 <= i < next.rest.len() implies #[trigger] next.rest[i]
                == run.rest[i + 1] by {}
        }
    } else if done.on_error == OnError::Abort {
        assert(!only_ends(run.rest));
        assert(!never_aborts(run.rest));
        assert(never_aborts(next.rest));
    } else if done.on_error == OnError::RollBack {
        assert(!only_ends(run.rest));
        assert(only_ends(next.rest));
    } else {
        assert(only_ends(next.rest));
    }
}

proof fn lemma_rolling_back_ends_at_the_clock(run: RunView, outcomes: Seq<Outcome>)
    requires
        !run.then_idle,
        run.rest == roll_back(),
        after_all(run, outcomes).is_over(),
    ensures
        trace(run, outcomes).len() > 0,
        trace(run, outcomes).last() == Op::ShowClock,
{
    reveal_with_fuel(after_all, 3);
    reveal_with_fuel(trace, 3);
    assert(outcomes.len() >= 2);
    let one = run.after(outcomes[0].ok, outcomes[0].clock_showing);
    assert(one.rest =~= seq![step(Op::ShowClock, OnError::Ignore)]);
    let two = one.after(outcomes[1].ok, outcomes[1].clock_showing);
    assert(two.rest =~= Seq::<Step>::empty());
    assert(outcomes.drop_first()[0] == outcomes[1]);
    assert(trace(two, outcomes.drop_first().drop_first()) =~= Seq::<Op>::empty());
    assert(trace(run, outcomes) =~= seq![Op::ClearOverlay, Op::ShowClock]);
}

proof fn lemma_fading_in_ends_at_the_clock(run: RunView, k: int, outcomes: Seq<Outcome>)
    requires
        !run.then_idle,
        0 <= k < return_to_clock(false).len(),
        run.rest == return_to_clock(false).skip(k),
        after_all(run, outcomes).is_over(),
    ensures
        trace(run, outcomes).len() > 0,
        trace(run, outcomes).last() == Op::ShowClock,
    decreases outcomes.len(),
{
    assert(outcomes.len() > 0);
    let next = run.after(outcomes[0].ok, outcomes[0].clock_showing);
    let later = outcomes.drop_first();
    if outcomes[0].ok {
        assert(next.rest =~= return_to_clock(false).skip(k + 1));
        if k + 1 < return_to_clock(false).len() {
            lemma_fading_in_ends_at_the_clock(next, k + 1, later);
        } else {
            assert(next.is_over());
            assert(trace(next, later) =~= Seq::<Op>::empty());
        }
    } else {
        assert(run.rest[0] == return_to_clock(false)[k]);
        lemma_rolling_back_ends_at_the_clock(next, later);
    }
    assert(trace(run, outcomes).last() == if trace(next, later).len() > 0 {
        trace(next, later).last()
    } else {
        run.rest[0].op
    });
}

/// Whether each step that can fail the run returns to the clock when it does.
pub open spec fn falls_back_to_clock(steps: Seq<Step>) -> bool {
    forall|i: int|
        0 <= i < steps.len() ==> (#[trigger] steps[i]).on_error == OnError::Ignore
            || steps[i].on_error == OnError::Abort
}

/// A failure never leaves a black screen: where every step that can fail
/// returns to the clock, a run that failed did so with the clock on screen or
/// ended by putting it there.
pub proof fn lemma_a_failed_run_ends_at_the_clock(run: RunView, outcomes: Seq<Outcome>)
    requires
        falls_back_to_clock(run.rest),
        !run.then_idle,
        !run.failed,
        after_all(run, outcomes).is_over(),
        after_all(run, outcomes).failed,
    ensures
        (trace(run, outcomes).len() > 0 && trace(run, outcomes).last() == Op::ShowClock) || exists|
            i: int,
        |
            0 <= i < outcomes.len() && !(#[trigger] outcomes[i]).ok && outcomes[i].clock_showing,
    decreases outcomes.len(),
{
    let next = run.after(outcomes[0].ok, outcomes[0].clock_showing);
    let later = outcomes.drop_first();
    if outcomes[0].ok || run.rest[0].on_error == OnError::Ignore {
        assert(next.rest =~= run.rest.drop_first());
        assert(falls_back_to_clock(next.rest));
        lemma_a_failed_run_ends_at_the_clock(next, later);
        if exists|i: int|
            0 <= i < later.len() && !(#[trigger] later[i]).ok && later[i].clock_showing {
            let i = choose|i: int|
                0 <= i < later.len() && !(#[trigger] later[i]).ok && later[i].clock_showing;
            assert(outcomes[i + 1] == later[i]);
        }
    } else if !outcomes[0].clock_showing {
        assert(next.rest =~= return_to_clock(false).skip(0));
        lemma_fading_in_ends_at_the_clock(next, 0, later);
    }
    if trace(next, later).len() > 0 {
        assert(trace(run, outcomes).last() == trace(next, later).last());
    }
}

/// A media play is such a run.
pub proof fn lemma_playing_media_falls_back_to_the_clock(
    time: Option<Real>,
    volume: Option<Real>,
    speed: Option<Real>,
)
    ensures
        falls_back_to_clock(media_steps(time, volume, speed)),
{
}

spec fn heads_for_clock(run: RunView) -> bool {
    &&& run.rest.len() > 0
    &&& forall|i: int|
        0 <= i < run.rest.len() ==> (#[trigger] run.rest[i]).on_error == OnError::Ignore
            || run.rest[i].on_error == OnError::Abort || (i == run.rest.len() - 1
            && run.rest[i] == step(Op::ShowClock, OnError::Fail))
    &&& run.then_idle || run.rest.last().op == Op::ShowClock
}

proof fn lemma_heading_for_the_clock_gets_there(run: RunView, outcomes: Seq<Outcome>)
    requires
        heads_for_clock(run),
        after_all(run, outcomes).is_over(),
    ensures
        (trace(run, outcomes).len() > 0 && trace(run, outcomes).last() == Op::ShowClock) || exists|
            i: int,
        |
            0 <= i < outcomes.len() && (#[trigger] outcomes[i]).clock_showing,
    decreases outcomes.len(),
{
    assert(outcomes.len() > 0);
    let next = run.after(outcomes[0].ok, outcomes[0].clock_showing);
    let later = outcomes.drop_first();
    if outcomes[0].clock_showing {
        assert(outcomes[0].clock_showing);
    } else if outcomes[0].ok || run.rest[0].on_error == OnError::Ignore {
        if run.rest.len() > 1 {
            assert forall|i: int| 0 <= i < next.rest.len() implies (
            #[trigger] next.rest[i]).on_error == OnError::Ignore || next.rest[i].on_error
                == OnError::Abort || (i == next.rest.len() - 1 && next.rest[i] == step(
                Op::ShowClock,
                OnError::Fail,
            )) by {
                assert(next.rest[i] == run.rest[i + 1]);
            }
            lemma_heading_for_the_clock_gets_there(next, later);
            if exists|i: int| 0 <= i < later.len() && (#[trigger] later[i]).clock_showing {
                let i = choose|i: int|
                    0 <= i < later.len() && (#[trigger] later[i]).clock_showing;
                assert(outcomes[i + 1] == later[i]);
            }
        } else if run.then_idle {
            assert(next.rest =~= return_to_clock(false).skip(0));
            lemma_fading_in_ends_at_the_clock(next, 0, later);
        } else {
            assert(next.is_over());
        }
    } else if run.rest[0].on_error == OnError::Abort {
        assert(next.rest =~= return_to_clock(false).skip(0));
        lemma_fading_in_ends_at_the_clock(next, 0, later);
    } else {
        assert(run.rest[0].op == Op::ShowClock);
        assert(next.is_over());
    }
    if trace(next, later).len() > 0 {
        assert(trace(run, outcomes).last() == trace(next, later).last());
    }
}

/// A stop ends at the clock, however its steps go: it ends by putting the
/// clock up, or the clock was seen on screen on the way.
pub proof fn lemma_a_stop_ends_at_the_clock(
    clock_showing: bool,
    loading: bool,
    outcomes: Seq<Outcome>,
)
    requires
        after_all(
            beginning(stop_steps(clock_showing, loading), !(clock_showing && !loading)),
            outcomes,
        ).is_over(),
    ensures
        ({
            let done = trace(
                beginning(stop_steps(clock_showing, loading), !(clock_showing && !loading)),
                outcomes,
            );
            done.len() > 0 && done.last() == Op::ShowClock
        }) || exists|i: int|
            0 <= i < outcomes.len() && (#[trigger] outcomes[i]).clock_showing,
{
    lemma_heading_for_the_clock_gets_there(
        beginning(stop_steps(clock_showing, loading), !(clock_showing && !loading)),
        outcomes,
    );
}

proof fn lemma_no_load_from_here(run: RunView, outcomes: Seq<Outcome>, i: int)
    requires
        forall|j: int| 0 <= j < run.rest.len() ==> (#[trigger] run.rest[j]).op != Op::LoadFile,
        0 <= i < trace(run, outcomes).len(),
    ensures
        trace(run, outcomes)[i] != Op::LoadFile,
    decreases outcomes.len(),
{
    let next = run.after(outcomes[0].ok, outcomes[0].clock_showing);
    let later = outcomes.drop_first();
    if i > 0 {
        assert forall|j: int| 0 <= j < next.rest.len() implies (#[trigger] next.rest[j]).op
            != Op::LoadFile by {
            if next.rest == run.rest.drop_first() {
                assert(next.rest[j] == run.rest[j + 1]);
            }
        }
        lemma_no_load_from_here(next, later, i - 1);
    }
}

proof fn lemma_load_comes_after(run: RunView, outcomes: Seq<Outcome>, k: int, i: int)
    requires
        !run.then_idle,
        0 <= k < run.rest.len(),
        forall|j: int|
            0 <= j < run.rest.len() ==> ((#[trigger] run.rest[j]).op == Op::LoadFile <==> j == k),
        0 <= i < trace(run, outcomes).len(),
        trace(run, outcomes)[i] == Op::LoadFile,
    ensures
        i == k < outcomes.len(),
        forall|j: int|
            0 <= j < k ==> #[trigger] trace(run, outcomes)[j] == run.rest[j].op,
        forall|j: int|
            0 <= j < k && run.rest[j].on_error != OnError::Ignore ==> (#[trigger] outcomes[j]).ok,
    decreases outcomes.len(),
{
    let next = run.after(outcomes[0].ok, outcomes[0].clock_showing);
    let later = outcomes.drop_first();
    if i == 0 {
        assert(run.rest[0].op == Op::LoadFile);
    } else {
        assert(trace(next, later)[i - 1] == Op::LoadFile);
        if next.rest != run.rest.drop_first() {
            lemma_no_load_from_here(next, later, i - 1);
        } else if k == 0 {
            assert forall|j: int| 0 <= j < next.rest.len() implies (#[trigger] next.rest[j]).op
                != Op::LoadFile by {
                assert(next.rest[j] == run.rest[j + 1]);
            }
            lemma_no_load_from_here(next, later, i - 1);
        } else {
            assert forall|j: int| 0 <= j < next.rest.len() implies ((#[trigger] next.rest[j]).op
                == Op::LoadFile <==> j == k - 1) by {
                assert(next.rest[j] == run.rest[j + 1]);
            }
            lemma_load_comes_after(next, later, k - 1, i - 1);
            assert forall|j: int| 0 <= j < k implies #[trigger] trace(run, outcomes)[j]
                == run.rest[j].op by {
                if j > 0 {
                    assert(trace(next, later)[j - 1] == next.rest[j - 1].op);
                }
            }
            assert forall|j: int|
                0 <= j < k && run.rest[j].on_error != OnError::Ignore implies (
            #[trigger] outcomes[j]).ok by {
                if j > 0 {
                    assert(later[j - 1] == outcomes[j]);
                    assert(next.rest[j - 1] == run.rest[j]);
                }
            }
        }
    }
}

/// A load is submitted only with the screen black and the spinner up: in every
/// media play, however its steps go, what comes before the load is exactly
/// this, and it all succeeded.
pub proof fn lemma_the_spinner_is_up_before_the_load(
    time: Option<Real>,
    volume: Option<Real>,
    speed: Option<Real>,
    outcomes: Seq<Outcome>,
    i: int,
)
    requires
        0 <= i < trace(beginning(media_steps(time, volume, speed), false), outcomes).len(),
        trace(beginning(media_steps(time, volume, speed), false), outcomes)[i] == Op::LoadFile,
    ensures
        trace(beginning(media_steps(time, volume, speed), false), outcomes).take(i) == seq![
            Op::HidePage,
            Op::Conceal,
            Op::HideClock,
            Op::SpawnSpinner,
        ],
        outcomes[1].ok && outcomes[2].ok && outcomes[3].ok,
{
    let run = beginning(media_steps(time, volume, speed), false);
    lemma_load_comes_after(run, outcomes, 4, i);
    assert(trace(run, outcomes).take(i) =~= seq![
        Op::HidePage,
        Op::Conceal,
        Op::HideClock,
        Op::SpawnSpinner,
    ]);
    assert(run.rest[1].on_error == OnError::Abort);
    assert(run.rest[2].on_error == OnError::Abort);
    assert(run.rest[3].on_error == OnError::Abort);
}

/// Senders are told of the end of every play, page and stop that goes well: it
/// has a step that they are told of, and what comes after the last such step
/// changes no more than how the media plays.
pub proof fn lemma_senders_are_told_how_it_ends(
    time: Option<Real>,
    volume: Option<Real>,
    speed: Option<Real>,
    clock_showing: bool,
    loading: bool,
)
    ensures
        media_steps(time, volume, speed)[4].op.changes_hands(),
        forall|i: int|
            4 < i < media_steps(time, volume, speed).len() ==> !(#[trigger] media_steps(
                time,
                volume,
                speed,
            )[i]).op.changes_hands(),
        page_steps().last().op.changes_hands(),
        fall_back_steps().last().op.changes_hands(),
        stop_steps(clock_showing, loading).last().op.changes_hands(),
        return_to_clock(clock_showing).last().op.changes_hands(),
        restore_steps().last().op.changes_hands(),
        roll_back().last().op.changes_hands(),
{
}

/// A page whose engine does not start leaves the player alone.
pub proof fn lemma_a_failed_page_touches_nothing_else(outcomes: Seq<Outcome>)
    requires
        outcomes.len() > 0,
        !outcomes[0].ok,
    ensures
        trace(beginning(page_steps(), false), outcomes) == seq![Op::ShowPage],
        after_all(beginning(page_steps(), false), outcomes).is_over(),
{
    let run = beginning(page_steps(), false);
    let next = run.after(outcomes[0].ok, outcomes[0].clock_showing);
    assert(after_all(next, outcomes.drop_first()) == next);
    assert(trace(next, outcomes.drop_first()) =~= Seq::<Op>::empty());
    assert(trace(run, outcomes) =~= seq![Op::ShowPage]);
}

/// Falling back tries the page whatever becomes of the rest, and the clock is
/// asked for before it.
pub proof fn lemma_falling_back_always_tries_the_page(outcomes: Seq<Outcome>)
    requires
        outcomes.len() >= 3,
    ensures
        trace(beginning(fall_back_steps(), false), outcomes) == seq![
            Op::StopMedia,
            Op::ShowClock,
            Op::ShowPage,
        ],
{
    reveal_with_fuel(trace, 4);
    let run = beginning(fall_back_steps(), false);
    let one = run.after(outcomes[0].ok, outcomes[0].clock_showing);
    assert(one.rest =~= fall_back_steps().skip(1));
    let later = outcomes.drop_first();
    let two = one.after(later[0].ok, later[0].clock_showing);
    assert(two.rest =~= fall_back_steps().skip(2));
    let last = later.drop_first();
    let three = two.after(last[0].ok, last[0].clock_showing);
    assert(three.rest =~= Seq::<Step>::empty());
    assert(trace(three, last.drop_first()) =~= Seq::<Op>::empty());
    assert(trace(run, outcomes) =~= seq![Op::StopMedia, Op::ShowClock, Op::ShowPage]);
}

/// Nothing of a run is left out of account: what is left of it are its steps
/// from the next one on.
pub proof fn lemma_what_is_left_of_a_run(run: Run, i: int)
    requires
        run.wf(),
        run.at <= i < run.steps@.len(),
    ensures
        run@.rest.len() == run.steps@.len() - run.at,
        run@.rest[i - run.at] == run.steps@[i],
        run@.then_idle == run.then_idle,
        run@.failed == run.failed,
{
}

/// A step that goes well, and one that may fail, is followed by the next one,
/// or where it was the last of a run that ends at the clock, by the return to
/// it; the run fails by neither.
pub proof fn lemma_a_step_is_followed_by_the_next(run: RunView, ok: bool, clock_showing: bool)
    requires
        !run.is_over(),
        ok || run.rest[0].on_error == OnError::Ignore,
    ensures
        run.after(ok, clock_showing).failed == run.failed,
        run.rest.len() > 1 || !run.then_idle ==> run.after(ok, clock_showing).rest == run.rest.skip(
            1,
        ) && run.after(ok, clock_showing).then_idle == run.then_idle,
        run.rest.len() == 1 && run.then_idle ==> run.after(ok, clock_showing).rest
            == return_to_clock(clock_showing) && !run.after(ok, clock_showing).then_idle,
        !run.blames(ok),
{
    assert(run.rest.drop_first() =~= run.rest.skip(1));
}

/// A step that must not fail ends the run as failed: at once, or by returning
/// to the clock, or by putting it up at once. The first such failure is the one
/// to report, and no other.
pub proof fn lemma_a_failure_ends_the_run(run: RunView, clock_showing: bool)
    requires
        !run.is_over(),
        run.rest[0].on_error != OnError::Ignore,
    ensures
        run.after(false, clock_showing).failed,
        !run.after(false, clock_showing).then_idle,
        run.rest[0].on_error == OnError::Fail ==> run.after(false, clock_showing).rest.len() == 0,
        run.rest[0].on_error == OnError::Abort ==> run.after(false, clock_showing).rest
            == return_to_clock(clock_showing),
        run.rest[0].on_error == OnError::RollBack ==> run.after(false, clock_showing).rest
            == seq![step(Op::ClearOverlay, OnError::Ignore), step(Op::ShowClock, OnError::Ignore)],
        run.blames(false) <==> !run.failed,
{
}

/// A run begins with all of its steps, and not failed.
pub proof fn lemma_a_run_begins_at_its_beginning(steps: Seq<Step>, then_idle: bool)
    ensures
        beginning(steps, then_idle).rest == steps,
        beginning(steps, then_idle).then_idle == then_idle,
        !beginning(steps, then_idle).failed,
        beginning(steps, then_idle).is_over() <==> steps.len() == 0,
{
}

/// A step is the work it was made for.
pub proof fn lemma_a_step_is_its_work(op: Op, on_error: OnError)
    ensures
        step(op, on_error).op == op,
        step(op, on_error).on_error == on_error,
{
}

/// What playing media takes, in this order: take the page down, fade to black,
/// hide the clock, put the spinner up, load, and let it run. All but the first
/// must succeed.
pub proof fn lemma_what_playing_media_takes(
    time: Option<Real>,
    volume: Option<Real>,
    speed: Option<Real>,
)
    ensures
        ({
            let steps = media_steps(time, volume, speed);
            &&& steps.len() >= 6
            &&& steps[0] == (Step { op: Op::HidePage, on_error: OnError::Ignore })
            &&& steps[1] == (Step { op: Op::Conceal, on_error: OnError::Abort })
            &&& steps[2] == (Step { op: Op::HideClock, on_error: OnError::Abort })
            &&& steps[3] == (Step { op: Op::SpawnSpinner, on_error: OnError::Abort })
            &&& steps[4] == (Step { op: Op::LoadFile, on_error: OnError::Abort })
            &&& steps[5] == (Step { op: Op::Unpause, on_error: OnError::Abort })
        }),
{
}

/// Media plays from the start time, at the volume and at the speed that came
/// with it: each of them is set exactly where it was given, to what was given,
/// once and after the load, and a failure to set it is none of the play.
pub proof fn lemma_media_plays_as_asked(
    time: Option<Real>,
    volume: Option<Real>,
    speed: Option<Real>,
    i: int,
    j: int,
    v: Real,
)
    requires
        0 <= i < media_steps(time, volume, speed).len(),
        0 <= j < media_steps(time, volume, speed).len(),
    ensures
        ({
            let steps = media_steps(time, volume, speed);
            &&& steps[i].op == Op::SetStart(v) ==> time == Some(v)
            &&& steps[i].op == Op::SetVolume(v) ==> volume == Some(v)
            &&& steps[i].op == Op::SetSpeed(v) ==> speed == Some(v)
            &&& time == Some(v) ==> exists|k: int|
                4 < k < steps.len() && (#[trigger] steps[k]).op == Op::SetStart(v)
            &&& volume == Some(v) ==> exists|k: int|
                4 < k < steps.len() && (#[trigger] steps[k]).op == Op::SetVolume(v)
            &&& speed == Some(v) ==> exists|k: int|
                4 < k < steps.len() && (#[trigger] steps[k]).op == Op::SetSpeed(v)
            &&& i >= 6 ==> steps[i].on_error == OnError::Ignore && (steps[i].op is SetStart
                || steps[i].op is SetVolume || steps[i].op is SetSpeed)
            &&& i != j ==> steps[i].op != steps[j].op
        }),
{
    let steps = media_steps(time, volume, speed);
    let a: int = if time is Some {
        7
    } else {
        6
    };
    let b: int = if volume is Some {
        a + 1
    } else {
        a
    };
    if time is Some {
        assert(steps[6].op == Op::SetStart(time->0));
    }
    if volume is Some {
        assert(steps[a].op == Op::SetVolume(volume->0));
    }
    if speed is Some {
        assert(steps[b].op == Op::SetSpeed(speed->0));
    }
}

/// What displaying a page takes: the engine, then the media stopped, then the
/// clock behind it; and what falling back to a page takes: the same with the
/// engine last, which alone must start.
pub proof fn lemma_what_a_page_takes()
    ensures
        page_steps() == seq![
            Step { op: Op::ShowPage, on_error: OnError::Fail },
            Step { op: Op::StopMedia, on_error: OnError::Fail },
            Step { op: Op::ShowClock, on_error: OnError::Fail },
        ],
        fall_back_steps() == seq![
            Step { op: Op::StopMedia, on_error: OnError::Ignore },
            Step { op: Op::ShowClock, on_error: OnError::Ignore },
            Step { op: Op::ShowPage, on_error: OnError::Fail },
        ],
{
}

/// Every stop takes the page down and stops the media, which must succeed. What
/// is on screen is faded to black before that where something plays, and not
/// where the clock is up or a load has the screen black already.
pub proof fn lemma_every_stop_stops_the_media(clock_showing: bool, loading: bool, i: int)
    requires
        0 <= i < stop_steps(clock_showing, loading).len(),
    ensures
        ({
            let steps = stop_steps(clock_showing, loading);
            &&& steps[0] == (Step { op: Op::HidePage, on_error: OnError::Ignore })
            &&& exists|k: int|
                0 < k < steps.len() && #[trigger] steps[k] == (Step {
                    op: Op::StopMedia,
                    on_error: OnError::Abort,
                })
            &&& steps[i].op == Op::Conceal ==> i == 1 && steps[i].on_error == OnError::Abort
                && !clock_showing && !loading
            &&& !clock_showing && !loading ==> steps[1].op == Op::Conceal
            &&& clock_showing && !loading ==> steps.last().op == Op::ShowClock
        }),
{
    let steps = stop_steps(clock_showing, loading);
    if clock_showing || loading {
        assert(steps[1].op == Op::StopMedia);
    } else {
        assert(steps[2].op == Op::StopMedia);
    }
}

/// How the clock comes back: over the black, which it covers before that is
/// dropped; or where it is up already, at once.
pub proof fn lemma_how_the_clock_comes_back()
    ensures
        return_to_clock(true) == seq![
            Step { op: Op::ClearOverlay, on_error: OnError::Fail },
            Step { op: Op::ShowClock, on_error: OnError::Fail },
        ],
        return_to_clock(false) == seq![
            Step { op: Op::StopSpinner, on_error: OnError::RollBack },
            Step { op: Op::RenderClock, on_error: OnError::RollBack },
            Step { op: Op::FadeInClock, on_error: OnError::RollBack },
            Step { op: Op::ClearOverlay, on_error: OnError::RollBack },
            Step { op: Op::ShowClock, on_error: OnError::RollBack },
        ],
        restore_steps() == seq![
            Step { op: Op::StopSpinner, on_error: OnError::Ignore },
            Step { op: Op::RenderClock, on_error: OnError::Ignore },
            Step { op: Op::FadeInClock, on_error: OnError::Ignore },
            Step { op: Op::ClearOverlay, on_error: OnError::Ignore },
            Step { op: Op::ShowClock, on_error: OnError::Ignore },
        ],
{
}

/// Senders are told of work that starts or ends media or a page or the clock,
/// and of no other.
pub proof fn lemma_what_senders_are_told_of(op: Op)
    ensures
        op.changes_hands() <==> (op == Op::HidePage || op == Op::ShowPage || op == Op::LoadFile
            || op == Op::StopMedia || op == Op::ShowClock || op == Op::HideClock),
{
}

} // verus!
