//! What each step of a task does to the player, and what a finished task
//! leaves on screen.
//!
//! A step begins with `Player::begin_step`, which changes the player's state and
//! says what there is to draw, start or take down, and ends with
//! `Player::end_step`, once that was done or failed.

use vstd::prelude::*;

use crate::fcast;
use crate::fcast::Real;
use crate::idle_screen::{IdleScreen, Redraw};
use crate::overlay;
use crate::overlay::{Fade, Spinner};
use crate::player;
use crate::player::{Player, Purpose, RouteView, Task};
use crate::queue::QueueMove;
use crate::script;
use crate::script::{Op, RunView, Step};
use crate::text;
use crate::webpage;
use crate::webpage::{Launch, PageError, WebpageController};

verus! {

/// What there is to do in a step.
#[derive(Debug)]
pub enum Begun {
    /// Only what the step itself says.
    Plain,
    /// Take this engine down, if there is one.
    EndPage(Option<i32>),
    /// Draw this fade to its end.
    Fade(Fade),
    /// Remove the clock, where it was shown.
    RemoveClock(bool),
    /// Draw this spinner's first frame, and keep it turning from then on.
    Spinner(Spinner),
    /// Start an engine.
    Launch(Launch),
}

/// What there is to do once a step is over.
#[derive(Debug)]
pub enum Ended {
    /// Nothing.
    Plain,
    /// Remove the spinner and the black.
    RemoveOverlay,
    /// Run this redraw loop.
    Redraw(Redraw),
    /// Report with this generation that the engine has exited.
    Engine(u64),
}

impl Player {
    /// The player with another engine on screen.
    pub open spec fn with_page(self, current: Option<i32>) -> Player {
        Player {
            webpage: WebpageController {
                browser: self.webpage.browser,
                current,
                generation: (self.webpage.generation + 1) as u64,
            },
            ..self
        }
    }

    /// The player after a command to its overlay.
    pub open spec fn with_overlay(self, command: overlay::Command) -> Player {
        Player { overlay: overlay::after(self.overlay, command), ..self }
    }

    /// The player after a step has begun. `url` is the task's target.
    pub open spec fn begun(self, op: Op, url: Seq<char>) -> Player {
        match op {
            Op::HidePage => self.with_page(None),
            Op::Conceal => self.with_overlay(overlay::Command::Conceal),
            Op::HideClock => Player { idle: self.idle.hidden(), ..self },
            Op::SpawnSpinner => self.with_overlay(overlay::Command::SpawnSpinner),
            Op::ShowPage => if self.webpage.can_show(url) {
                self.with_page(None)
            } else {
                self
            },
            Op::StopSpinner => self.with_overlay(overlay::Command::StopSpinner),
            Op::ClearOverlay => self.with_overlay(overlay::Command::Clear),
            _ => self,
        }
    }

    /// The player after a step has ended, well or not. `generation` is that of
    /// the step's animation, and `pid` the engine that it started.
    pub open spec fn ended(self, op: Op, ok: bool, generation: u64, pid: i32) -> Player {
        match op {
            Op::Conceal | Op::SpawnSpinner => self.with_overlay(
                if ok {
                    overlay::Command::SettleBlack(generation)
                } else {
                    overlay::Command::Clear
                },
            ),
            Op::ShowClock => if ok {
                Player { idle: self.idle.shown(IdleScreen::Clock), ..self }
            } else {
                self
            },
            Op::ShowPage => if ok {
                self.with_page(Some(pid))
            } else {
                self
            },
            _ => self,
        }
    }

    /// The player after a whole step that nothing else came into.
    pub open spec fn stepped(self, op: Op, ok: bool, url: Seq<char>, pid: i32) -> Player {
        let begun = self.begun(op, url);
        begun.ended(op, ok, begun.overlay.generation, pid)
    }

    /// Whether there is a next generation of what a step changes as it begins.
    pub open spec fn can_begin(self, op: Op, url: Seq<char>) -> bool {
        match op {
            Op::HidePage => self.webpage.has_next(),
            Op::Conceal | Op::SpawnSpinner | Op::StopSpinner | Op::ClearOverlay =>
                self.overlay.has_next(),
            Op::HideClock => self.idle.current is Some ==> self.idle.has_next(),
            Op::ShowPage => self.webpage.can_show(url) ==> self.webpage.has_next(),
            _ => true,
        }
    }

    /// Whether there is a next generation of what a step changes as it ends.
    pub open spec fn can_end(self, op: Op, ok: bool) -> bool {
        match op {
            Op::Conceal | Op::SpawnSpinner => !ok ==> self.overlay.has_next(),
            Op::ShowClock => ok ==> self.idle.has_next(),
            Op::ShowPage => ok ==> self.webpage.has_next(),
            _ => true,
        }
    }

    /// Begin a step. `target` is the task's; `now` and `interval` are the time
    /// and the time between two frames of a spinner. A page that cannot be
    /// displayed is refused, and changes nothing.
    pub fn begin_step(&mut self, op: Op, target: &str, now: u64, interval: u64) -> (r: Result<
        Begun,
        PageError,
    >)
        requires
            old(self).can_begin(op, target@),
            op == Op::SpawnSpinner ==> now + interval <= u64::MAX,
        ensures
            *final(self) == old(self).begun(op, target@),
            match op {
                Op::HidePage => r matches Ok(Begun::EndPage(pid)) && pid == old(
                    self,
                ).webpage.current,
                Op::Conceal => r matches Ok(Begun::Fade(fade)) && fade == (Fade {
                    generation: final(self).overlay.generation,
                    start: old(self).overlay.opacity,
                    end: 255,
                    step: 0,
                }),
                Op::HideClock => r matches Ok(Begun::RemoveClock(shown)) && shown == (old(
                    self,
                ).idle.current is Some),
                Op::SpawnSpinner => r matches Ok(Begun::Spinner(spinner)) && spinner == (Spinner {
                    generation: final(self).overlay.generation,
                    angle: 0,
                    due: (now + interval) as u64,
                    interval,
                }),
                Op::ShowPage => match r {
                    Ok(Begun::Launch(launch)) => {
                        &&& old(self).webpage.can_show(target@)
                        &&& launch.terminate == old(self).webpage.current
                        &&& text::texts(launch.stale@) == webpage::singleton_files(
                            old(self).webpage.browser.profile_dir@,
                        )
                        &&& launch.program@ == old(self).webpage.browser.program@
                        &&& text::texts(launch.args@) == webpage::arguments(
                            target@,
                            old(self).webpage.browser.profile_dir@,
                        )
                        &&& launch.tmp_dir@ == old(self).webpage.browser.root@
                    },
                    Ok(_) => false,
                    Err(PageError::Scheme(u)) => !webpage::valid_url(target@) && u@ == target@,
                    Err(PageError::NoRoom(root)) => webpage::valid_url(target@) && !old(
                        self,
                    ).webpage.browser.has_room() && root@ == old(self).webpage.browser.root@,
                },
                _ => r matches Ok(Begun::Plain),
            },
    {
        match op {
            Op::HidePage => {
                let pid: Option<i32> = self.webpage.take_down();
                Ok(Begun::EndPage(pid))
            },
            Op::Conceal => Ok(Begun::Fade(self.overlay.conceal())),
            Op::HideClock => Ok(Begun::RemoveClock(self.hide_idle_screen())),
            Op::SpawnSpinner => Ok(Begun::Spinner(self.overlay.spawn_spinner(now, interval))),
            Op::ShowPage => match self.webpage.show(target) {
                Ok(launch) => Ok(Begun::Launch(launch)),
                Err(e) => Err(e),
            },
            Op::StopSpinner => {
                self.overlay.stop_spinner();
                Ok(Begun::Plain)
            },
            Op::ClearOverlay => {
                self.overlay.clear();
                Ok(Begun::Plain)
            },
            _ => Ok(Begun::Plain),
        }
    }

    /// End a step that was begun, and was done or failed. `generation` is that
    /// of the fade or the spinner, where the step drew one, and `pid` the
    /// engine, where it started one; else they are not looked at.
    pub fn end_step(&mut self, op: Op, ok: bool, generation: u64, pid: i32) -> (r: Ended)
        requires
            old(self).can_end(op, ok),
        ensures
            *final(self) == old(self).ended(op, ok, generation, pid),
            match op {
                Op::Conceal | Op::SpawnSpinner => if ok {
                    r is Plain
                } else {
                    r is RemoveOverlay
                },
                Op::ShowClock => if ok {
                    r matches Ended::Redraw(redraw) && redraw == (Redraw {
                        generation: final(self).idle.generation,
                        screen: IdleScreen::Clock,
                    })
                } else {
                    r is Plain
                },
                Op::ShowPage => if ok {
                    r matches Ended::Engine(g) && g == final(self).webpage.generation
                } else {
                    r is Plain
                },
                _ => r is Plain,
            },
    {
        match op {
            Op::Conceal | Op::SpawnSpinner => {
                if ok {
                    self.overlay.settle_black(generation);
                    Ended::Plain
                } else {
                    self.overlay.clear();
                    Ended::RemoveOverlay
                }
            },
            Op::ShowClock => {
                if ok {
                    Ended::Redraw(self.show_idle_screen(IdleScreen::Clock))
                } else {
                    Ended::Plain
                }
            },
            Op::ShowPage => {
                if ok {
                    Ended::Engine(self.webpage.engine_started(pid))
                } else {
                    Ended::Plain
                }
            },
            _ => Ended::Plain,
        }
    }
}

// ---------------------------------------------------------------------------
// Laws
// ---------------------------------------------------------------------------

/// The player and the rest of a run after the run's steps went as `oks` says.
/// Whether the clock is on screen is seen after each step.
pub open spec fn worked(
    player: Player,
    run: RunView,
    url: Seq<char>,
    pid: i32,
    oks: Seq<bool>,
) -> (Player, RunView)
    decreases oks.len(),
{
    if run.is_over() || oks.len() == 0 {
        (player, run)
    } else {
        let next = player.stepped(run.rest[0].op, oks[0], url, pid);
        worked(next, run.after(oks[0], next.idle.current is Some), url, pid, oks.drop_first())
    }
}

/// Whether two players have the same on screen.
pub open spec fn same_screen(player: Player, other: Player) -> bool {
    &&& player.webpage == other.webpage
    &&& player.overlay == other.overlay
    &&& player.idle == other.idle
}

/// What a run does to the screen depends on nothing but the screen: not on the
/// queue, nor on the loads under way, which `report` lists meanwhile.
pub proof fn lemma_only_the_screen_counts(
    player: Player,
    other: Player,
    run: RunView,
    url: Seq<char>,
    pid: i32,
    oks: Seq<bool>,
)
    requires
        same_screen(player, other),
    ensures
        same_screen(
            worked(player, run, url, pid, oks).0,
            worked(other, run, url, pid, oks).0,
        ),
        worked(player, run, url, pid, oks).1 == worked(other, run, url, pid, oks).1,
    decreases oks.len(),
{
    if !run.is_over() && oks.len() > 0 {
        let next = player.stepped(run.rest[0].op, oks[0], url, pid);
        let other_next = other.stepped(run.rest[0].op, oks[0], url, pid);
        lemma_only_the_screen_counts(
            next,
            other_next,
            run.after(oks[0], next.idle.current is Some),
            url,
            pid,
            oks.drop_first(),
        );
    }
}

/// Whether no step fails.
pub open spec fn all_well(oks: Seq<bool>) -> bool {
    forall|i: int| 0 <= i < oks.len() ==> oks[i]
}

/// Whether no two steps fail.
pub open spec fn one_failure_at_most(oks: Seq<bool>) -> bool {
    forall|i: int, j: int| 0 <= i < j < oks.len() ==> oks[i] || oks[j]
}

proof fn lemma_later(oks: Seq<bool>)
    requires
        oks.len() > 0,
        one_failure_at_most(oks),
    ensures
        one_failure_at_most(oks.drop_first()),
        !oks[0] ==> all_well(oks.drop_first()),
{
    let later = oks.drop_first();
    assert forall|i: int, j: int| 0 <= i < j < later.len() implies later[i] || later[j] by {
        assert(oks[i + 1] || oks[j + 1]);
    }
    if !oks[0] {
        assert forall|i: int| 0 <= i < later.len() implies later[i] by {
            assert(oks[0] || oks[i + 1]);
        }
    }
}

/// A run none of whose steps fails does not fail.
pub proof fn lemma_all_well(player: Player, run: RunView, url: Seq<char>, pid: i32, oks: Seq<bool>)
    requires
        !run.failed,
        all_well(oks),
    ensures
        !worked(player, run, url, pid, oks).1.failed,
    decreases oks.len(),
{
    if !run.is_over() && oks.len() > 0 {
        let next = player.stepped(run.rest[0].op, oks[0], url, pid);
        lemma_all_well(
            next,
            run.after(oks[0], next.idle.current is Some),
            url,
            pid,
            oks.drop_first(),
        );
    }
}

proof fn lemma_rolled_back(player: Player, run: RunView, url: Seq<char>, pid: i32, oks: Seq<bool>)
    requires
        !run.then_idle,
        run.rest == script::roll_back(),
        worked(player, run, url, pid, oks).1.is_over(),
    ensures
        !worked(player, run, url, pid, oks).0.overlay.active,
        worked(player, run, url, pid, oks).0.webpage == player.webpage,
        worked(player, run, url, pid, oks).1.failed == run.failed,
        all_well(oks) ==> worked(
            player,
            run,
            url,
            pid,
            oks,
        ).0.idle.current is Some,
{
    let one = player.stepped(Op::ClearOverlay, oks[0], url, pid);
    let after_one = run.after(oks[0], one.idle.current is Some);
    let later = oks.drop_first();
    assert(after_one.rest =~= seq![script::step(Op::ShowClock, script::OnError::Ignore)]);
    assert(worked(player, run, url, pid, oks) == worked(one, after_one, url, pid, later));
    let two = one.stepped(Op::ShowClock, later[0], url, pid);
    let after_two = after_one.after(later[0], two.idle.current is Some);
    assert(after_two.rest =~= Seq::<Step>::empty());
    assert(later.len() > 0);
    assert(worked(one, after_one, url, pid, later) == worked(
        two,
        after_two,
        url,
        pid,
        later.drop_first(),
    ));
}

proof fn lemma_faded_in(
    player: Player,
    run: RunView,
    k: int,
    url: Seq<char>,
    pid: i32,
    oks: Seq<bool>,
)
    requires
        !run.then_idle,
        0 <= k < script::return_to_clock(false).len(),
        run.rest == script::return_to_clock(false).skip(k),
        k == 4 ==> !player.overlay.active,
        worked(player, run, url, pid, oks).1.is_over(),
    ensures
        !worked(player, run, url, pid, oks).0.overlay.active,
        worked(player, run, url, pid, oks).0.webpage == player.webpage,
        run.failed ==> worked(player, run, url, pid, oks).1.failed,
        !worked(player, run, url, pid, oks).1.failed ==> worked(
            player,
            run,
            url,
            pid,
            oks,
        ).0.idle.current is Some,
        one_failure_at_most(oks) ==> worked(
            player,
            run,
            url,
            pid,
            oks,
        ).0.idle.current is Some,
    decreases oks.len(),
{
    assert(oks.len() > 0);
    let steps = script::return_to_clock(false);
    assert(run.rest[0] == steps[k]);
    let next = player.stepped(steps[k].op, oks[0], url, pid);
    let rest = run.after(oks[0], next.idle.current is Some);
    let later = oks.drop_first();
    if one_failure_at_most(oks) {
        lemma_later(oks);
    }
    if oks[0] {
        assert(rest.rest =~= steps.skip(k + 1));
        if k < 4 {
            lemma_faded_in(next, rest, k + 1, url, pid, later);
        }
    } else {
        lemma_rolled_back(next, rest, url, pid, later);
    }
}

proof fn lemma_returned(player: Player, run: RunView, url: Seq<char>, pid: i32, oks: Seq<bool>)
    requires
        !run.then_idle,
        run.rest == script::return_to_clock(player.idle.current is Some),
        worked(player, run, url, pid, oks).1.is_over(),
    ensures
        !worked(player, run, url, pid, oks).0.overlay.active,
        worked(player, run, url, pid, oks).0.webpage == player.webpage,
        run.failed ==> worked(player, run, url, pid, oks).1.failed,
        !worked(player, run, url, pid, oks).1.failed ==> worked(
            player,
            run,
            url,
            pid,
            oks,
        ).0.idle.current is Some,
        one_failure_at_most(oks) ==> worked(
            player,
            run,
            url,
            pid,
            oks,
        ).0.idle.current is Some,
{
    if player.idle.current is Some {
        assert(oks.len() > 0);
        let one = player.stepped(Op::ClearOverlay, oks[0], url, pid);
        let after_one = run.after(oks[0], one.idle.current is Some);
        let later = oks.drop_first();
        if one_failure_at_most(oks) {
            lemma_later(oks);
        }
        assert(worked(player, run, url, pid, oks) == worked(one, after_one, url, pid, later));
        if oks[0] {
            assert(after_one.rest =~= seq![script::step(Op::ShowClock, script::OnError::Fail)]);
            assert(later.len() > 0);
            let two = one.stepped(Op::ShowClock, later[0], url, pid);
            let after_two = after_one.after(later[0], two.idle.current is Some);
            assert(after_two.rest =~= Seq::<Step>::empty());
            assert(worked(one, after_one, url, pid, later) == worked(
                two,
                after_two,
                url,
                pid,
                later.drop_first(),
            ));
        }
    } else {
        assert(run.rest =~= script::return_to_clock(false).skip(0));
        lemma_faded_in(player, run, 0, url, pid, oks);
    }
}

/// The run of a stop that begins now.
spec fn stop_run(player: Player) -> RunView {
    script::beginning(
        script::stop_steps(player.idle.current is Some, player.overlay.active),
        !(player.idle.current is Some && !player.overlay.active),
    )
}

/// A finished stop, whatever for and however its steps went, leaves no page on
/// screen and no black. Where it went well, or at most one of its steps failed,
/// the clock is up.
pub proof fn lemma_what_a_stop_leaves(
    player: Player,
    purpose: Purpose,
    stopped: Player,
    task: Task,
    url: Seq<char>,
    pid: i32,
    oks: Seq<bool>,
)
    requires
        player.stops_for(purpose, stopped, task),
        worked(stopped, task@.run, url, pid, oks).1.is_over(),
    ensures
        ({
            let end = worked(stopped, task@.run, url, pid, oks);
            &&& end.0.webpage.current is None
            &&& !end.0.overlay.active
            &&& !end.1.failed || one_failure_at_most(oks) ==> end.0.idle.current is Some
        }),
{
    lemma_stop_run(stopped, url, pid, oks);
}

proof fn lemma_stop_run(player: Player, url: Seq<char>, pid: i32, oks: Seq<bool>)
    requires
        worked(player, stop_run(player), url, pid, oks).1.is_over(),
    ensures
        ({
            let end = worked(player, stop_run(player), url, pid, oks);
            &&& end.0.webpage.current is None
            &&& !end.0.overlay.active
            &&& !end.1.failed || one_failure_at_most(oks) ==> end.0.idle.current is Some
        }),
{
    let clock = player.idle.current is Some;
    let loading = player.overlay.active;
    let steps = script::stop_steps(clock, loading);
    let run = stop_run(player);
    assert(oks.len() > 0);
    let one = player.stepped(Op::HidePage, oks[0], url, pid);
    let after_one = run.after(oks[0], one.idle.current is Some);
    let later = oks.drop_first();
    if one_failure_at_most(oks) {
        lemma_later(oks);
    }
    if one_failure_at_most(later) && later.len() > 0 {
        lemma_later(later);
    }
    assert(after_one.rest =~= steps.drop_first());
    assert(worked(player, run, url, pid, oks) == worked(one, after_one, url, pid, later));
    assert(later.len() > 0);
    if clock && !loading {
        let two = one.stepped(Op::StopMedia, later[0], url, pid);
        let after_two = after_one.after(later[0], two.idle.current is Some);
        let last = later.drop_first();
        assert(worked(one, after_one, url, pid, later) == worked(two, after_two, url, pid, last));
        if later[0] {
            assert(after_two.rest =~= seq![script::step(Op::ShowClock, script::OnError::Fail)]);
            assert(last.len() > 0);
            let three = two.stepped(Op::ShowClock, last[0], url, pid);
            let after_three = after_two.after(last[0], three.idle.current is Some);
            assert(after_three.rest =~= Seq::<Step>::empty());
            assert(worked(two, after_two, url, pid, last) == worked(
                three,
                after_three,
                url,
                pid,
                last.drop_first(),
            ));
        } else {
            lemma_returned(two, after_two, url, pid, last);
        }
    } else if loading {
        assert(after_one.rest =~= seq![script::step(Op::StopMedia, script::OnError::Abort)]);
        lemma_stopped(one, after_one, url, pid, later);
    } else {
        let two = one.stepped(Op::Conceal, later[0], url, pid);
        let after_two = after_one.after(later[0], two.idle.current is Some);
        let last = later.drop_first();
        assert(worked(one, after_one, url, pid, later) == worked(two, after_two, url, pid, last));
        if later[0] {
            assert(after_two.rest =~= seq![script::step(Op::StopMedia, script::OnError::Abort)]);
            lemma_stopped(two, after_two, url, pid, last);
        } else {
            lemma_returned(two, after_two, url, pid, last);
        }
    }
}

proof fn lemma_stopped(player: Player, run: RunView, url: Seq<char>, pid: i32, oks: Seq<bool>)
    requires
        run.then_idle,
        run.rest == seq![script::step(Op::StopMedia, script::OnError::Abort)],
        worked(player, run, url, pid, oks).1.is_over(),
    ensures
        !worked(player, run, url, pid, oks).0.overlay.active,
        worked(player, run, url, pid, oks).0.webpage == player.webpage,
        !worked(player, run, url, pid, oks).1.failed ==> worked(
            player,
            run,
            url,
            pid,
            oks,
        ).0.idle.current is Some,
        one_failure_at_most(oks) ==> worked(
            player,
            run,
            url,
            pid,
            oks,
        ).0.idle.current is Some,
{
    assert(oks.len() > 0);
    if one_failure_at_most(oks) {
        lemma_later(oks);
    }
    let next = player.stepped(Op::StopMedia, oks[0], url, pid);
    let rest = run.after(oks[0], next.idle.current is Some);
    assert(worked(player, run, url, pid, oks) == worked(next, rest, url, pid, oks.drop_first()));
    lemma_returned(next, rest, url, pid, oks.drop_first());
}

/// A finished media play leaves no page on screen. Where it went well, the
/// spinner is up on opaque black, with no clock, until playback begins; where it
/// failed, neither is up any more, and where only one step failed the clock is.
pub proof fn lemma_what_a_media_play_leaves(
    player: Player,
    url: Seq<char>,
    probing: bool,
    message: fcast::PlayView,
    moved: Option<QueueMove>,
    pid: i32,
    oks: Seq<bool>,
)
    requires
        worked(
            player,
            player::starting(RouteView::Media { url, probing }, message, moved).run,
            url,
            pid,
            oks,
        ).1.is_over(),
    ensures
        ({
            let run = player::starting(RouteView::Media { url, probing }, message, moved).run;
            let end = worked(player, run, url, pid, oks);
            &&& end.0.webpage.current is None
            &&& end.1.failed ==> !end.0.overlay.active
            &&& !end.1.failed ==> end.0.idle.current is None && end.0.overlay.active
                && !end.0.overlay.restarted && end.0.overlay.opacity == 255
            &&& end.1.failed && one_failure_at_most(oks) ==> end.0.idle.current is Some
        }),
{
    let steps = script::media_steps(message.time, message.volume, message.speed);
    let run = script::beginning(steps, false);
    assert(run.rest =~= steps.skip(0));
    lemma_media_from(
        player,
        run,
        message.time,
        message.volume,
        message.speed,
        0,
        url,
        pid,
        oks,
    );
}

/// Whether a load is under way behind a spinner on opaque black, and nothing
/// else is on screen.
pub open spec fn loading(player: Player) -> bool {
    &&& player.webpage.current is None
    &&& player.idle.current is None
    &&& player.overlay.active
    &&& !player.overlay.restarted
    &&& player.overlay.opacity == 255
}

proof fn lemma_media_from(
    player: Player,
    run: RunView,
    time: Option<Real>,
    volume: Option<Real>,
    speed: Option<Real>,
    k: int,
    url: Seq<char>,
    pid: i32,
    oks: Seq<bool>,
)
    requires
        0 <= k <= script::media_steps(time, volume, speed).len(),
        run.rest == script::media_steps(time, volume, speed).skip(k),
        !run.then_idle,
        !run.failed,
        k >= 1 ==> player.webpage.current is None,
        k >= 3 ==> player.idle.current is None,
        k >= 4 ==> loading(player),
        worked(player, run, url, pid, oks).1.is_over(),
    ensures
        ({
            let end = worked(player, run, url, pid, oks);
            &&& end.0.webpage.current is None
            &&& end.1.failed ==> !end.0.overlay.active
            &&& !end.1.failed ==> loading(end.0)
            &&& end.1.failed && one_failure_at_most(oks) ==> end.0.idle.current is Some
        }),
    decreases oks.len(),
{
    let steps = script::media_steps(time, volume, speed);
    assert(steps.len() >= 6);
    if k < steps.len() {
        assert(oks.len() > 0);
        assert(run.rest[0] == steps[k]);
        let next = player.stepped(steps[k].op, oks[0], url, pid);
        let rest = run.after(oks[0], next.idle.current is Some);
        let later = oks.drop_first();
        if one_failure_at_most(oks) {
            lemma_later(oks);
        }
        assert(worked(player, run, url, pid, oks) == worked(next, rest, url, pid, later));
        if k >= 6 {
            assert(steps[k].on_error == script::OnError::Ignore);
            assert(next == player);
        }
        if oks[0] || steps[k].on_error == script::OnError::Ignore {
            assert(rest.rest =~= steps.skip(k + 1));
            if all_well(later) {
                lemma_all_well(next, rest, url, pid, later);
            }
            lemma_media_from(next, rest, time, volume, speed, k + 1, url, pid, later);
        } else {
            assert(steps[k].on_error == script::OnError::Abort);
            lemma_returned(next, rest, url, pid, later);
        }
    }
}

/// A page play goes well where its three steps do, and then leaves the page on
/// screen, with the clock behind it. Falling back to a page goes well where its
/// engine starts, and then leaves the page on screen; the clock is behind it
/// where it could be drawn.
pub proof fn lemma_what_a_page_play_leaves(
    player: Player,
    url: Seq<char>,
    message: fcast::PlayView,
    moved: Option<QueueMove>,
    pid: i32,
    oks: Seq<bool>,
)
    requires
        oks.len() >= 3,
    ensures
        ({
            let run = player::starting(RouteView::Page(url), message, moved).run;
            let end = worked(player, run, url, pid, oks);
            &&& end.1.is_over()
            &&& end.1.failed == !(oks[0] && oks[1] && oks[2])
            &&& !end.1.failed ==> end.0.webpage.current == Some(pid) && end.0.idle.current is Some
        }),
        ({
            let run = player::falling_back(url, moved).run;
            let end = worked(player, run, url, pid, oks);
            &&& end.1.is_over()
            &&& end.1.failed == !oks[2]
            &&& !end.1.failed ==> end.0.webpage.current == Some(pid)
            &&& oks[1] ==> end.0.idle.current is Some
        }),
{
    reveal_with_fuel(worked, 4);
    let later = oks.drop_first();
    let last = later.drop_first();
    assert(later[0] == oks[1] && last[0] == oks[2]);

    let run = script::beginning(script::page_steps(), false);
    let one = player.stepped(Op::ShowPage, oks[0], url, pid);
    let after_one = run.after(oks[0], one.idle.current is Some);
    if oks[0] {
        assert(after_one.rest =~= script::page_steps().skip(1));
        let two = one.stepped(Op::StopMedia, later[0], url, pid);
        let after_two = after_one.after(later[0], two.idle.current is Some);
        if later[0] {
            assert(after_two.rest =~= script::page_steps().skip(2));
            let three = two.stepped(Op::ShowClock, last[0], url, pid);
            let after_three = after_two.after(last[0], three.idle.current is Some);
            assert(after_three.rest =~= Seq::<Step>::empty());
        }
    }
    let run = script::beginning(script::fall_back_steps(), false);
    let one = player.stepped(Op::StopMedia, oks[0], url, pid);
    let after_one = run.after(oks[0], one.idle.current is Some);
    assert(after_one.rest =~= script::fall_back_steps().skip(1));
    let two = one.stepped(Op::ShowClock, later[0], url, pid);
    let after_two = after_one.after(later[0], two.idle.current is Some);
    assert(after_two.rest =~= script::fall_back_steps().skip(2));
    let three = two.stepped(Op::ShowPage, last[0], url, pid);
    let after_three = after_two.after(last[0], three.idle.current is Some);
    assert(after_three.rest =~= Seq::<Step>::empty());
}

/// A load that will not start leaves neither its spinner nor its black, and the
/// clock is up where it could be drawn.
pub proof fn lemma_what_a_failed_load_leaves(
    player: Player,
    url: Seq<char>,
    pid: i32,
    oks: Seq<bool>,
)
    requires
        oks.len() >= 5,
    ensures
        ({
            let end = worked(
                player,
                script::beginning(script::restore_steps(), false),
                url,
                pid,
                oks,
            );
            &&& end.1.is_over()
            &&& !end.0.overlay.active
            &&& end.0.webpage == player.webpage
            &&& oks[4] ==> end.0.idle.current is Some
        }),
{
    let run = script::beginning(script::restore_steps(), false);
    assert(run.rest =~= script::restore_steps().skip(0));
    lemma_restored(player, run, 0, url, pid, oks);
}

proof fn lemma_restored(
    player: Player,
    run: RunView,
    k: int,
    url: Seq<char>,
    pid: i32,
    oks: Seq<bool>,
)
    requires
        0 <= k <= 5,
        run.rest == script::restore_steps().skip(k),
        !run.then_idle,
        k >= 4 ==> !player.overlay.active,
        oks.len() >= 5 - k,
    ensures
        ({
            let end = worked(player, run, url, pid, oks);
            &&& end.1.is_over()
            &&& !end.0.overlay.active
            &&& end.0.webpage == player.webpage
            &&& k < 5 && oks[4 - k] ==> end.0.idle.current is Some
            &&& k == 5 ==> end.0 == player
        }),
    decreases 5 - k,
{
    if k < 5 {
        let steps = script::restore_steps();
        assert(run.rest[0] == steps[k]);
        let next = player.stepped(steps[k].op, oks[0], url, pid);
        let rest = run.after(oks[0], next.idle.current is Some);
        assert(rest.rest =~= steps.skip(k + 1));
        assert(worked(player, run, url, pid, oks) == worked(
            next,
            rest,
            url,
            pid,
            oks.drop_first(),
        ));
        lemma_restored(next, rest, k + 1, url, pid, oks.drop_first());
    }
}

/// What each step does to the screen as it begins: it takes the page down, puts
/// the black or the spinner up, hides the clock, stops the spinner or clears the
/// overlay, or makes room for a page that can be displayed; no other step does
/// anything yet.
pub proof fn lemma_what_beginning_a_step_does(player: Player, op: Op, url: Seq<char>)
    requires
        player.can_begin(op, url),
    ensures
        ({
            let next = player.begun(op, url);
            let ends_page = op == Op::HidePage || (op == Op::ShowPage && player.webpage.can_show(
                url,
            ));
            let of_overlay = op == Op::Conceal || op == Op::SpawnSpinner || op == Op::StopSpinner
                || op == Op::ClearOverlay;
            &&& ends_page ==> next.webpage.current is None && next.webpage.generation
                == player.webpage.generation + 1
            &&& !ends_page ==> next.webpage == player.webpage
            &&& next.webpage.browser == player.webpage.browser
            &&& op == Op::HideClock && player.idle.current is Some ==> next.idle.current is None
                && !next.idle.wallpaper_active && next.idle.generation == player.idle.generation + 1
            &&& op == Op::HideClock && player.idle.current is None ==> next.idle == player.idle
            &&& op != Op::HideClock ==> next.idle == player.idle
            &&& of_overlay ==> next.overlay.generation == player.overlay.generation + 1
            &&& op == Op::Conceal ==> next.overlay.active && next.overlay.opacity
                == player.overlay.opacity && next.overlay.restarted == player.overlay.restarted
            &&& op == Op::SpawnSpinner ==> next.overlay.active && !next.overlay.restarted
                && next.overlay.opacity == player.overlay.opacity
            &&& op == Op::StopSpinner ==> next.overlay.active == player.overlay.active
                && next.overlay.opacity == player.overlay.opacity && next.overlay.restarted
                == player.overlay.restarted
            &&& op == Op::ClearOverlay ==> !next.overlay.active && next.overlay.opacity == 0
                && next.overlay.restarted == player.overlay.restarted
            &&& !of_overlay ==> next.overlay == player.overlay
            &&& next.queue == player.queue
            &&& next.routing == player.routing
            &&& next.opening == player.opening
            &&& next.last_target == player.last_target
        }),
{
}

/// What each step does to the screen as it ends: a fade or a spinner that was
/// drawn leaves the screen black, unless another command took over, and one that
/// was not is cleared; a clock that was drawn is shown, on black; an engine that
/// was started is the page on screen. Nothing else is done.
pub proof fn lemma_what_ending_a_step_does(
    player: Player,
    op: Op,
    ok: bool,
    generation: u64,
    pid: i32,
)
    requires
        player.can_end(op, ok),
    ensures
        ({
            let next = player.ended(op, ok, generation, pid);
            let drew = op == Op::Conceal || op == Op::SpawnSpinner;
            &&& drew && ok && player.overlay.generation == generation ==> next.overlay.opacity
                == 255 && next.overlay.active == player.overlay.active && next.overlay.restarted
                == player.overlay.restarted && next.overlay.generation == generation
            &&& drew && ok && player.overlay.generation != generation ==> next.overlay
                == player.overlay
            &&& drew && !ok ==> !next.overlay.active && next.overlay.opacity == 0
                && next.overlay.generation == player.overlay.generation + 1
                && next.overlay.restarted == player.overlay.restarted
            &&& !drew ==> next.overlay == player.overlay
            &&& op == Op::ShowClock && ok ==> next.idle.current == Some(IdleScreen::Clock)
                && !next.idle.wallpaper_active && next.idle.generation == player.idle.generation + 1
                && next.idle.last_wallpaper_change is None
            &&& !(op == Op::ShowClock && ok) ==> next.idle == player.idle
            &&& op == Op::ShowPage && ok ==> next.webpage.current == Some(pid)
                && next.webpage.generation == player.webpage.generation + 1
                && next.webpage.browser == player.webpage.browser
            &&& !(op == Op::ShowPage && ok) ==> next.webpage == player.webpage
            &&& next.queue == player.queue
            &&& next.routing == player.routing
            &&& next.opening == player.opening
            &&& next.last_target == player.last_target
        }),
{
}

/// A whole step is its beginning and its end, and a run is its steps one after
/// the other until it is over.
pub proof fn lemma_what_working_through_a_run_is(
    player: Player,
    run: RunView,
    url: Seq<char>,
    pid: i32,
    ok: bool,
    later: Seq<bool>,
)
    ensures
        run.rest.len() == 0 ==> worked(player, run, url, pid, seq![ok] + later) == (player, run),
        run.rest.len() > 0 ==> {
            let begun = player.begun(run.rest[0].op, url);
            let next = begun.ended(run.rest[0].op, ok, begun.overlay.generation, pid);
            worked(player, run, url, pid, seq![ok] + later) == worked(
                next,
                run.after(ok, next.idle.current is Some),
                url,
                pid,
                later,
            )
        },
        worked(player, run, url, pid, Seq::empty()) == (player, run),
{
    assert((seq![ok] + later).drop_first() =~= later);
}

/// A step can begin, and can end, while there are generations left.
pub proof fn lemma_when_a_step_can_be_taken(player: Player, op: Op, ok: bool, url: Seq<char>)
    requires
        player.webpage.generation < u64::MAX,
        player.overlay.generation < u64::MAX,
        player.idle.generation < u64::MAX,
    ensures
        player.can_begin(op, url),
        player.can_end(op, ok),
{
}

} // verus!
