//! The loading spinner and the fade through black around starts and stops.
//!
//! The state here decides what each animation may draw. Every command that
//! starts, stops or replaces an animation moves `generation` on, and an
//! animation draws a frame only while the generation it began with is still
//! the current one, so an animation that has been superseded draws nothing
//! more.

use vstd::prelude::*;

use crate::osd;
use crate::text;

verus! {

/// Frames of one fade.
pub const FADE_STEPS: u32 = 20;

/// Milliseconds between two frames of a fade.
pub const FADE_STEP_MS: u64 = 20;

/// Milliseconds between two frames of the spinner.
pub const SPINNER_STEP_MS: u64 = 33;

/// Degrees that the spinner turns from one frame to the next.
pub const SPINNER_DEGREES: u32 = 12;

/// The `step`th of `steps` even steps from one opacity to another, rounded
/// towards where it began.
pub open spec fn between(start: u8, end: u8, step: nat, steps: nat) -> int {
    if start <= end {
        start + (end - start) * step / steps as int
    } else {
        start - (start - end) * step / steps as int
    }
}

proof fn lemma_between_is_inside(start: u8, end: u8, step: nat, steps: nat)
    requires
        0 < steps,
        step <= steps,
    ensures
        start <= end ==> start <= between(start, end, step, steps) <= end,
        end <= start ==> end <= between(start, end, step, steps) <= start,
{
    let d: int = if start <= end {
        end - start
    } else {
        start - end
    };
    assert(0 <= d * step / steps as int <= d) by (nonlinear_arith)
        requires
            0 < steps,
            step <= steps,
            0 <= d,
    ;
}

/// A fade ends exactly at its target.
pub proof fn lemma_between_ends_at_the_target(start: u8, end: u8, steps: nat)
    requires
        0 < steps,
    ensures
        between(start, end, steps, steps) == end,
        between(start, end, 0, steps) == start,
{
    let d: int = if start <= end {
        end - start
    } else {
        start - end
    };
    assert(d * steps / steps as int == d && d * 0 / steps as int == 0) by (nonlinear_arith)
        requires
            0 < steps,
    ;
}

/// A fade never turns back on its way to its target.
pub proof fn lemma_between_is_monotone(start: u8, end: u8, a: nat, b: nat, steps: nat)
    requires
        0 < steps,
        a <= b <= steps,
    ensures
        start <= end ==> between(start, end, a, steps) <= between(start, end, b, steps),
        end <= start ==> between(start, end, b, steps) <= between(start, end, a, steps),
{
    let d: int = if start <= end {
        end - start
    } else {
        start - end
    };
    assert(d * a / steps as int <= d * b / steps as int) by (nonlinear_arith)
        requires
            0 < steps,
            a <= b,
            0 <= d,
    ;
}

/// Step `step` of `steps` from opacity `start` to opacity `end`.
pub fn lerp_u8(start: u8, end: u8, step: u32, steps: u32) -> (r: u8)
    requires
        0 < steps,
        step <= steps,
    ensures
        r == between(start, end, step as nat, steps as nat),
{
    proof {
        lemma_between_is_inside(start, end, step as nat, steps as nat);
    }
    let distance: u8 = if start <= end {
        end - start
    } else {
        start - end
    };
    assert(distance * step <= 255 * 0xffff_ffff) by (nonlinear_arith)
        requires
            distance <= 255,
            step <= 0xffff_ffff,
    ;
    let moved: u64 = (distance as u64) * (step as u64) / (steps as u64);
    if start <= end {
        start + moved as u8
    } else {
        start - moved as u8
    }
}

/// What is drawn over the player: the fade rectangle and the spinner.
#[derive(Debug, Clone, Copy, PartialEq, Eq, Structural)]
pub struct PlaybackOverlay {
    /// Moved on by every command, so that an animation begun earlier is seen
    /// to be stale.
    pub generation: u64,
    /// Whether the overlay is up, fading or spinning.
    pub active: bool,
    /// Opacity of the fade rectangle when it last settled: 0 is transparent,
    /// 255 is opaque black.
    pub opacity: u8,
    /// Whether the load in flight has begun to render. It stays apart from
    /// `active`, which is still true while the black fades away.
    pub restarted: bool,
}

/// One fade of the rectangle, from `start` to `end`.
#[derive(Debug, Clone, Copy, PartialEq, Eq, Structural)]
pub struct Fade {
    pub generation: u64,
    pub start: u8,
    pub end: u8,
    /// Frames drawn so far.
    pub step: u32,
}

/// What a fade does next.
#[derive(Debug, Clone, Copy, PartialEq, Eq, Structural)]
pub enum Frame {
    /// Draw the rectangle at this opacity, without a spinner.
    Draw(u8),
    /// The fade has drawn its last frame.
    Settled,
    /// Another command has taken over; nothing more is drawn.
    Superseded,
}

/// The spinner of one load.
#[derive(Debug, Clone, Copy, PartialEq, Eq, Structural)]
pub struct Spinner {
    pub generation: u64,
    /// Degrees, below a full turn.
    pub angle: u32,
    /// When the next frame is due, and the time from one frame to the next, on
    /// one clock.
    pub due: u64,
    pub interval: u64,
}

impl Default for PlaybackOverlay {
    fn default() -> (r: PlaybackOverlay)
        ensures
            r == (PlaybackOverlay { generation: 0, active: false, opacity: 0, restarted: false }),
    {
        PlaybackOverlay { generation: 0, active: false, opacity: 0, restarted: false }
    }
}

/// One command on the overlay.
pub enum Command {
    Conceal,
    Uncover,
    SpawnSpinner,
    StopSpinner,
    Clear,
    ClearIfCurrent(u64),
    SettleBlack(u64),
    MarkRestarted,
}

/// The overlay after a command, which the method of that name brings about.
pub open spec fn after(overlay: PlaybackOverlay, command: Command) -> PlaybackOverlay {
    match command {
        Command::Conceal => overlay.begun(),
        Command::Uncover => if overlay.active {
            overlay.begun()
        } else {
            overlay
        },
        Command::SpawnSpinner => PlaybackOverlay { restarted: false, ..overlay.begun() },
        Command::StopSpinner => PlaybackOverlay {
            generation: (overlay.generation + 1) as u64,
            ..overlay
        },
        Command::Clear => overlay.cleared(),
        Command::ClearIfCurrent(generation) => if overlay.is_current(generation) {
            overlay.cleared()
        } else {
            overlay
        },
        Command::SettleBlack(generation) => if overlay.is_current(generation) {
            PlaybackOverlay { opacity: 255, ..overlay }
        } else {
            overlay
        },
        Command::MarkRestarted => PlaybackOverlay { restarted: true, ..overlay },
    }
}

/// The spinner's angle one frame on.
pub open spec fn turned(angle: nat) -> nat {
    (angle + SPINNER_DEGREES as nat) % 360
}

impl PlaybackOverlay {
    /// Whether `generation` is still the current one.
    pub open spec fn is_current(self, generation: u64) -> bool {
        self.generation == generation
    }

    /// Whether there is a next generation.
    pub open spec fn has_next(self) -> bool {
        self.generation < u64::MAX
    }

    /// The overlay after a command that starts an animation.
    pub open spec fn begun(self) -> PlaybackOverlay {
        PlaybackOverlay { generation: (self.generation + 1) as u64, active: true, ..self }
    }

    /// The overlay after both layers have been taken down.
    pub open spec fn cleared(self) -> PlaybackOverlay {
        PlaybackOverlay {
            generation: (self.generation + 1) as u64,
            active: false,
            opacity: 0,
            restarted: self.restarted,
        }
    }

    /// Whether the overlay is up.
    pub fn is_active(&self) -> (r: bool)
        ensures
            r == self.active,
    {
        self.active
    }

    /// Whether the load in flight has begun to render.
    pub fn is_restarted(&self) -> (r: bool)
        ensures
            r == self.restarted,
    {
        self.restarted
    }

    /// The load in flight has begun to render.
    pub fn mark_restarted(&mut self)
        ensures
            *final(self) == after(*old(self), Command::MarkRestarted),
    {
        self.restarted = true;
    }

    fn begin(&mut self) -> (generation: u64)
        requires
            old(self).has_next(),
        ensures
            *final(self) == old(self).begun(),
            generation == final(self).generation,
    {
        self.generation = self.generation + 1;
        self.active = true;
        self.generation
    }

    /// Start to fade what is on screen to opaque black.
    pub fn conceal(&mut self) -> (fade: Fade)
        requires
            old(self).has_next(),
        ensures
            *final(self) == after(*old(self), Command::Conceal),
            fade == (Fade {
                generation: final(self).generation,
                start: old(self).opacity,
                end: 255,
                step: 0,
            }),
    {
        let generation: u64 = self.begin();
        Fade { generation, start: self.opacity, end: 255, step: 0 }
    }

    /// Start to fade the black away, now that playback renders; nothing to do
    /// when no overlay is up.
    pub fn uncover(&mut self) -> (r: Option<Fade>)
        requires
            old(self).active ==> old(self).has_next(),
        ensures
            *final(self) == after(*old(self), Command::Uncover),
            match r {
                Some(fade) => {
                    &&& old(self).active
                    &&& fade == (Fade {
                        generation: final(self).generation,
                        start: old(self).opacity,
                        end: 0,
                        step: 0,
                    })
                },
                None => !old(self).active,
            },
    {
        if !self.active {
            return None;
        }
        let generation: u64 = self.begin();
        Some(Fade { generation, start: self.opacity, end: 0, step: 0 })
    }

    /// Put the spinner of a new load up. Its first frame, on opaque black at
    /// angle 0, is drawn if `may_draw` still allows it; the later ones come
    /// from `Spinner::turn`, one per `interval` after `now`.
    pub fn spawn_spinner(&mut self, now: u64, interval: u64) -> (spinner: Spinner)
        requires
            old(self).has_next(),
            now + interval <= u64::MAX,
        ensures
            *final(self) == after(*old(self), Command::SpawnSpinner),
            spinner == (Spinner {
                generation: final(self).generation,
                angle: 0,
                due: (now + interval) as u64,
                interval,
            }),
    {
        let generation: u64 = self.begin();
        self.restarted = false;
        Spinner { generation, angle: 0, due: now + interval, interval }
    }

    /// Whether an animation of this generation may still draw.
    pub fn may_draw(&self, generation: u64) -> (r: bool)
        ensures
            r == self.is_current(generation),
    {
        self.generation == generation
    }

    /// The rectangle of this generation now stands at opaque black.
    pub fn settle_black(&mut self, generation: u64)
        ensures
            *final(self) == after(*old(self), Command::SettleBlack(generation)),
    {
        if self.generation == generation {
            self.opacity = 255;
        }
    }

    /// Cancel the spinner and leave the black rectangle up.
    pub fn stop_spinner(&mut self)
        requires
            old(self).has_next(),
        ensures
            *final(self) == after(*old(self), Command::StopSpinner),
    {
        self.generation = self.generation + 1;
    }

    /// Take both layers down. With `expected`, only while that generation is
    /// still current, so that a fade cannot tear down a newer command's
    /// overlay. Says whether the layers are to be removed.
    pub fn clear_if_current(&mut self, expected: Option<u64>) -> (r: bool)
        requires
            (expected matches Some(generation) ==> old(self).is_current(generation)) ==> old(
                self,
            ).has_next(),
        ensures
            match expected {
                Some(generation) => {
                    &&& r == old(self).is_current(generation)
                    &&& *final(self) == after(*old(self), Command::ClearIfCurrent(generation))
                },
                None => r && *final(self) == after(*old(self), Command::Clear),
            },
    {
        if let Some(generation) = expected {
            if self.generation != generation {
                return false;
            }
        }
        self.generation = self.generation + 1;
        self.active = false;
        self.opacity = 0;
        true
    }

    /// Take both layers down, whatever is running.
    pub fn clear(&mut self)
        requires
            old(self).has_next(),
        ensures
            *final(self) == after(*old(self), Command::Clear),
    {
        self.clear_if_current(None);
    }
}

impl Fade {
    /// Whether the fade has drawn at most all of its frames.
    pub open spec fn wf(self) -> bool {
        self.step <= FADE_STEPS
    }

    /// What this fade does next, where the overlay's state is `overlay`.
    pub fn next_frame(&mut self, overlay: &PlaybackOverlay) -> (r: Frame)
        requires
            old(self).wf(),
        ensures
            final(self).wf(),
            if old(self).step == FADE_STEPS {
                r == Frame::Settled && *final(self) == *old(self)
            } else if !overlay.is_current(old(self).generation) {
                r == Frame::Superseded && *final(self) == *old(self)
            } else {
                &&& *final(self) == (Fade { step: (old(self).step + 1) as u32, ..*old(self) })
                &&& r matches Frame::Draw(opacity) && opacity == between(
                    old(self).start,
                    old(self).end,
                    final(self).step as nat,
                    FADE_STEPS as nat,
                )
            },
    {
        if self.step == FADE_STEPS {
            Frame::Settled
        } else if overlay.generation != self.generation {
            Frame::Superseded
        } else {
            self.step = self.step + 1;
            Frame::Draw(lerp_u8(self.start, self.end, self.step, FADE_STEPS))
        }
    }
}

impl Spinner {
    /// How long to wait for the next frame, seen at `now`; the frame after it
    /// is due one interval later, however late this one is.
    pub fn wait(&mut self, now: u64) -> (r: u64)
        requires
            old(self).due + old(self).interval <= u64::MAX,
        ensures
            r == if old(self).due > now {
                old(self).due - now
            } else {
                0
            },
            *final(self) == (Spinner {
                due: (old(self).due + old(self).interval) as u64,
                ..*old(self)
            }),
    {
        let r: u64 = if self.due > now {
            self.due - now
        } else {
            0
        };
        self.due = self.due + self.interval;
        r
    }

    /// The angle of the next frame, or `None` when the spinner is stale and
    /// its thread ends.
    pub fn turn(&mut self, overlay: &PlaybackOverlay) -> (r: Option<u32>)
        requires
            old(self).angle < 360,
        ensures
            final(self).angle < 360,
            match r {
                Some(angle) => {
                    &&& overlay.is_current(old(self).generation)
                    &&& angle == turned(old(self).angle as nat)
                    &&& *final(self) == (Spinner { angle, ..*old(self) })
                },
                None => !overlay.is_current(old(self).generation) && *final(self) == *old(self),
            },
    {
        if overlay.generation != self.generation {
            return None;
        }
        self.angle = (self.angle + SPINNER_DEGREES) % 360;
        Some(self.angle)
    }
}

/// The opacities through which the clock is faded in.
pub fn fade_in_opacities() -> (r: Vec<u8>)
    ensures
        r@.len() == FADE_STEPS,
        forall|i: int|
            0 <= i < FADE_STEPS ==> #[trigger] r@[i] == between(
                0,
                255,
                (i + 1) as nat,
                FADE_STEPS as nat,
            ),
{
    let mut r: Vec<u8> = Vec::new();
    let mut step: u32 = 0;
    while step < FADE_STEPS
        invariant
            step <= FADE_STEPS,
            r@.len() == step,
            forall|i: int|
                0 <= i < step ==> #[trigger] r@[i] == between(
                    0,
                    255,
                    (i + 1) as nat,
                    FADE_STEPS as nat,
                ),
        decreases FADE_STEPS - step,
    {
        step = step + 1;
        r.push(lerp_u8(0, 255, step, FADE_STEPS));
    }
    r
}

/// The `osd-overlay` commands of one frame: the rectangle, and the spinner at
/// its angle or no spinner.
pub fn frame_commands(opacity: u8, spinner: Option<u32>, arc: &Vec<osd::Point>) -> (r: Vec<
    Vec<String>,
>)
    ensures
        r@.len() == 2,
        text::texts(r@[0]@) == osd::draw_arguments(osd::FADE_ID, osd::rectangle_event(opacity)),
        text::texts(r@[1]@) == (match spinner {
            Some(angle) => osd::draw_arguments(
                osd::SPINNER_ID,
                osd::spinner_event(angle as nat, osd::outline(arc@)),
            ),
            None => osd::remove_arguments(osd::SPINNER_ID),
        }),
{
    let mut r: Vec<Vec<String>> = Vec::new();
    r.push(osd::draw_args(osd::FADE_ID, osd::rectangle_ass(opacity).as_str()));
    match spinner {
        Some(angle) => {
            r.push(osd::draw_args(osd::SPINNER_ID, osd::spinner_ass(angle, arc).as_str()));
        },
        None => {
            r.push(osd::remove_args(osd::SPINNER_ID));
        },
    }
    r
}

/// The `osd-overlay` commands that take both layers down.
pub fn clear_commands() -> (r: Vec<Vec<String>>)
    ensures
        r@.len() == 2,
        text::texts(r@[0]@) == osd::remove_arguments(osd::FADE_ID),
        text::texts(r@[1]@) == osd::remove_arguments(osd::SPINNER_ID),
{
    let mut r: Vec<Vec<String>> = Vec::new();
    r.push(osd::remove_args(osd::FADE_ID));
    r.push(osd::remove_args(osd::SPINNER_ID));
    r
}

// ---------------------------------------------------------------------------
// Laws
// ---------------------------------------------------------------------------

/// The overlay after a sequence of commands.
pub open spec fn after_all(overlay: PlaybackOverlay, commands: Seq<Command>) -> PlaybackOverlay
    decreases commands.len(),
{
    if commands.len() == 0 {
        overlay
    } else {
        after(after_all(overlay, commands.drop_last()), commands.last())
    }
}

/// Generations only grow, by at most one for each command.
pub proof fn lemma_generations_grow(overlay: PlaybackOverlay, commands: Seq<Command>)
    requires
        overlay.generation + commands.len() <= u64::MAX,
    ensures
        overlay.generation <= after_all(overlay, commands).generation <= overlay.generation
            + commands.len(),
    decreases commands.len(),
{
    if commands.len() > 0 {
        lemma_generations_grow(overlay, commands.drop_last());
    }
}

/// An animation that was superseded stays superseded: whatever commands come
/// after, its generation is never current again.
pub proof fn lemma_superseded_for_good(
    overlay: PlaybackOverlay,
    generation: u64,
    commands: Seq<Command>,
)
    requires
        generation < overlay.generation,
        overlay.generation + commands.len() <= u64::MAX,
    ensures
        !after_all(overlay, commands).is_current(generation),
{
    lemma_generations_grow(overlay, commands);
}

/// Every command that starts an animation, stops the spinner or clears the
/// overlay supersedes the animation that was running.
pub proof fn lemma_commands_supersede(overlay: PlaybackOverlay, command: Command)
    requires
        overlay.has_next(),
        match command {
            Command::Uncover => overlay.active,
            Command::ClearIfCurrent(generation) => overlay.is_current(generation),
            Command::SettleBlack(_) => false,
            Command::MarkRestarted => false,
            _ => true,
        },
    ensures
        overlay.generation < after(overlay, command).generation,
{
}

/// The teardown at the end of a fade that was superseded, and its settling,
/// change nothing.
pub proof fn lemma_a_stale_fade_changes_nothing(overlay: PlaybackOverlay, generation: u64)
    requires
        !overlay.is_current(generation),
    ensures
        after(overlay, Command::ClearIfCurrent(generation)) == overlay,
        after(overlay, Command::SettleBlack(generation)) == overlay,
{
}

/// The spinner's angle after `n` frames.
pub open spec fn angle_after(n: nat) -> nat
    decreases n,
{
    if n == 0 {
        0
    } else {
        turned(angle_after((n - 1) as nat))
    }
}

/// The spinner turns evenly: after `n` frames it stands at `12 n` degrees, so
/// it is back where it began after thirty.
pub proof fn lemma_the_spinner_turns_evenly(n: nat)
    ensures
        angle_after(n) == SPINNER_DEGREES * n % 360,
    decreases n,
{
    if n > 0 {
        lemma_the_spinner_turns_evenly((n - 1) as nat);
        assert((SPINNER_DEGREES * (n - 1) % 360 + SPINNER_DEGREES) % 360 == SPINNER_DEGREES * n
            % 360);
    }
}

/// A fade is twenty frames of 20 milliseconds; the spinner turns by 12 degrees
/// every 33 milliseconds.
pub proof fn lemma_how_animations_run(angle: nat)
    ensures
        FADE_STEPS == 20,
        FADE_STEP_MS == 20,
        SPINNER_STEP_MS == 33,
        turned(angle) == (angle + 12) % 360,
{
}

/// A fade goes evenly: each frame is the share of the way that its number is of
/// all frames, rounded towards where the fade began.
pub proof fn lemma_fades_are_even(start: u8, end: u8, step: nat, steps: nat)
    requires
        0 < steps,
        step <= steps,
    ensures
        start <= end ==> (between(start, end, step, steps) - start) * steps <= (end - start) * step
            < (between(start, end, step, steps) - start + 1) * steps,
        end <= start ==> (start - between(start, end, step, steps)) * steps <= (start - end) * step
            < (start - between(start, end, step, steps) + 1) * steps,
{
    let d: int = if start <= end {
        end - start
    } else {
        start - end
    };
    let q = d * step / steps as int;
    assert(q * steps <= d * step < (q + 1) * steps) by (nonlinear_arith)
        requires
            0 < steps,
            q == d * step / steps as int,
    ;
    if start == end {
        assert(d * step == 0) by (nonlinear_arith)
            requires
                d == 0,
        ;
        assert(q == 0) by (nonlinear_arith)
            requires
                q == d * step / steps as int,
                d == 0,
                0 < steps,
        ;
    }
}

/// What each command does to the overlay. A fade to black and a spinner put it
/// up, the spinner as one of a load that has not begun to render; fading away
/// leaves it up until it is cleared; stopping the spinner leaves the black;
/// clearing leaves nothing.
pub proof fn lemma_what_commands_do(overlay: PlaybackOverlay, generation: u64)
    requires
        overlay.has_next(),
    ensures
        after(overlay, Command::Conceal) == (PlaybackOverlay {
            generation: (overlay.generation + 1) as u64,
            active: true,
            opacity: overlay.opacity,
            restarted: overlay.restarted,
        }),
        after(overlay, Command::SpawnSpinner) == (PlaybackOverlay {
            generation: (overlay.generation + 1) as u64,
            active: true,
            opacity: overlay.opacity,
            restarted: false,
        }),
        overlay.active ==> after(overlay, Command::Uncover) == (PlaybackOverlay {
            generation: (overlay.generation + 1) as u64,
            ..overlay
        }),
        !overlay.active ==> after(overlay, Command::Uncover) == overlay,
        after(overlay, Command::StopSpinner) == (PlaybackOverlay {
            generation: (overlay.generation + 1) as u64,
            ..overlay
        }),
        after(overlay, Command::Clear) == (PlaybackOverlay {
            generation: (overlay.generation + 1) as u64,
            active: false,
            opacity: 0,
            restarted: overlay.restarted,
        }),
        overlay.generation == generation ==> after(overlay, Command::ClearIfCurrent(generation))
            == after(overlay, Command::Clear),
        overlay.generation != generation ==> after(overlay, Command::ClearIfCurrent(generation))
            == overlay,
        overlay.generation == generation ==> after(overlay, Command::SettleBlack(generation)) == (
        PlaybackOverlay { opacity: 255, ..overlay }),
        overlay.generation != generation ==> after(overlay, Command::SettleBlack(generation))
            == overlay,
        after(overlay, Command::MarkRestarted) == (PlaybackOverlay { restarted: true, ..overlay }),
{
}

} // verus!
