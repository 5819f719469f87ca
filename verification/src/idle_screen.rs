//! What is on screen while nothing plays: a clock, on black or over a
//! wallpaper image that changes once a minute.
//!
//! Each time the idle screen is shown, a redraw loop of its own keeps it
//! current. The loop carries the generation it was started with and ends as
//! soon as another command has moved the generation on, so loops never pile up
//! and never draw over what came later.

use vstd::prelude::*;

use crate::osd;
use crate::text;

verus! {

/// Milliseconds between two wallpapers.
pub const WALLPAPER_ROTATION_INTERVAL_MS: u64 = 60_000;

/// Milliseconds between two redraws of the clock.
pub const CLOCK_REFRESH_INTERVAL_MS: u64 = 1_000;

/// Content shown while nothing is playing.
#[derive(Debug, Clone, Copy, PartialEq, Eq, Structural)]
pub enum IdleScreen {
    /// The local time as `HH:MM`, centred.
    Clock,
}

impl IdleScreen {
    /// How often the screen has to be redrawn to stay current, in
    /// milliseconds; `None` for content that one drawing is enough for.
    pub fn refresh_interval(self) -> (r: Option<u64>)
        ensures
            r == (match self {
                IdleScreen::Clock => Some(CLOCK_REFRESH_INTERVAL_MS),
            }),
    {
        match self {
            IdleScreen::Clock => Some(CLOCK_REFRESH_INTERVAL_MS),
        }
    }

    /// The `osd-overlay` commands that draw this screen at `opacity` on a
    /// black background. The background and the content are overlays of their
    /// own, because an ASS event has only one position.
    pub fn render(self, opacity: u8, time: &str) -> (r: Vec<Vec<String>>)
        ensures
            r@.len() == 2,
            text::texts(r@[0]@) == osd::draw_arguments(
                osd::IDLE_BACKGROUND_ID,
                osd::rectangle_event(opacity),
            ),
            text::texts(r@[1]@) == osd::draw_arguments(
                osd::IDLE_FOREGROUND_ID,
                osd::clock_event(opacity, time@),
            ),
    {
        let mut r: Vec<Vec<String>> = Vec::new();
        r.push(osd::draw_args(osd::IDLE_BACKGROUND_ID, osd::rectangle_ass(opacity).as_str()));
        r.push(osd::draw_args(osd::IDLE_FOREGROUND_ID, osd::clock_ass(opacity, time).as_str()));
        r
    }

    /// The commands that draw this screen over a wallpaper: the same opaque
    /// content, with no background in front of the image.
    pub fn render_over_wallpaper(self, time: &str) -> (r: Vec<Vec<String>>)
        ensures
            r@.len() == 2,
            text::texts(r@[0]@) == osd::remove_arguments(osd::IDLE_BACKGROUND_ID),
            text::texts(r@[1]@) == osd::draw_arguments(
                osd::IDLE_FOREGROUND_ID,
                osd::clock_event(255, time@),
            ),
    {
        let mut r: Vec<Vec<String>> = Vec::new();
        r.push(osd::remove_args(osd::IDLE_BACKGROUND_ID));
        r.push(osd::draw_args(osd::IDLE_FOREGROUND_ID, osd::clock_ass(255, time).as_str()));
        r
    }
}

/// The commands that take the idle screen down.
pub fn hide_commands() -> (r: Vec<Vec<String>>)
    ensures
        r@.len() == 2,
        text::texts(r@[0]@) == osd::remove_arguments(osd::IDLE_BACKGROUND_ID),
        text::texts(r@[1]@) == osd::remove_arguments(osd::IDLE_FOREGROUND_ID),
{
    let mut r: Vec<Vec<String>> = Vec::new();
    r.push(osd::remove_args(osd::IDLE_BACKGROUND_ID));
    r.push(osd::remove_args(osd::IDLE_FOREGROUND_ID));
    r
}

/// Which idle screen is shown, and on what.
#[derive(Debug, Clone, Copy, PartialEq, Eq, Structural)]
pub struct IdleScreenController {
    pub current: Option<IdleScreen>,
    /// Moved on by every show and hide.
    pub generation: u64,
    /// Whether the player's picture is a wallpaper image.
    pub wallpaper_active: bool,
    /// When the wallpaper last changed, in milliseconds of a clock that never
    /// goes back; `None` when it may change at once.
    pub last_wallpaper_change: Option<u64>,
}

/// The redraw loop of one showing of the idle screen.
#[derive(Debug, Clone, Copy, PartialEq, Eq, Structural)]
pub struct Redraw {
    pub generation: u64,
    pub screen: IdleScreen,
}

/// What has just happened in a redraw loop.
#[derive(Debug, Clone, Copy, PartialEq, Eq, Structural)]
pub enum RedrawEvent {
    /// The refresh interval has passed. `can_rotate` says whether there is a
    /// source of wallpapers at all.
    Woke { can_rotate: bool },
    /// A wallpaper was asked for; `found` says whether there is one, and no
    /// play or stop is under way.
    Picked { found: bool },
    /// The player was told to load the wallpaper.
    Loaded { ok: bool },
}

/// What a redraw loop does next.
#[derive(Debug, Clone, Copy, PartialEq, Eq, Structural)]
pub enum RedrawAction {
    /// Ask for a wallpaper, then wait for any play or stop to be over.
    Pick,
    /// Load the wallpaper that was picked.
    Load,
    /// Draw the clock on black, then wait for the refresh interval.
    DrawOnBlack,
    /// Draw the clock over the wallpaper, then wait for the refresh interval.
    DrawOverWallpaper,
    /// End the loop.
    End,
}

impl Default for IdleScreenController {
    fn default() -> (r: IdleScreenController)
        ensures
            r == (IdleScreenController {
                current: None,
                generation: 0,
                wallpaper_active: false,
                last_wallpaper_change: None,
            }),
    {
        IdleScreenController {
            current: None,
            generation: 0,
            wallpaper_active: false,
            last_wallpaper_change: None,
        }
    }
}

impl IdleScreenController {
    /// Whether there is a next generation.
    pub open spec fn has_next(self) -> bool {
        self.generation < u64::MAX
    }

    /// The idle screen after `screen` has been shown: on black, and free to
    /// take a wallpaper at once.
    pub open spec fn shown(self, screen: IdleScreen) -> IdleScreenController {
        IdleScreenController {
            current: Some(screen),
            generation: (self.generation + 1) as u64,
            wallpaper_active: false,
            last_wallpaper_change: None,
        }
    }

    /// The idle screen after it has been hidden.
    pub open spec fn hidden(self) -> IdleScreenController {
        if self.current is None {
            self
        } else {
            IdleScreenController {
                current: None,
                generation: (self.generation + 1) as u64,
                wallpaper_active: false,
                ..self
            }
        }
    }

    /// The idle screen after a wallpaper was loaded.
    pub open spec fn with_wallpaper(self, now: u64) -> IdleScreenController {
        IdleScreenController {
            wallpaper_active: true,
            last_wallpaper_change: Some(now),
            ..self
        }
    }

    /// Whether `redraw` still belongs to what is shown.
    pub open spec fn is_current(self, redraw: Redraw) -> bool {
        self.generation == redraw.generation && self.current == Some(redraw.screen)
    }

    /// Whether the wallpaper is to change: never changed yet, or a whole
    /// interval ago.
    pub open spec fn rotation_due(self, now: u64) -> bool {
        match self.last_wallpaper_change {
            None => true,
            Some(then_ms) => now >= then_ms + WALLPAPER_ROTATION_INTERVAL_MS,
        }
    }

    /// How `redraw` draws, if it may: over the wallpaper if there is one.
    pub open spec fn drawing(self, redraw: Redraw) -> RedrawAction {
        if !self.is_current(redraw) {
            RedrawAction::End
        } else if self.wallpaper_active {
            RedrawAction::DrawOverWallpaper
        } else {
            RedrawAction::DrawOnBlack
        }
    }

    /// The state after an event in a redraw loop: only a wallpaper that did
    /// load changes it.
    pub open spec fn after(self, event: RedrawEvent, now: u64) -> IdleScreenController {
        match event {
            RedrawEvent::Loaded { ok: true } => self.with_wallpaper(now),
            _ => self,
        }
    }

    /// What a redraw loop does after an event.
    pub open spec fn next(self, redraw: Redraw, event: RedrawEvent, now: u64) -> RedrawAction {
        let state = self.after(event, now);
        match event {
            RedrawEvent::Woke { can_rotate } => if state.is_current(redraw) && can_rotate
                && state.rotation_due(now) {
                RedrawAction::Pick
            } else {
                state.drawing(redraw)
            },
            RedrawEvent::Picked { found } => if state.is_current(redraw) && found {
                RedrawAction::Load
            } else {
                state.drawing(redraw)
            },
            RedrawEvent::Loaded { ok: _ } => state.drawing(redraw),
        }
    }

    /// The idle screen that is shown, or `None` while something plays.
    pub fn current(&self) -> (r: Option<IdleScreen>)
        ensures
            r == self.current,
    {
        self.current
    }

    /// Whether the player's picture is a wallpaper.
    pub fn is_wallpaper_active(&self) -> (r: bool)
        ensures
            r == self.wallpaper_active,
    {
        self.wallpaper_active
    }

    /// `screen` has been drawn, opaque, and is now the one shown. Returns the
    /// redraw loop to start.
    pub fn show(&mut self, screen: IdleScreen) -> (r: Redraw)
        requires
            old(self).has_next(),
        ensures
            *final(self) == old(self).shown(screen),
            r == (Redraw { generation: final(self).generation, screen }),
            final(self).is_current(r),
    {
        self.current = Some(screen);
        self.generation = self.generation + 1;
        self.wallpaper_active = false;
        self.last_wallpaper_change = None;
        Redraw { generation: self.generation, screen }
    }

    /// Hide the idle screen. Says whether one was shown, and so whether its
    /// overlays are to be removed.
    pub fn take_down(&mut self) -> (r: bool)
        requires
            old(self).current is Some ==> old(self).has_next(),
        ensures
            *final(self) == old(self).hidden(),
            r == old(self).current is Some,
    {
        match self.current {
            None => false,
            Some(_) => {
                self.current = None;
                self.generation = self.generation + 1;
                self.wallpaper_active = false;
                true
            },
        }
    }

    /// One step of a redraw loop.
    pub fn redraw(&mut self, redraw: Redraw, event: RedrawEvent, now: u64) -> (r: RedrawAction)
        ensures
            *final(self) == old(self).after(event, now),
            r == old(self).next(redraw, event, now),
    {
        if let RedrawEvent::Loaded { ok: true } = event {
            self.wallpaper_active = true;
            self.last_wallpaper_change = Some(now);
        }
        let shown: bool = match self.current {
            None => false,
            Some(screen) => screen == redraw.screen,
        };
        if self.generation != redraw.generation || !shown {
            return RedrawAction::End;
        }
        let due: bool = match self.last_wallpaper_change {
            None => true,
            Some(then_ms) => now >= then_ms && now - then_ms >= WALLPAPER_ROTATION_INTERVAL_MS,
        };
        match event {
            RedrawEvent::Woke { can_rotate } => {
                if can_rotate && due {
                    return RedrawAction::Pick;
                }
            },
            RedrawEvent::Picked { found } => {
                if found {
                    return RedrawAction::Load;
                }
            },
            RedrawEvent::Loaded { ok: _ } => {},
        }
        if self.wallpaper_active {
            RedrawAction::DrawOverWallpaper
        } else {
            RedrawAction::DrawOnBlack
        }
    }
}

// ---------------------------------------------------------------------------
// Laws
// ---------------------------------------------------------------------------

/// A redraw loop that another show or hide has overtaken ends at its next
/// step: it neither loads a wallpaper nor draws.
pub proof fn lemma_an_overtaken_loop_ends(
    idle: IdleScreenController,
    redraw: Redraw,
    event: RedrawEvent,
    now: u64,
)
    requires
        !idle.is_current(redraw),
    ensures
        idle.next(redraw, event, now) == RedrawAction::End,
{
}

/// Showing a screen, and hiding the one that is shown, overtakes every redraw
/// loop started before.
pub proof fn lemma_show_and_hide_overtake(
    idle: IdleScreenController,
    redraw: Redraw,
    screen: IdleScreen,
)
    requires
        idle.has_next(),
        redraw.generation <= idle.generation,
    ensures
        !idle.shown(screen).is_current(redraw),
        !idle.hidden().is_current(redraw),
{
}

/// A wallpaper never takes the screen from what plays: it is loaded only while
/// the idle screen that asked for it is still the one shown.
pub proof fn lemma_wallpapers_never_replace_playback(
    idle: IdleScreenController,
    redraw: Redraw,
    event: RedrawEvent,
    now: u64,
)
    ensures
        idle.next(redraw, event, now) == RedrawAction::Load ==> idle.current == Some(redraw.screen)
            && idle.generation == redraw.generation,
{
}

/// A wallpaper stays for a whole interval; after that, and in a fresh idle
/// period at once, it may change.
pub proof fn lemma_wallpapers_change_once_an_interval(
    idle: IdleScreenController,
    screen: IdleScreen,
    loaded: u64,
    now: u64,
)
    ensures
        idle.shown(screen).rotation_due(now),
        idle.with_wallpaper(loaded).rotation_due(now) <==> now >= loaded
            + WALLPAPER_ROTATION_INTERVAL_MS,
{
}

/// A wallpaper never takes the clock away, and never outlives it: loading one
/// leaves the screen that is shown, and hiding the clock leaves no wallpaper.
pub proof fn lemma_the_clock_stays_over_a_wallpaper(
    idle: IdleScreenController,
    redraw: Redraw,
    now: u64,
)
    requires
        idle.is_current(redraw),
    ensures
        idle.with_wallpaper(now).current == idle.current,
        idle.next(redraw, RedrawEvent::Loaded { ok: true }, now) == RedrawAction::DrawOverWallpaper,
        !idle.with_wallpaper(now).hidden().wallpaper_active,
{
}

/// The clock is redrawn once a second, and the wallpaper changes once a minute.
pub proof fn lemma_how_often_the_idle_screen_changes(
    idle: IdleScreenController,
    changed: u64,
    now: u64,
)
    ensures
        CLOCK_REFRESH_INTERVAL_MS == 1000,
        idle.last_wallpaper_change is None ==> idle.rotation_due(now),
        idle.last_wallpaper_change == Some(changed) ==> (idle.rotation_due(now) <==> now >= changed
            + 60000),
{
}

/// Showing the idle screen puts it on black, in a new generation; hiding it
/// leaves neither it nor a wallpaper, and hiding nothing changes nothing; a
/// wallpaper that was loaded is active, and since when is known.
pub proof fn lemma_what_changes_the_idle_screen(
    idle: IdleScreenController,
    screen: IdleScreen,
    now: u64,
)
    requires
        idle.has_next(),
    ensures
        idle.shown(screen).current == Some(screen),
        idle.shown(screen).generation == idle.generation + 1,
        !idle.shown(screen).wallpaper_active,
        idle.shown(screen).last_wallpaper_change is None,
        idle.hidden().current is None,
        idle.current is Some ==> idle.hidden().generation == idle.generation + 1,
        idle.current is Some ==> !idle.hidden().wallpaper_active,
        idle.current is None ==> idle.hidden() == idle,
        idle.with_wallpaper(now).wallpaper_active,
        idle.with_wallpaper(now).last_wallpaper_change == Some(now),
        idle.with_wallpaper(now).current == idle.current,
        idle.with_wallpaper(now).generation == idle.generation,
        idle.after(RedrawEvent::Loaded { ok: true }, now) == idle.with_wallpaper(now),
        idle.after(RedrawEvent::Loaded { ok: false }, now) == idle,
{
}

/// What a redraw loop that is still the one shown does: it asks for a wallpaper
/// when one is due and there is a source of them, loads the one that was found,
/// and else draws the clock, over the wallpaper where there is one and on black
/// where there is none.
pub proof fn lemma_what_a_redraw_loop_does(
    idle: IdleScreenController,
    redraw: Redraw,
    can_rotate: bool,
    found: bool,
    now: u64,
)
    requires
        idle.current == Some(redraw.screen),
        idle.generation == redraw.generation,
    ensures
        idle.is_current(redraw),
        idle.next(redraw, RedrawEvent::Woke { can_rotate }, now) == RedrawAction::Pick
            <==> can_rotate && idle.rotation_due(now),
        idle.next(redraw, RedrawEvent::Picked { found }, now) == RedrawAction::Load <==> found,
        !(can_rotate && idle.rotation_due(now)) && idle.wallpaper_active ==> idle.next(
            redraw,
            RedrawEvent::Woke { can_rotate },
            now,
        ) == RedrawAction::DrawOverWallpaper,
        !(can_rotate && idle.rotation_due(now)) && !idle.wallpaper_active ==> idle.next(
            redraw,
            RedrawEvent::Woke { can_rotate },
            now,
        ) == RedrawAction::DrawOnBlack,
        idle.wallpaper_active ==> idle.next(redraw, RedrawEvent::Picked { found: false }, now)
            == RedrawAction::DrawOverWallpaper,
        !idle.wallpaper_active ==> idle.next(redraw, RedrawEvent::Picked { found: false }, now)
            == RedrawAction::DrawOnBlack,
        idle.wallpaper_active ==> idle.next(redraw, RedrawEvent::Loaded { ok: false }, now)
            == RedrawAction::DrawOverWallpaper,
        !idle.wallpaper_active ==> idle.next(redraw, RedrawEvent::Loaded { ok: false }, now)
            == RedrawAction::DrawOnBlack,
{
}

/// A redraw loop of another generation, or of a screen that is not shown, ends.
pub proof fn lemma_which_redraw_loops_end(
    idle: IdleScreenController,
    redraw: Redraw,
    event: RedrawEvent,
    now: u64,
)
    requires
        idle.generation != redraw.generation || idle.current is None,
    ensures
        idle.next(redraw, event, now) == RedrawAction::End,
{
}

} // verus!
