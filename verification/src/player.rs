//! The player: what is queued, what is loading, and who has the screen.
//!
//! `Player` decides; it does no work itself. A command that takes work returns
//! a `Task`, whose steps are done one at a time and reported back with
//! `Player::report`, and which `Player::finish` ends. Events of the media
//! player and of the browser come in through methods of their own.

use vstd::prelude::*;
use vstd::string::*;

use crate::fcast;
use crate::fcast::{PlayMessage, PlayTarget, PlaybackState, PlaybackUpdateMessage, Real};
use crate::idle_screen::{IdleScreen, IdleScreenController, Redraw, RedrawAction, RedrawEvent};
use crate::overlay;
use crate::overlay::{Fade, PlaybackOverlay};
use crate::queue;
use crate::queue::{Queue, QueueMove};
use crate::routing;
use crate::routing::{Resolution, Routing};
use crate::script;
use crate::script::{Op, Run};
use crate::text;
use crate::webpage;
use crate::webpage::{PageError, WebpageController};

verus! {

// ---------------------------------------------------------------------------
// Where a message goes
// ---------------------------------------------------------------------------

/// Where a `Play` goes.
#[derive(Debug)]
pub enum Route {
    /// To the browser.
    Page(String),
    /// To the media player. `probing` where the sender did not say what it is.
    Media { url: String, probing: bool },
}

/// A route, with its URL as a text.
pub enum RouteView {
    Page(Seq<char>),
    Media { url: Seq<char>, probing: bool },
}

impl View for Route {
    type V = RouteView;

    open spec fn view(&self) -> RouteView {
        match self {
            Route::Page(url) => RouteView::Page(url@),
            Route::Media { url, probing } => RouteView::Media { url: url@, probing: *probing },
        }
    }
}

/// Why a `Play` is refused.
#[derive(Debug)]
pub enum PlayError {
    /// It asks for a web page, by this container, and names none.
    PageWithoutUrl(String),
    /// It asks for a web page that cannot be displayed.
    Page(PageError),
    /// It carries its content, which is not supported.
    InlineContent,
    /// It has nothing to play.
    NothingToPlay,
}

/// Why a `Play` is refused, with strings as texts.
pub enum PlayErrorView {
    PageWithoutUrl(Seq<char>),
    Scheme(Seq<char>),
    NoRoom(Seq<char>),
    InlineContent,
    NothingToPlay,
}

impl View for PlayError {
    type V = PlayErrorView;

    open spec fn view(&self) -> PlayErrorView {
        match self {
            PlayError::PageWithoutUrl(container) => PlayErrorView::PageWithoutUrl(container@),
            PlayError::Page(PageError::Scheme(url)) => PlayErrorView::Scheme(url@),
            PlayError::Page(PageError::NoRoom(root)) => PlayErrorView::NoRoom(root@),
            PlayError::InlineContent => PlayErrorView::InlineContent,
            PlayError::NothingToPlay => PlayErrorView::NothingToPlay,
        }
    }
}

impl PlayError {
    /// The text of the error.
    pub open spec fn text(self) -> Seq<char> {
        match self {
            PlayError::PageWithoutUrl(container) => "Play message targets a web page (container "@
                + text::debug_quoted(container@)
                + ") but has no `url`; pass the page's http(s):// or file:// URL"@,
            PlayError::Page(e) => e.text(),
            PlayError::InlineContent =>
                "Play message carries inline `content` (e.g. a DASH manifest) with no `url`; inline manifest playback is not yet supported"@,
            PlayError::NothingToPlay => "Play message has neither `url` nor `content`"@,
        }
    }

    /// Why the message is refused, in words.
    pub fn message(&self) -> (r: String)
        ensures
            r@ == self.text(),
    {
        match self {
            PlayError::PageWithoutUrl(container) => {
                let mut r: String = "Play message targets a web page (container ".to_string();
                r.append(text::quoted(container.as_str()).as_str());
                r.append(") but has no `url`; pass the page's http(s):// or file:// URL");
                r
            },
            PlayError::Page(e) => e.message(),
            PlayError::InlineContent =>
                "Play message carries inline `content` (e.g. a DASH manifest) with no `url`; inline manifest playback is not yet supported".to_string(),
            PlayError::NothingToPlay =>
                "Play message has neither `url` nor `content`".to_string(),
        }
    }
}

/// Where `message` goes, or why it is refused. A container that names a web
/// MIME type means the browser, another one media; without one it is tried as
/// media first.
pub open spec fn routed(browser: webpage::Browser, message: fcast::PlayView) -> Result<
    RouteView,
    PlayErrorView,
> {
    let target = fcast::container_target(message.container);
    if target == Some(PlayTarget::Webpage) {
        match message.url {
            None => Err(PlayErrorView::PageWithoutUrl(message.container->0)),
            Some(url) => if !webpage::valid_url(url) {
                Err(PlayErrorView::Scheme(url))
            } else if !browser.has_room() {
                Err(PlayErrorView::NoRoom(browser.root@))
            } else {
                Ok(RouteView::Page(url))
            },
        }
    } else {
        match message.url {
            Some(url) => Ok(RouteView::Media { url, probing: target is None }),
            None => if message.content is Some {
                Err(PlayErrorView::InlineContent)
            } else {
                Err(PlayErrorView::NothingToPlay)
            },
        }
    }
}

/// Where a message goes, or why it is refused.
pub fn route(page: &WebpageController, message: &PlayMessage) -> (r: Result<Route, PlayError>)
    ensures
        match r {
            Ok(route) => routed(page.browser, message@) == Ok::<RouteView, PlayErrorView>(route@),
            Err(e) => routed(page.browser, message@) == Err::<RouteView, PlayErrorView>(e@),
        },
{
    let target: Option<PlayTarget> = message.explicit_target();
    if let Some(PlayTarget::Webpage) = target {
        match &message.url {
            None => {
                let container: String = match &message.container {
                    Some(c) => c.clone(),
                    None => String::new(),
                };
                Err(PlayError::PageWithoutUrl(container))
            },
            Some(url) => match page.check(url.as_str()) {
                Ok(_) => Ok(Route::Page(url.clone())),
                Err(e) => Err(PlayError::Page(e)),
            },
        }
    } else {
        match &message.url {
            Some(url) => Ok(Route::Media { url: url.clone(), probing: target.is_none() }),
            None => if message.content.is_some() {
                Err(PlayError::InlineContent)
            } else {
                Err(PlayError::NothingToPlay)
            },
        }
    }
}

// ---------------------------------------------------------------------------
// Tasks
// ---------------------------------------------------------------------------

/// What a task is for.
#[derive(Debug, Clone, Copy, PartialEq, Eq, Structural)]
pub enum Purpose {
    /// To start something.
    Start,
    /// To stop.
    Stop,
    /// To stop and then empty the queue.
    Clear,
}

/// Work under way, and what it is about.
#[derive(Debug)]
pub struct Task {
    pub run: Run,
    /// The URL that is loaded or displayed.
    pub target: String,
    /// Whether the load also asks what the URL is.
    pub probing: bool,
    /// The move of the queue that is taken back if the task fails.
    pub moved: Option<QueueMove>,
    pub purpose: Purpose,
}

/// A task, with its strings as texts.
#[verifier::ext_equal]
pub struct TaskView {
    pub run: script::RunView,
    pub target: Seq<char>,
    pub probing: bool,
    pub moved: Option<QueueMove>,
    pub purpose: Purpose,
}

impl View for Task {
    type V = TaskView;

    open spec fn view(&self) -> TaskView {
        TaskView {
            run: self.run@,
            target: self.target@,
            probing: self.probing,
            moved: self.moved,
            purpose: self.purpose,
        }
    }
}

impl Task {
    /// Whether the task's run is well formed.
    pub open spec fn wf(self) -> bool {
        self.run.wf()
    }

    /// The next piece of work, or `None` when the task is to be finished.
    pub fn next(&self) -> (r: Option<Op>)
        requires
            self.wf(),
        ensures
            r == if self@.run.is_over() {
                None
            } else {
                Some(self@.run.rest[0].op)
            },
    {
        self.run.next()
    }
}

/// The task that starts `message` by its route.
pub open spec fn starting(
    route: RouteView,
    message: fcast::PlayView,
    moved: Option<QueueMove>,
) -> TaskView {
    match route {
        RouteView::Page(url) => TaskView {
            run: script::beginning(script::page_steps(), false),
            target: url,
            probing: false,
            moved,
            purpose: Purpose::Start,
        },
        RouteView::Media { url, probing } => TaskView {
            run: script::beginning(
                script::media_steps(message.time, message.volume, message.speed),
                false,
            ),
            target: url,
            probing,
            moved,
            purpose: Purpose::Start,
        },
    }
}

/// The task that displays `url` because it would not load as media.
pub open spec fn falling_back(url: Seq<char>, moved: Option<QueueMove>) -> TaskView {
    TaskView {
        run: script::beginning(script::fall_back_steps(), false),
        target: url,
        probing: false,
        moved,
        purpose: Purpose::Start,
    }
}

/// The task that stops, with the clock on screen or not, and a load under way
/// or not.
pub open spec fn stopping(clock_showing: bool, loading: bool, purpose: Purpose) -> TaskView {
    TaskView {
        run: script::beginning(
            script::stop_steps(clock_showing, loading),
            !(clock_showing && !loading),
        ),
        target: Seq::empty(),
        probing: false,
        moved: None,
        purpose,
    }
}

/// What starting by a route does to the loads under way: a page takes the
/// screen at once, so nothing is to be decided about them any more.
pub open spec fn loads_at_start(
    loads: Seq<routing::LoadView>,
    route: RouteView,
) -> Seq<routing::LoadView> {
    match route {
        RouteView::Page(_) => routing::after(loads, routing::Happening::Cancel),
        RouteView::Media { .. } => loads,
    }
}

// ---------------------------------------------------------------------------
// The player
// ---------------------------------------------------------------------------

/// Everything that the receiver decides by.
#[derive(Debug)]
pub struct Player {
    pub queue: Queue,
    pub routing: Routing,
    /// The entry that the media player began to open last.
    pub opening: Option<i64>,
    /// The URL submitted last.
    pub last_target: String,
    pub webpage: WebpageController,
    pub overlay: PlaybackOverlay,
    pub idle: IdleScreenController,
}

/// What an error of the media player leads to.
#[derive(Debug)]
pub enum MediaFailure {
    /// The URL is no media: display it.
    FallBack(Task),
    /// A playback error of this URL.
    Report(String),
    /// This URL has been superseded: nothing.
    Superseded(String),
    /// It is about no load, but about this entry, which was never submitted or
    /// is over: nothing.
    Unmatched(i64),
}

/// An event of the media player about a load.
#[derive(Debug, Clone, Copy, PartialEq, Eq, Structural)]
pub enum MediaEvent {
    /// The entry with this id is being opened.
    Started(i64),
    /// The entry that was being opened is open.
    FileLoaded,
    /// The entry with this id ended without an error: at its end, stopped,
    /// replaced, or expanded into others.
    Ended(i64),
    /// The entry with this id ended with an error.
    Failed(i64),
    /// The media player is going away.
    Shutdown,
    Other,
}

/// What an event of the media player leads to.
#[derive(Debug)]
pub enum MediaReaction {
    Failure(MediaFailure),
    Nothing,
    /// Stop watching.
    Quit,
}

/// What reaching the end of the file leads to.
#[derive(Debug)]
pub enum EndOfFile {
    /// The next item of the queue.
    Advance(Task),
    /// The clock.
    ShowClock,
}

/// An event in the life of a load.
#[derive(Debug, Clone, Copy, PartialEq, Eq, Structural)]
pub enum LifecycleEvent {
    /// The first frame is ready.
    PlaybackRestart,
    /// The load ended at the end of its file.
    EndedAtEof,
    /// The load ended with an error.
    Failed,
    /// The media player is going away.
    Shutdown,
    /// Anything else, among it the end of a load that another one replaced.
    Other,
}

/// What an event in the life of a load leads to.
#[derive(Debug)]
pub enum Lifecycle {
    /// Fade the black away.
    Uncover(Fade),
    /// Take the spinner down and bring the clock back.
    Restore(Run),
    /// Nothing.
    Ignore,
    /// Stop watching.
    Quit,
}

impl Lifecycle {
    /// Whether every sender is told at once what is playing: where playback
    /// begins. The steps that bring the clock back say it for themselves.
    pub fn publishes(&self) -> (r: bool)
        ensures
            r == (self is Uncover),
    {
        match self {
            Lifecycle::Uncover(_) => true,
            _ => false,
        }
    }
}

/// What the media player reports of itself; `None` where it does not say.
#[derive(Debug, Clone, Copy, PartialEq, Eq, Structural)]
pub struct MediaStatus {
    pub paused: Option<bool>,
    pub idle: Option<bool>,
    pub time: Option<Real>,
    pub duration: Option<Real>,
    pub speed: Option<Real>,
}

/// What a sender is told: a page is playing, and has no timeline; a wallpaper
/// is the idle screen, though the media player shows a picture.
pub open spec fn reported(page: bool, wallpaper: bool, media: MediaStatus, now: u64) -> PlaybackUpdateMessage {
    PlaybackUpdateMessage {
        generation_time: now,
        state: if page {
            PlaybackState::Playing
        } else if media.idle != Some(false) || wallpaper {
            PlaybackState::Idle
        } else if media.paused == Some(true) {
            PlaybackState::Paused
        } else {
            PlaybackState::Playing
        },
        time: if page {
            None
        } else {
            media.time
        },
        duration: if page {
            None
        } else {
            media.duration
        },
        speed: media.speed,
    }
}

impl Player {
    /// Whether nothing is playing: no page is up, and the clock is, or a load
    /// is under way that has not begun to render.
    pub open spec fn idle_now(self) -> bool {
        self.webpage.current is None && (self.idle.current is Some || (self.overlay.active
            && !self.overlay.restarted))
    }

    /// Whether `other` differs at most in its queue and its loads.
    pub open spec fn same_screen(self, other: Player) -> bool {
        &&& other.opening == self.opening
        &&& other.last_target == self.last_target
        &&& other.webpage == self.webpage
        &&& other.overlay == self.overlay
        &&& other.idle == self.idle
    }

    /// The move to `to` from where the queue stands.
    pub open spec fn move_to(self, to: usize) -> QueueMove {
        QueueMove { from: self.queue@.position, to }
    }

    /// A player with nothing loaded and nothing on screen.
    pub fn new(queue: Queue, webpage: WebpageController) -> (r: Player)
        ensures
            r.queue == queue,
            r.webpage == webpage,
            r.routing@ == Seq::<routing::LoadView>::empty(),
            r.opening is None,
            r.last_target@ == Seq::<char>::empty(),
            r.overlay == (PlaybackOverlay {
                generation: 0,
                active: false,
                opacity: 0,
                restarted: false,
            }),
            r.idle == (IdleScreenController {
                current: None,
                generation: 0,
                wallpaper_active: false,
                last_wallpaper_change: None,
            }),
    {
        Player {
            queue,
            routing: Routing::default(),
            opening: None,
            last_target: String::new(),
            webpage,
            overlay: PlaybackOverlay::default(),
            idle: IdleScreenController::default(),
        }
    }

    /// `screen` has been drawn and is now the one shown.
    pub fn show_idle_screen(&mut self, screen: IdleScreen) -> (r: Redraw)
        requires
            old(self).idle.has_next(),
        ensures
            *final(self) == (Player { idle: old(self).idle.shown(screen), ..*old(self) }),
            r == (Redraw { generation: final(self).idle.generation, screen }),
    {
        self.idle.show(screen)
    }

    /// Hide the idle screen. Says whether one was shown.
    pub fn hide_idle_screen(&mut self) -> (r: bool)
        requires
            old(self).idle.current is Some ==> old(self).idle.has_next(),
        ensures
            *final(self) == (Player { idle: old(self).idle.hidden(), ..*old(self) }),
            r == old(self).idle.current is Some,
    {
        self.idle.take_down()
    }

    /// The idle screen that is shown.
    pub fn idle_screen(&self) -> (r: Option<IdleScreen>)
        ensures
            r == self.idle.current,
    {
        self.idle.current()
    }

    /// Whether a page is on screen.
    pub fn webpage_active(&self) -> (r: bool)
        ensures
            r == self.webpage.current is Some,
    {
        self.webpage.is_active()
    }

    /// Whether the loading overlay is up.
    pub fn loading_overlay_active(&self) -> (r: bool)
        ensures
            r == self.overlay.active,
    {
        self.overlay.is_active()
    }

    /// Whether nothing is playing, so that a `Play` starts at once.
    pub fn is_idle(&self) -> (r: bool)
        ensures
            r == self.idle_now(),
    {
        !self.webpage.is_active() && (self.idle.current().is_some() || (self.overlay.is_active()
            && !self.overlay.is_restarted()))
    }

    /// Play `message` at once, in place of whatever is on screen. `moved` is
    /// the move of the queue that made its item current, if it has one.
    pub fn play_now(&mut self, message: &PlayMessage, moved: Option<QueueMove>) -> (r: Result<
        Task,
        PlayError,
    >)
        ensures
            old(self).same_screen(*final(self)),
            final(self).queue == old(self).queue,
            r matches Ok(task) ==> message@.url == Some(task@.target) && task@.moved == moved,
            r matches Ok(task) ==> {
                let steps = task@.run.rest;
                &&& forall|k: int|
                    0 <= k < steps.len() ==> ((#[trigger] steps[k]).op matches Op::SetStart(t)
                        ==> k > 4 && message@.time == Some(t))
                &&& forall|k: int|
                    0 <= k < steps.len() ==> ((#[trigger] steps[k]).op matches Op::SetVolume(v)
                        ==> k > 4 && message@.volume == Some(v))
                &&& forall|k: int|
                    0 <= k < steps.len() ==> ((#[trigger] steps[k]).op matches Op::SetSpeed(s)
                        ==> k > 4 && message@.speed == Some(s))
                &&& fcast::container_target(message@.container) != Some(PlayTarget::Webpage) ==> {
                    &&& steps[4].op == Op::LoadFile
                    &&& message@.time matches Some(t) ==> exists|k: int|
                        4 < k < steps.len() && (#[trigger] steps[k]).op == Op::SetStart(t)
                    &&& message@.volume matches Some(v) ==> exists|k: int|
                        4 < k < steps.len() && (#[trigger] steps[k]).op == Op::SetVolume(v)
                    &&& message@.speed matches Some(s) ==> exists|k: int|
                        4 < k < steps.len() && (#[trigger] steps[k]).op == Op::SetSpeed(s)
                }
            },
            match r {
                Ok(task) => {
                    &&& task.wf()
                    &&& routed(old(self).webpage.browser, message@) matches Ok(route) && task@
                        == starting(route, message@, moved) && final(self).routing@
                        == loads_at_start(old(self).routing@, route)
                },
                Err(e) => {
                    &&& final(self).routing == old(self).routing
                    &&& routed(old(self).webpage.browser, message@) == Err::<
                        RouteView,
                        PlayErrorView,
                    >(e@)
                },
            },
    {
        proof {
            let (t, v, s) = (message.time, message.volume, message.speed);
            let steps = script::media_steps(t, v, s);
            script::lemma_what_playing_media_takes(t, v, s);
            if t is Some {
                script::lemma_media_plays_as_asked(t, v, s, 0, 0, t->0);
            }
            if v is Some {
                script::lemma_media_plays_as_asked(t, v, s, 0, 0, v->0);
            }
            if s is Some {
                script::lemma_media_plays_as_asked(t, v, s, 0, 0, s->0);
            }
            assert(forall|k: int|
                0 <= k < steps.len() ==> ((#[trigger] steps[k]).op matches Op::SetStart(x) ==> k > 4
                    && t == Some(x)));
            assert(forall|k: int|
                0 <= k < steps.len() ==> ((#[trigger] steps[k]).op matches Op::SetVolume(x) ==> k > 4
                    && v == Some(x)));
            assert(forall|k: int|
                0 <= k < steps.len() ==> ((#[trigger] steps[k]).op matches Op::SetSpeed(x) ==> k > 4
                    && s == Some(x)));
        }
        match route(&self.webpage, message) {
            Err(e) => Err(e),
            Ok(Route::Page(url)) => {
                self.routing.cancel();
                Ok(
                    Task {
                        run: Run::page(),
                        target: url,
                        probing: false,
                        moved,
                        purpose: Purpose::Start,
                    },
                )
            },
            Ok(Route::Media { url, probing }) => Ok(
                Task {
                    run: Run::media(message.time, message.volume, message.speed),
                    target: url,
                    probing,
                    moved,
                    purpose: Purpose::Start,
                },
            ),
        }
    }

    /// Whether `after` and `result` are what a `Play` brings about: it is
    /// queued, and where nothing is playing it becomes the current item and
    /// starts; one that is refused changes nothing.
    pub open spec fn queued(
        self,
        message: fcast::PlayView,
        after: Player,
        result: Result<Option<Task>, PlayError>,
    ) -> bool {
        let index = self.queue@.items.len() as usize;
        &&& self.same_screen(after)
        &&& match routed(self.webpage.browser, message) {
            Err(e) => {
                &&& result matches Err(error) && error@ == e
                &&& after.queue == self.queue
                &&& after.routing == self.routing
            },
            Ok(route) => if self.idle_now() {
                &&& result matches Ok(Some(task)) && task.wf() && task@ == starting(
                    route,
                    message,
                    Some(self.move_to(index)),
                )
                &&& after.queue@ == self.queue@.pushed(message).at(Some(index))
                &&& after.routing@ == loads_at_start(self.routing@, route)
            } else {
                &&& result matches Ok(None)
                &&& after.queue@ == self.queue@.pushed(message)
                &&& after.routing == self.routing
            },
        }
    }

    /// A `Play` came in. It is queued; where nothing is playing it also
    /// becomes the current item and starts, and else waits its turn. One that
    /// cannot be played is refused, and changes nothing.
    pub fn play(&mut self, message: PlayMessage) -> (r: Result<Option<Task>, PlayError>)
        ensures
            old(self).queued(message@, *final(self), r),
            r is Ok ==> final(self).queue@.items.len() == old(self).queue@.items.len() + 1
                && final(self).queue@.items.last().message == message@,
            r matches Ok(started) ==> (started is Some <==> old(self).idle_now()),
            r is Err ==> final(self).queue@ == old(self).queue@,
    {
        if let Err(e) = route(&self.webpage, &message) {
            return Err(e);
        }
        let idle: bool = self.is_idle();
        let from: Option<usize> = self.queue.position();
        if !idle {
            let _ = self.queue.push(message);
            return Ok(None);
        }
        let copy: PlayMessage = message.clone();
        let to: usize = self.queue.push(message);
        self.queue.set_position(Some(to));
        match self.play_now(&copy, Some(QueueMove { from, to })) {
            Ok(task) => Ok(Some(task)),
            Err(e) => Err(e),
        }
    }

    /// Start the item that the queue has just moved to from `from`.
    fn start_current(&mut self, message: &PlayMessage, from: Option<usize>) -> (r: Result<
        Option<Task>,
        PlayError,
    >)
        requires
            old(self).queue@.position is Some,
        ensures
            old(self).same_screen(*final(self)),
            match r {
                Ok(Some(task)) => {
                    &&& task.wf()
                    &&& final(self).queue@ == old(self).queue@
                    &&& routed(old(self).webpage.browser, message@) matches Ok(route) && task@
                        == starting(
                        route,
                        message@,
                        Some(QueueMove { from, to: old(self).queue@.position->0 }),
                    ) && final(self).routing@ == loads_at_start(old(self).routing@, route)
                },
                Ok(None) => false,
                Err(e) => {
                    &&& final(self).queue@ == old(self).queue@.at(from)
                    &&& final(self).routing == old(self).routing
                    &&& routed(old(self).webpage.browser, message@) == Err::<
                        RouteView,
                        PlayErrorView,
                    >(e@)
                },
            },
    {
        let to: usize = match self.queue.position() {
            Some(p) => p,
            None => 0,
        };
        match self.play_now(message, Some(QueueMove { from, to })) {
            Ok(task) => Ok(Some(task)),
            Err(e) => {
                self.queue.set_position(from);
                Err(e)
            },
        }
    }

    /// Whether `after` and `result` are what a jump to `target` brings about:
    /// the item there becomes current and starts, whatever is playing; where
    /// there is none nothing starts; an item that cannot be played leaves the
    /// position as it was.
    pub open spec fn jump(
        self,
        target: Option<usize>,
        after: Player,
        result: Result<Option<Task>, PlayError>,
    ) -> bool {
        &&& self.same_screen(after)
        &&& match self.queue@.message_at(target) {
            None => {
                &&& result matches Ok(None)
                &&& after.queue@ == self.queue@.jumped(target)
                &&& after.routing == self.routing
            },
            Some(message) => match routed(self.webpage.browser, message) {
                Ok(route) => {
                    &&& result matches Ok(Some(task)) && task.wf() && task@ == starting(
                        route,
                        message,
                        Some(self.move_to(target->0)),
                    )
                    &&& after.queue@ == self.queue@.jumped(target)
                    &&& after.routing@ == loads_at_start(self.routing@, route)
                },
                Err(e) => {
                    &&& result matches Err(error) && error@ == e
                    &&& after.queue@ == self.queue@
                    &&& after.routing == self.routing
                },
            },
        }
    }

    /// Play the next item of the queue.
    pub fn jump_forward(&mut self) -> (r: Result<Option<Task>, PlayError>)
        ensures
            old(self).jump(old(self).queue@.next_index(), *final(self), r),
    {
        let from: Option<usize> = self.queue.position();
        match self.queue.jump_forward() {
            None => Ok(None),
            Some(message) => {
                let r: Result<Option<Task>, PlayError> = self.start_current(&message, from);
                assert(r is Err ==> self.queue@ =~= old(self).queue@);
                r
            },
        }
    }

    /// Play the previous item of the queue.
    pub fn jump_backward(&mut self) -> (r: Result<Option<Task>, PlayError>)
        ensures
            old(self).jump(old(self).queue@.previous_index(), *final(self), r),
    {
        let from: Option<usize> = self.queue.position();
        match self.queue.jump_backward() {
            None => Ok(None),
            Some(message) => {
                let r: Result<Option<Task>, PlayError> = self.start_current(&message, from);
                assert(r is Err ==> self.queue@ =~= old(self).queue@);
                r
            },
        }
    }

    /// Play the item of the queue at `index`, also where it is current.
    pub fn jump_to_index(&mut self, index: usize) -> (r: Result<Option<Task>, PlayError>)
        ensures
            old(self).jump(old(self).queue@.index_in_range(index), *final(self), r),
    {
        let from: Option<usize> = self.queue.position();
        match self.queue.jump_to_index(index) {
            None => Ok(None),
            Some(message) => {
                let r: Result<Option<Task>, PlayError> = self.start_current(&message, from);
                assert(r is Err ==> self.queue@ =~= old(self).queue@);
                r
            },
        }
    }
}

impl Player {
    /// Whether `after` and `task` are what a stop for this purpose brings about:
    /// nothing is to be decided about the loads under way any more, and the
    /// rest stays as it is until the task is done.
    pub open spec fn stops_for(self, purpose: Purpose, after: Player, task: Task) -> bool {
        &&& after == (Player { routing: after.routing, ..self })
        &&& after.routing@ == routing::after(self.routing@, routing::Happening::Cancel)
        &&& task.wf()
        &&& task@ == stopping(self.idle.current is Some, self.overlay.active, purpose)
    }

    /// Whether `after` and `task` are what a stop brings about.
    pub open spec fn stops(self, after: Player, task: Task) -> bool {
        self.stops_for(Purpose::Stop, after, task)
    }

    /// Whether `after` and `task` are what emptying the queue brings about:
    /// where its current item is playing, that is stopped first.
    pub open spec fn clears(self, after: Player, task: Option<Task>) -> bool {
        if self.queue@.position is Some && !self.idle_now() {
            task matches Some(t) && self.stops_for(Purpose::Clear, after, t)
        } else {
            &&& task is None
            &&& after == (Player { queue: after.queue, ..self })
            &&& after.queue@ == queue::QueueView::empty()
        }
    }

    /// Stop. Nothing is to be decided about the loads under way any more; the
    /// queue stays as it is.
    pub fn stop(&mut self) -> (task: Task)
        ensures
            old(self).stops(*final(self), task),
    {
        self.stop_for(Purpose::Stop)
    }

    fn stop_for(&mut self, purpose: Purpose) -> (task: Task)
        ensures
            old(self).stops_for(purpose, *final(self), task),
    {
        self.routing.cancel();
        let clock_showing: bool = self.idle.current().is_some();
        let loading: bool = self.overlay.is_active();
        Task {
            run: Run::stop(clock_showing, loading),
            target: String::new(),
            probing: false,
            moved: None,
            purpose,
        }
    }

    /// Empty the queue. Where its current item is playing, that is stopped
    /// first, and the queue is emptied when the task is finished.
    pub fn clear_queue(&mut self) -> (r: Option<Task>)
        ensures
            old(self).clears(*final(self), r),
    {
        if self.queue.position().is_some() && !self.is_idle() {
            return Some(self.stop_for(Purpose::Clear));
        }
        self.queue.clear();
        None
    }

    /// The next step of `task` was done, or failed. Says whether this failure
    /// is the one to report. The target is noted when its load is about to be
    /// submitted, and the load is listed as soon as it is. `entry` is the id
    /// that the media player gave to it, where the step submitted one, and is
    /// not looked at else.
    pub fn report(&mut self, task: &mut Task, ok: bool, entry: i64) -> (r: bool)
        requires
            old(task).wf(),
            !old(task)@.run.is_over(),
        ensures
            final(task).wf(),
            final(task)@ == (TaskView {
                run: old(task)@.run.after(ok, old(self).idle.current is Some),
                ..old(task)@
            }),
            r == old(task)@.run.blames(ok),
            *final(self) == (Player {
                last_target: final(self).last_target,
                routing: final(self).routing,
                ..*old(self)
            }),
            final(self).last_target@ == if ok && old(task)@.run.rest[0].op == Op::SpawnSpinner {
                old(task)@.target
            } else {
                old(self).last_target@
            },
            final(self).routing@ == if ok && old(task)@.run.rest[0].op == Op::LoadFile {
                routing::after(
                    old(self).routing@,
                    routing::Happening::Submit {
                        entry: Some(entry),
                        url: old(task)@.target,
                        probing: old(task)@.probing,
                        moved: old(task)@.moved,
                    },
                )
            } else {
                old(self).routing@
            },
    {
        if let Some(op) = task.run.next() {
            if ok && op == Op::SpawnSpinner {
                self.last_target = task.target.clone();
            }
            if ok && op == Op::LoadFile {
                self.routing.submit_item(
                    Some(entry),
                    task.target.as_str(),
                    task.probing,
                    task.moved,
                );
            }
        }
        let clock_showing: bool = self.idle.current().is_some();
        task.run.report(ok, clock_showing)
    }

    /// `task` is over. Says whether it succeeded. Where it failed, its item is
    /// no longer current; where it was to empty the queue and succeeded, the
    /// queue is empty.
    pub fn finish(&mut self, task: Task) -> (r: bool)
        requires
            task@.run.is_over(),
        ensures
            r == !task@.run.failed,
            *final(self) == (Player { queue: final(self).queue, ..*old(self) }),
            final(self).queue@ == if !r {
                old(self).queue@.reverted(task@.moved)
            } else if task@.purpose == Purpose::Clear {
                queue::QueueView::empty()
            } else {
                old(self).queue@
            },
    {
        if task.run.has_failed() {
            self.queue.revert(task.moved);
            false
        } else {
            if task.purpose == Purpose::Clear {
                self.queue.clear();
            }
            true
        }
    }

    /// The loads after the media player opened what it was opening.
    pub open spec fn opened(self) -> Seq<routing::LoadView> {
        match self.opening {
            Some(entry) => routing::after(
                self.routing@,
                routing::Happening::FileLoaded { entry: Some(entry) },
            ),
            None => self.routing@,
        }
    }

    /// The media player began to open an entry.
    pub fn media_started(&mut self, entry: i64)
        ensures
            *final(self) == (Player { opening: Some(entry), ..*old(self) }),
    {
        self.opening = Some(entry);
    }

    /// The media player opened the entry that it was opening.
    pub fn media_loaded(&mut self)
        ensures
            *final(self) == (Player { routing: final(self).routing, ..*old(self) }),
            final(self).routing@ == old(self).opened(),
    {
        if let Some(entry) = self.opening {
            self.routing.entry_loaded(Some(entry));
        }
    }

    /// The entry with this id ended without an error.
    pub fn media_ended(&mut self, entry: i64)
        ensures
            *final(self) == (Player { routing: final(self).routing, ..*old(self) }),
            final(self).routing@ == routing::after(
                old(self).routing@,
                routing::Happening::End { entry: Some(entry) },
            ),
    {
        self.routing.entry_ended(Some(entry));
    }

    /// Whether `after` and `result` are what an error of the entry with this id
    /// leads to: it resolves the load that was submitted under the id, and what
    /// it means is decided by that load alone; where there is none, nothing
    /// changes. An item whose load failed is no longer current, unless its URL
    /// is tried as a page first.
    pub open spec fn failure(self, entry: i64, after: Player, result: MediaFailure) -> bool {
        &&& after == (Player { queue: after.queue, routing: after.routing, ..self })
        &&& after.routing@ == routing::after(
            self.routing@,
            routing::Happening::Error { entry: Some(entry) },
        )
        &&& match routing::meaning(self.routing@, Some(entry)) {
            Some(routing::ResolutionView::FallBack(url)) => {
                &&& result matches MediaFailure::FallBack(task) && task.wf() && task@
                    == falling_back(url, routing::failed_move(self.routing@, Some(entry)))
                &&& after.queue@ == self.queue@
            },
            Some(routing::ResolutionView::PlaybackError(url)) => {
                &&& result matches MediaFailure::Report(u) && u@ == url
                &&& after.queue@ == self.queue@.reverted(
                    routing::failed_move(self.routing@, Some(entry)),
                )
            },
            Some(routing::ResolutionView::Superseded(url)) => {
                &&& result matches MediaFailure::Superseded(u) && u@ == url
                &&& after.queue@ == self.queue@.reverted(
                    routing::failed_move(self.routing@, Some(entry)),
                )
            },
            None => {
                &&& result matches MediaFailure::Unmatched(e) && e == entry
                &&& after.queue@ == self.queue@
            },
        }
    }

    /// The entry with this id ended with an error. Where its load never loaded
    /// and nothing submitted since has moved the queue, its item is no longer
    /// current, unless its URL is tried as a page first.
    pub fn media_failed(&mut self, entry: i64) -> (r: MediaFailure)
        ensures
            old(self).failure(entry, *final(self), r),
    {
        let (resolution, moved) = self.routing.entry_failed(Some(entry));
        match resolution {
            Some(Resolution::FallBack(url)) => MediaFailure::FallBack(
                Task {
                    run: Run::fall_back(),
                    target: url,
                    probing: false,
                    moved,
                    purpose: Purpose::Start,
                },
            ),
            Some(Resolution::PlaybackError(url)) => {
                self.queue.revert(moved);
                MediaFailure::Report(url)
            },
            Some(Resolution::Superseded(url)) => {
                self.queue.revert(moved);
                MediaFailure::Superseded(url)
            },
            None => MediaFailure::Unmatched(entry),
        }
    }

    /// An event of the media player about an entry came in.
    pub fn media_event(&mut self, event: MediaEvent) -> (r: MediaReaction)
        ensures
            match event {
                MediaEvent::Started(entry) => r is Nothing && *final(self) == (Player {
                    opening: Some(entry),
                    ..*old(self)
                }),
                MediaEvent::FileLoaded => {
                    &&& r is Nothing
                    &&& *final(self) == (Player { routing: final(self).routing, ..*old(self) })
                    &&& final(self).routing@ == old(self).opened()
                },
                MediaEvent::Ended(entry) => {
                    &&& r is Nothing
                    &&& *final(self) == (Player { routing: final(self).routing, ..*old(self) })
                    &&& final(self).routing@ == routing::after(
                        old(self).routing@,
                        routing::Happening::End { entry: Some(entry) },
                    )
                },
                MediaEvent::Failed(entry) => r matches MediaReaction::Failure(failure) && old(
                    self,
                ).failure(entry, *final(self), failure),
                MediaEvent::Shutdown => r is Quit && *final(self) == *old(self),
                MediaEvent::Other => r is Nothing && *final(self) == *old(self),
            },
    {
        match event {
            MediaEvent::Started(entry) => {
                self.media_started(entry);
                MediaReaction::Nothing
            },
            MediaEvent::FileLoaded => {
                self.media_loaded();
                MediaReaction::Nothing
            },
            MediaEvent::Ended(entry) => {
                self.media_ended(entry);
                MediaReaction::Nothing
            },
            MediaEvent::Failed(entry) => MediaReaction::Failure(self.media_failed(entry)),
            MediaEvent::Shutdown => MediaReaction::Quit,
            MediaEvent::Other => MediaReaction::Nothing,
        }
    }

    /// What is playing reached its end by itself: the next item of the queue
    /// starts, and where there is none, or it cannot be played, the clock is
    /// shown.
    pub fn end_of_file(&mut self) -> (r: EndOfFile)
        ensures
            match r {
                EndOfFile::Advance(task) => old(self).jump(
                    old(self).queue@.next_index(),
                    *final(self),
                    Ok(Some(task)),
                ),
                EndOfFile::ShowClock => {
                    &&& *final(self) == (Player { queue: final(self).queue, ..*old(self) })
                    &&& final(self).queue@ == old(self).queue@
                    &&& match old(self).queue@.message_at(old(self).queue@.next_index()) {
                        None => true,
                        Some(message) => routed(old(self).webpage.browser, message) is Err,
                    }
                },
            },
    {
        match self.jump_forward() {
            Ok(Some(task)) => EndOfFile::Advance(task),
            _ => EndOfFile::ShowClock,
        }
    }

    /// An event in the life of a load came in: the overlay comes down when
    /// playback has begun, and the clock comes back where it will not begin.
    /// The end of a load that was replaced is nothing, so that the newer load
    /// keeps its spinner.
    pub fn lifecycle(&mut self, event: LifecycleEvent) -> (r: Lifecycle)
        requires
            event == LifecycleEvent::PlaybackRestart && old(self).overlay.active ==> old(
                self,
            ).overlay.has_next(),
        ensures
            *final(self) == (Player { overlay: final(self).overlay, ..*old(self) }),
            match event {
                LifecycleEvent::PlaybackRestart => {
                    let marked = overlay::after(
                        old(self).overlay,
                        overlay::Command::MarkRestarted,
                    );
                    &&& final(self).overlay == overlay::after(marked, overlay::Command::Uncover)
                    &&& if old(self).overlay.active {
                        r matches Lifecycle::Uncover(fade) && fade == (Fade {
                            generation: final(self).overlay.generation,
                            start: old(self).overlay.opacity,
                            end: 0,
                            step: 0,
                        })
                    } else {
                        r is Ignore
                    }
                },
                LifecycleEvent::EndedAtEof | LifecycleEvent::Failed => {
                    &&& final(self).overlay == old(self).overlay
                    &&& if old(self).overlay.active {
                        r matches Lifecycle::Restore(run) && run.wf() && run@
                            == script::beginning(script::restore_steps(), false)
                    } else {
                        r is Ignore
                    }
                },
                LifecycleEvent::Shutdown => final(self).overlay == old(self).overlay && r is Quit,
                LifecycleEvent::Other => final(self).overlay == old(self).overlay && r is Ignore,
            },
    {
        match event {
            LifecycleEvent::PlaybackRestart => {
                self.overlay.mark_restarted();
                match self.overlay.uncover() {
                    Some(fade) => Lifecycle::Uncover(fade),
                    None => Lifecycle::Ignore,
                }
            },
            LifecycleEvent::EndedAtEof | LifecycleEvent::Failed => {
                if self.overlay.is_active() {
                    Lifecycle::Restore(Run::restore_clock())
                } else {
                    Lifecycle::Ignore
                }
            },
            LifecycleEvent::Shutdown => Lifecycle::Quit,
            LifecycleEvent::Other => Lifecycle::Ignore,
        }
    }

    /// What an event of a redraw loop counts as here: behind a page, nothing is
    /// picked and nothing is loaded.
    pub open spec fn rotation(self, event: RedrawEvent) -> RedrawEvent {
        let free = self.webpage.current is None;
        match event {
            RedrawEvent::Woke { can_rotate } => RedrawEvent::Woke {
                can_rotate: can_rotate && free,
            },
            RedrawEvent::Picked { found } => RedrawEvent::Picked { found: found && free },
            RedrawEvent::Loaded { ok } => event,
        }
    }

    /// One step of a redraw loop of the idle screen. A wallpaper that was
    /// loaded, from `path` and under the id `entry`, is listed with the other
    /// loads. Behind a page none is picked and none is loaded.
    pub fn redraw(
        &mut self,
        redraw: Redraw,
        event: RedrawEvent,
        path: &str,
        entry: i64,
        now: u64,
    ) -> (r: RedrawAction)
        ensures
            *final(self) == (Player {
                idle: final(self).idle,
                routing: final(self).routing,
                ..*old(self)
            }),
            final(self).idle == old(self).idle.after(event, now),
            r == old(self).idle.next(redraw, old(self).rotation(event), now),
            final(self).routing@ == if event == (RedrawEvent::Loaded { ok: true }) {
                routing::after(
                    old(self).routing@,
                    routing::Happening::Submit {
                        entry: Some(entry),
                        url: path@,
                        probing: false,
                        moved: None,
                    },
                )
            } else {
                old(self).routing@
            },
    {
        let free: bool = !self.webpage.is_active();
        match event {
            RedrawEvent::Woke { can_rotate } => {
                self.idle.redraw(redraw, RedrawEvent::Woke { can_rotate: can_rotate && free }, now)
            },
            RedrawEvent::Picked { found } => {
                self.idle.redraw(redraw, RedrawEvent::Picked { found: found && free }, now)
            },
            RedrawEvent::Loaded { ok } => {
                if ok {
                    self.routing.submit_item(Some(entry), path, false, None);
                }
                self.idle.redraw(redraw, event, now)
            },
        }
    }

    /// What a sender is told at the time `now`.
    pub fn status(&self, media: MediaStatus, now: u64) -> (r: PlaybackUpdateMessage)
        ensures
            r == reported(
                self.webpage.current is Some,
                self.idle.wallpaper_active,
                media,
                now,
            ),
            self.webpage.current is None ==> r.time == media.time && r.duration == media.duration,
            r.speed == media.speed,
            r.generation_time == now,
    {
        let page: bool = self.webpage.is_active();
        let idle: bool = match media.idle {
            Some(idle) => idle,
            None => true,
        };
        let paused: bool = match media.paused {
            Some(paused) => paused,
            None => false,
        };
        let state: PlaybackState = if page {
            PlaybackState::Playing
        } else if idle || self.idle.is_wallpaper_active() {
            PlaybackState::Idle
        } else if paused {
            PlaybackState::Paused
        } else {
            PlaybackState::Playing
        };
        PlaybackUpdateMessage {
            generation_time: now,
            state,
            time: if page {
                None
            } else {
                media.time
            },
            duration: if page {
                None
            } else {
                media.duration
            },
            speed: media.speed,
        }
    }
}

// ---------------------------------------------------------------------------
// The media player's settings and errors
// ---------------------------------------------------------------------------

/// A setting of the media player.
#[derive(Debug)]
pub struct Property {
    pub name: String,
    pub value: String,
}

/// The names and values of a list of settings.
pub open spec fn property_texts(properties: Seq<Property>) -> Seq<(Seq<char>, Seq<char>)> {
    Seq::new(properties.len(), |i: int| (properties[i].name@, properties[i].value@))
}

/// The settings that the media player starts with. `vo`, `gpu_context` and
/// `hwdec` are `CASTOFF_MPV_VO`, `CASTOFF_MPV_GPU_CONTEXT` and
/// `CASTOFF_MPV_HWDEC` where they are set.
pub open spec fn startup_settings(
    vo: Option<Seq<char>>,
    gpu_context: Option<Seq<char>>,
    hwdec: Option<Seq<char>>,
) -> Seq<(Seq<char>, Seq<char>)> {
    seq![
        (
            "vo"@,
            match vo {
                Some(v) => v,
                None => "gpu"@,
            },
        ),
        ("fullscreen"@, "yes"@),
        ("force-window"@, "yes"@),
        ("idle"@, "yes"@),
        ("keep-open"@, "yes"@),
        ("image-display-duration"@, "inf"@),
        (
            "hwdec"@,
            match hwdec {
                Some(v) => v,
                None => "auto-safe"@,
            },
        ),
        ("input-default-bindings"@, "no"@),
        ("input-vo-keyboard"@, "no"@),
        ("osc"@, "no"@),
        ("terminal"@, "yes"@),
        ("msg-level"@, "all=warn"@),
    ] + (match gpu_context {
        Some(v) => seq![("gpu-context"@, v)],
        None => Seq::empty(),
    })
}

fn push_property(properties: &mut Vec<Property>, name: &str, value: &str)
    ensures
        property_texts(final(properties)@) == property_texts(old(properties)@).push(
            (name@, value@),
        ),
{
    let ghost before = properties@;
    properties.push(Property { name: name.to_string(), value: value.to_string() });
    assert(property_texts(properties@) =~= property_texts(before).push((name@, value@)));
}

/// The settings that the media player starts with: an empty fullscreen window
/// that waits, keeps the last frame of what it played and an image for ever,
/// decodes in hardware where it can, takes no input, and says what goes wrong.
pub fn startup_properties(
    vo: Option<String>,
    gpu_context: Option<String>,
    hwdec: Option<String>,
) -> (r: Vec<Property>)
    ensures
        property_texts(r@) == startup_settings(
            text::opt_text(vo),
            text::opt_text(gpu_context),
            text::opt_text(hwdec),
        ),
{
    let mut r: Vec<Property> = Vec::new();
    assert(property_texts(r@) =~= Seq::empty());
    match &vo {
        Some(v) => push_property(&mut r, "vo", v.as_str()),
        None => push_property(&mut r, "vo", "gpu"),
    }
    push_property(&mut r, "fullscreen", "yes");
    push_property(&mut r, "force-window", "yes");
    push_property(&mut r, "idle", "yes");
    push_property(&mut r, "keep-open", "yes");
    push_property(&mut r, "image-display-duration", "inf");
    match &hwdec {
        Some(v) => push_property(&mut r, "hwdec", v.as_str()),
        None => push_property(&mut r, "hwdec", "auto-safe"),
    }
    push_property(&mut r, "input-default-bindings", "no");
    push_property(&mut r, "input-vo-keyboard", "no");
    push_property(&mut r, "osc", "no");
    push_property(&mut r, "terminal", "yes");
    push_property(&mut r, "msg-level", "all=warn");
    if let Some(v) = &gpu_context {
        push_property(&mut r, "gpu-context", v.as_str());
    }
    assert(property_texts(r@) =~= startup_settings(
        text::opt_text(vo),
        text::opt_text(gpu_context),
        text::opt_text(hwdec),
    ));
    r
}

/// The errors that a failed load usually ends with.
#[derive(Debug, Clone, Copy, PartialEq, Eq, Structural)]
pub enum MediaError {
    NothingToPlay,
    LoadingFailed,
    Other,
}

impl MediaError {
    /// The reason, in plain words.
    pub open spec fn reason(self) -> Seq<char> {
        match self {
            MediaError::NothingToPlay =>
                "nothing to play: mpv could not open any stream the URL resolved to (the mpv log line above has the concrete cause, e.g. an HTTP 403)"@,
            MediaError::LoadingFailed => "loading failed: mpv could not load/open this URL"@,
            MediaError::Other => "see the mpv log line above for the concrete cause"@,
        }
    }
}

/// Why a load failed, in plain words.
pub fn describe_playback_error(error: MediaError) -> (r: String)
    ensures
        r@ == error.reason(),
{
    match error {
        MediaError::NothingToPlay =>
            "nothing to play: mpv could not open any stream the URL resolved to (the mpv log line above has the concrete cause, e.g. an HTTP 403)".to_string(),
        MediaError::LoadingFailed =>
            "loading failed: mpv could not load/open this URL".to_string(),
        MediaError::Other => "see the mpv log line above for the concrete cause".to_string(),
    }
}

// ---------------------------------------------------------------------------
// Laws
// ---------------------------------------------------------------------------

/// A sender that says what its URL is keeps control: media is never probed, so
/// that its failure, superseded or not and whatever other loads there are, is
/// an error and never opens the browser.
pub proof fn lemma_classified_media_never_falls_back(
    browser: webpage::Browser,
    message: fcast::PlayView,
    entry: Option<i64>,
    moved: Option<QueueMove>,
    newer: Seq<routing::LoadView>,
)
    requires
        fcast::container_target(message.container) == Some(PlayTarget::Media),
        message.url is Some,
    ensures
        ({
            let url = message.url->0;
            let load = routing::new_load(entry, url, false, moved);
            &&& routed(browser, message) == Ok::<RouteView, PlayErrorView>(
                RouteView::Media { url, probing: false },
            )
            &&& routing::meaning(seq![load] + newer, entry) == Some(
                routing::ResolutionView::PlaybackError(url),
            )
            &&& routing::meaning(seq![routing::overtaken(load)] + newer, entry) == Some(
                routing::ResolutionView::PlaybackError(url),
            )
        }),
{
}

/// A sender that only knows a URL is served too: the URL is tried as media,
/// and where that fails before it loads, the same URL is displayed as a page,
/// unless something newer was submitted since.
pub proof fn lemma_an_unclassified_url_is_media_first_and_a_page_next(
    browser: webpage::Browser,
    message: fcast::PlayView,
    entry: Option<i64>,
    moved: Option<QueueMove>,
    newer: Seq<routing::LoadView>,
)
    requires
        fcast::container_target(message.container) is None,
        message.url is Some,
    ensures
        ({
            let url = message.url->0;
            let load = routing::new_load(entry, url, true, moved);
            &&& routed(browser, message) == Ok::<RouteView, PlayErrorView>(
                RouteView::Media { url, probing: true },
            )
            &&& routing::meaning(seq![load], entry) == Some(
                routing::ResolutionView::FallBack(url),
            )
            &&& routing::meaning(seq![routing::overtaken(load)] + newer, entry) == Some(
                routing::ResolutionView::Superseded(url),
            )
        }),
{
}

/// An error of an entry that no load was submitted under is no failure of what
/// is on screen: it changes nothing.
pub proof fn lemma_an_unmatched_error_changes_nothing(
    player: Player,
    entry: i64,
    after: Player,
    result: MediaFailure,
)
    requires
        player.failure(entry, after, result),
        !routing::listed(player.routing@, Some(entry)),
    ensures
        result == MediaFailure::Unmatched(entry),
        after.routing@ == player.routing@,
        after.queue@ == player.queue@,
{
}

/// The browser is started by an error exactly where its load falls back, and
/// then with that load's URL.
pub proof fn lemma_only_a_fall_back_starts_the_browser(
    player: Player,
    entry: i64,
    after: Player,
    result: MediaFailure,
    url: Seq<char>,
)
    requires
        player.failure(entry, after, result),
    ensures
        result is FallBack <==> routing::meaning(player.routing@, Some(entry)) matches Some(
            routing::ResolutionView::FallBack(_),
        ),
        routing::meaning(player.routing@, Some(entry)) == Some(
            routing::ResolutionView::FallBack(url),
        ) ==> result->FallBack_0@.target == url && result->FallBack_0@.run.rest
            == script::fall_back_steps(),
{
}

/// Nothing is loaded behind a page: while one is on screen, no redraw loop asks
/// for a wallpaper or loads one.
pub proof fn lemma_no_wallpaper_behind_a_page(
    player: Player,
    redraw: Redraw,
    event: RedrawEvent,
    now: u64,
)
    requires
        player.webpage.current is Some,
    ensures
        player.idle.next(redraw, player.rotation(event), now) != RedrawAction::Pick,
        player.idle.next(redraw, player.rotation(event), now) != RedrawAction::Load,
{
}

/// A play that fails leaves its item queued and the position where it was.
pub proof fn lemma_a_failed_play_stays_queued(player: Player, message: fcast::PlayView)
    requires
        player.queue@.wf(),
    ensures
        ({
            let index = player.queue@.items.len() as usize;
            let moved = Some(player.move_to(index));
            player.queue@.pushed(message).at(Some(index)).reverted(moved)
                == player.queue@.pushed(message)
        }),
{
    let index = player.queue@.items.len() as usize;
    let moved = Some(player.move_to(index));
    assert(player.queue@.pushed(message).at(Some(index)).reverted(moved) =~= player.queue@.pushed(
        message,
    ));
}

/// Whatever is played, jumped to, stopped or cleared, and whichever load fails,
/// the queue's position stays on an item.
pub proof fn lemma_commands_keep_the_position_in_the_queue(
    player: Player,
    after: Player,
    message: fcast::PlayView,
    index: usize,
    result: Result<Option<Task>, PlayError>,
    task: Task,
    cleared: Option<Task>,
    entry: i64,
    failure: MediaFailure,
)
    requires
        player.queue@.wf(),
        player.queue@.items.len() < usize::MAX,
        player.queued(message, after, result) || player.jump(
            player.queue@.next_index(),
            after,
            result,
        ) || player.jump(player.queue@.previous_index(), after, result) || player.jump(
            player.queue@.index_in_range(index),
            after,
            result,
        ) || player.stops(after, task) || player.clears(after, cleared) || player.failure(
            entry,
            after,
            failure,
        ),
    ensures
        after.queue@.wf(),
{
}

/// A stop leaves the queue alone: its items, and its position, also where the
/// stop fails.
pub proof fn lemma_a_stop_leaves_the_queue(player: Player, after: Player, task: Task)
    requires
        player.stops(after, task),
    ensures
        after.queue == player.queue,
        after.queue@.reverted(task@.moved) == player.queue@,
        task@.purpose != Purpose::Clear,
{
}

/// Emptying the queue ends with an empty queue: at once, or when what was
/// playing has been stopped.
pub proof fn lemma_clearing_empties_the_queue(
    player: Player,
    after: Player,
    task: Option<Task>,
)
    requires
        player.clears(after, task),
    ensures
        match task {
            None => after.queue@ == queue::QueueView::empty(),
            Some(t) => t@.purpose == Purpose::Clear,
        },
{
}

/// A page counts as playing and has no timeline, whatever the media player
/// behind it does; the idle screen counts as idle, with a wallpaper too.
pub proof fn lemma_what_senders_see(wallpaper: bool, media: MediaStatus, now: u64)
    ensures
        reported(true, wallpaper, media, now).state == PlaybackState::Playing,
        reported(true, wallpaper, media, now).time is None,
        reported(true, wallpaper, media, now).duration is None,
        reported(false, true, media, now).state == PlaybackState::Idle,
{
}

/// While a page is up, or playback renders, a play only queues; while the
/// clock is up behind nothing, or a load has not begun to render, it starts.
pub proof fn lemma_when_a_play_starts(player: Player)
    ensures
        player.webpage.current is Some ==> !player.idle_now(),
        player.webpage.current is None && player.idle.current is Some ==> player.idle_now(),
        player.webpage.current is None && player.overlay.active && !player.overlay.restarted
            ==> player.idle_now(),
        player.idle.current is None && (!player.overlay.active || player.overlay.restarted)
            ==> !player.idle_now(),
{
}

/// Where a play goes. One whose container is `text/html` or
/// `application/xhtml+xml` goes to the browser with its own URL, and is refused
/// where it has none, or one that is no page's, or the engine has no room. Any
/// other goes to the media player with its own URL, as a probe exactly where no
/// media type was given; without a URL it is refused.
pub proof fn lemma_where_a_play_goes(
    browser: webpage::Browser,
    message: fcast::PlayView,
    media: Seq<char>,
)
    requires
        message.container matches Some(mime) ==> media == fcast::media_type(mime),
        message.container is None ==> media.len() == 0,
    ensures
        media == "text/html"@ || media == "application/xhtml+xml"@ ==> routed(browser, message) == (
        match message.url {
            None => Err::<RouteView, PlayErrorView>(
                PlayErrorView::PageWithoutUrl(message.container->0),
            ),
            Some(url) => if !webpage::valid_url(url) {
                Err(PlayErrorView::Scheme(url))
            } else if !browser.has_room() {
                Err(PlayErrorView::NoRoom(browser.root@))
            } else {
                Ok(RouteView::Page(url))
            },
        }),
        media != "text/html"@ && media != "application/xhtml+xml"@ ==> routed(browser, message) == (
        match message.url {
            Some(url) => Ok::<RouteView, PlayErrorView>(
                RouteView::Media { url, probing: media.len() == 0 },
            ),
            None => if message.content is Some {
                Err(PlayErrorView::InlineContent)
            } else {
                Err(PlayErrorView::NothingToPlay)
            },
        }),
{
    reveal_strlit("text/html");
    reveal_strlit("application/xhtml+xml");
}

/// Routes, refusals and tasks are what they are seen as.
pub proof fn lemma_nothing_is_left_out_of_account(url: String, probing: bool, task: Task)
    ensures
        Route::Page(url)@ == RouteView::Page(url@),
        (Route::Media { url, probing })@ == (RouteView::Media { url: url@, probing }),
        PlayError::PageWithoutUrl(url)@ == PlayErrorView::PageWithoutUrl(url@),
        PlayError::Page(PageError::Scheme(url))@ == PlayErrorView::Scheme(url@),
        PlayError::Page(PageError::NoRoom(url))@ == PlayErrorView::NoRoom(url@),
        PlayError::InlineContent@ == PlayErrorView::InlineContent,
        PlayError::NothingToPlay@ == PlayErrorView::NothingToPlay,
        task@.run == task.run@,
        task@.target == task.target@,
        task@.probing == task.probing,
        task@.moved == task.moved,
        task@.purpose == task.purpose,
{
}

/// Whatever is started is started as its message says: with the message's own
/// URL; media from the message's start time, at its volume and its speed, each
/// set after the load exactly where the message gives it; a page by its engine.
pub proof fn lemma_a_start_follows_its_message(
    browser: webpage::Browser,
    message: fcast::PlayView,
    moved: Option<QueueMove>,
    route: RouteView,
    task: TaskView,
    k: int,
)
    requires
        routed(browser, message) == Ok::<RouteView, PlayErrorView>(route),
        task == starting(route, message, moved),
        0 <= k < task.run.rest.len(),
    ensures
        message.url == Some(task.target),
        task.moved == moved,
        task.purpose == Purpose::Start,
        !task.run.failed,
        !task.run.then_idle,
        ({
            let steps = task.run.rest;
            let page = fcast::container_target(message.container) == Some(PlayTarget::Webpage);
            &&& task.probing <==> fcast::container_target(message.container) is None
            &&& page ==> steps[0].op == Op::ShowPage && steps[1].op == Op::StopMedia
                && steps[2].op == Op::ShowClock && steps.len() == 3
            &&& !page ==> steps[4].op == Op::LoadFile && steps[5].op == Op::Unpause
            &&& !page ==> (message.time matches Some(t) ==> exists|i: int|
                4 < i < steps.len() && (#[trigger] steps[i]).op == Op::SetStart(t))
            &&& !page ==> (message.volume matches Some(v) ==> exists|i: int|
                4 < i < steps.len() && (#[trigger] steps[i]).op == Op::SetVolume(v))
            &&& !page ==> (message.speed matches Some(s) ==> exists|i: int|
                4 < i < steps.len() && (#[trigger] steps[i]).op == Op::SetSpeed(s))
            &&& steps[k].op matches Op::SetStart(t) ==> message.time == Some(t)
            &&& steps[k].op matches Op::SetVolume(v) ==> message.volume == Some(v)
            &&& steps[k].op matches Op::SetSpeed(s) ==> message.speed == Some(s)
        }),
{
    if route is Media {
        let (t, v, s) = (message.time, message.volume, message.speed);
        script::lemma_what_playing_media_takes(t, v, s);
        if t is Some {
            script::lemma_media_plays_as_asked(t, v, s, k, k, t->0);
        }
        if v is Some {
            script::lemma_media_plays_as_asked(t, v, s, k, k, v->0);
        }
        if s is Some {
            script::lemma_media_plays_as_asked(t, v, s, k, k, s->0);
        }
        match task.run.rest[k].op {
            Op::SetStart(x) => {
                script::lemma_media_plays_as_asked(t, v, s, k, k, x);
            },
            Op::SetVolume(x) => {
                script::lemma_media_plays_as_asked(t, v, s, k, k, x);
            },
            Op::SetSpeed(x) => {
                script::lemma_media_plays_as_asked(t, v, s, k, k, x);
            },
            _ => {},
        }
    }
}

/// A play that is accepted is queued as it was sent, behind all others. Where
/// nothing plays it also becomes current and starts; else it only waits. One
/// that is refused is not queued.
pub proof fn lemma_what_a_play_does(
    player: Player,
    message: fcast::PlayView,
    after: Player,
    result: Result<Option<Task>, PlayError>,
    i: int,
)
    requires
        player.queued(message, after, result),
        player.queue@.items.len() < usize::MAX,
    ensures
        result is Ok <==> routed(player.webpage.browser, message) is Ok,
        result is Ok ==> {
            let items = after.queue@.items;
            &&& items.len() == player.queue@.items.len() + 1
            &&& items.last().message == message
            &&& 0 <= i < player.queue@.items.len() ==> items[i] == player.queue@.items[i]
        },
        result is Ok && player.idle_now() ==> {
            &&& result->Ok_0 is Some
            &&& after.queue@.position == Some(player.queue@.items.len() as usize)
            &&& message.url == Some(result->Ok_0->0@.target)
            &&& result->Ok_0->0@.moved == Some(
                QueueMove {
                    from: player.queue@.position,
                    to: player.queue@.items.len() as usize,
                },
            )
        },
        result is Ok && !player.idle_now() ==> {
            &&& result->Ok_0 is None
            &&& after.queue@.position == player.queue@.position
            &&& after.routing@ == player.routing@
        },
        result is Err ==> after.queue@ == player.queue@ && after.routing@ == player.routing@,
        fcast::container_target(message.container) != Some(PlayTarget::Webpage) ==> after.routing@
            == player.routing@,
        after.routing@.len() == player.routing@.len(),
        fcast::container_target(message.container) == Some(PlayTarget::Webpage) && player.idle_now()
            && result is Ok && 0 <= i < player.routing@.len() ==> after.routing@[i] == (
        routing::LoadView { probing: false, moved: None, ..player.routing@[i] }),
        after.webpage == player.webpage,
        after.overlay == player.overlay,
        after.idle == player.idle,
        after.opening == player.opening,
        after.last_target == player.last_target,
{
}

/// A jump to an item that can be played makes it current and starts it, with
/// its own URL and whatever plays; one that cannot be played, and a jump to
/// nowhere, leave everything as it is. The queue keeps its items.
pub proof fn lemma_what_a_jump_starts(
    player: Player,
    target: Option<usize>,
    after: Player,
    result: Result<Option<Task>, PlayError>,
)
    requires
        player.jump(target, after, result),
        target matches Some(index) ==> index < player.queue@.items.len(),
    ensures
        after.queue@.items == player.queue@.items,
        target is None ==> (result matches Ok(None)) && after.queue@ == player.queue@,
        target matches Some(index) ==> {
            let message = player.queue@.items[index as int].message;
            let playable = routed(player.webpage.browser, message) is Ok;
            &&& result is Ok <==> playable
            &&& playable ==> {
                &&& result->Ok_0 is Some
                &&& after.queue@.position == Some(index)
                &&& message.url == Some(result->Ok_0->0@.target)
                &&& result->Ok_0->0@.moved == Some(
                    QueueMove { from: player.queue@.position, to: index },
                )
            }
            &&& !playable ==> after.queue@ == player.queue@ && after.routing@ == player.routing@
            &&& fcast::container_target(message.container) != Some(PlayTarget::Webpage)
                ==> after.routing@ == player.routing@
        },
        after.webpage == player.webpage,
        after.overlay == player.overlay,
        after.idle == player.idle,
        after.opening == player.opening,
        after.last_target == player.last_target,
{
}

/// What starting does to the loads under way: media nothing, and a page takes
/// from each that it is a probe and that it moved the queue.
pub proof fn lemma_what_a_start_does_to_other_loads(
    loads: Seq<routing::LoadView>,
    url: Seq<char>,
    probing: bool,
    i: int,
)
    ensures
        loads_at_start(loads, RouteView::Media { url, probing }) == loads,
        loads_at_start(loads, RouteView::Page(url)).len() == loads.len(),
        0 <= i < loads.len() ==> loads_at_start(loads, RouteView::Page(url))[i] == (
        routing::LoadView { probing: false, moved: None, ..loads[i] }),
{
}

/// Every stop takes the page down and stops the media, whether the clock is up
/// or a load is under way or neither; it gives up on every load, moves the queue
/// nowhere, and goes on to the clock where that is not up or a load is under
/// way.
pub proof fn lemma_what_a_stop_takes(
    player: Player,
    purpose: Purpose,
    after: Player,
    task: Task,
    i: int,
)
    requires
        player.stops_for(purpose, after, task),
    ensures
        after.queue == player.queue,
        after.webpage == player.webpage,
        after.overlay == player.overlay,
        after.idle == player.idle,
        after.routing@.len() == player.routing@.len(),
        0 <= i < player.routing@.len() ==> after.routing@[i] == (routing::LoadView {
            probing: false,
            moved: None,
            ..player.routing@[i]
        }),
        task@.purpose == purpose,
        task@.moved is None,
        !task@.run.failed,
        task@.run.rest[0].op == Op::HidePage,
        exists|k: int|
            0 < k < task@.run.rest.len() && (#[trigger] task@.run.rest[k]).op == Op::StopMedia,
        task@.run.then_idle || task@.run.rest.last().op == Op::ShowClock,
{
    script::lemma_every_stop_stops_the_media(
        player.idle.current is Some,
        player.overlay.active,
        0,
    );
}

/// The queue is emptied at once exactly where nothing of it plays; else what
/// plays is stopped first.
pub proof fn lemma_when_the_queue_is_emptied_at_once(
    player: Player,
    after: Player,
    task: Option<Task>,
)
    requires
        player.clears(after, task),
    ensures
        task is Some <==> player.queue@.position is Some && !player.idle_now(),
        task is None ==> after.queue@.items.len() == 0 && after.queue@.position is None
            && after.routing == player.routing && after.webpage == player.webpage && after.overlay
            == player.overlay && after.idle == player.idle,
        task matches Some(t) ==> after.queue == player.queue && exists|k: int|
            0 < k < t@.run.rest.len() && (#[trigger] t@.run.rest[k]).op == Op::StopMedia,
{
    if task is Some {
        lemma_what_a_stop_takes(player, Purpose::Clear, after, task->0, 0);
    }
}

/// What the failure of a load leads to. A probe that never loaded is shown as a
/// page, with its own URL, where it is the newest load, and is nothing where it
/// is not; any other load is reported, by its own URL. The queue goes back by
/// the move that the failure takes back, except where a page is tried first.
pub proof fn lemma_what_a_failed_load_leads_to(
    player: Player,
    entry: i64,
    after: Player,
    result: MediaFailure,
    i: int,
)
    requires
        player.failure(entry, after, result),
        0 <= i < player.routing@.len(),
        player.routing@[i].entry == Some(entry),
        forall|j: int| 0 <= j < i ==> (#[trigger] player.routing@[j]).entry != Some(entry),
    ensures
        ({
            let load = player.routing@[i];
            let moved = routing::failed_move(player.routing@, Some(entry));
            let probed = load.probing && !load.loaded;
            &&& probed && !load.superseded ==> {
                &&& result matches MediaFailure::FallBack(task) && task@.target == load.url
                    && task@.moved == moved && task@.purpose == Purpose::Start
                    && task@.run.rest.last().op == Op::ShowPage
                &&& after.queue@ == player.queue@
            }
            &&& probed && load.superseded ==> {
                &&& result matches MediaFailure::Superseded(url) && url@ == load.url
                &&& after.queue@ == player.queue@.reverted(moved)
            }
            &&& !probed ==> {
                &&& result matches MediaFailure::Report(url) && url@ == load.url
                &&& after.queue@ == player.queue@.reverted(moved)
            }
            &&& after.routing@ == routing::after(
                player.routing@,
                routing::Happening::Error { entry: Some(entry) },
            )
            &&& after.webpage == player.webpage
            &&& after.overlay == player.overlay
            &&& after.idle == player.idle
        }),
{
    routing::lemma_what_an_event_is_about(player.routing@, entry, i);
}

/// An entry that is open is the one that was being opened; where none was,
/// nothing is.
pub proof fn lemma_what_is_opened(player: Player, entry: i64)
    ensures
        player.opening is None ==> player.opened() == player.routing@,
        player.opening == Some(entry) ==> player.opened() == routing::after(
            player.routing@,
            routing::Happening::FileLoaded { entry: Some(entry) },
        ),
{
}

/// What senders are told where no page is on screen: the media player's own
/// time, length and speed, and a state by it: idle where it is, or does not
/// say, or shows a wallpaper; paused where it is; and playing else. With a page
/// they are told that it plays, at the speed that is set.
pub proof fn lemma_what_senders_are_told(wallpaper: bool, media: MediaStatus, now: u64)
    ensures
        reported(false, wallpaper, media, now).time == media.time,
        reported(false, wallpaper, media, now).duration == media.duration,
        reported(false, wallpaper, media, now).speed == media.speed,
        reported(true, wallpaper, media, now).speed == media.speed,
        reported(false, wallpaper, media, now).generation_time == now,
        reported(true, wallpaper, media, now).generation_time == now,
        reported(false, wallpaper, media, now).state == PlaybackState::Idle <==> (wallpaper
            || media.idle is None || media.idle == Some(true)),
        reported(false, wallpaper, media, now).state == PlaybackState::Paused <==> (!wallpaper
            && media.idle == Some(false) && media.paused == Some(true)),
        reported(false, wallpaper, media, now).state == PlaybackState::Playing <==> (!wallpaper
            && media.idle == Some(false) && media.paused != Some(true)),
{
    if let Some(idle) = media.idle {
        assert(media.idle == Some(idle));
        assert(idle == true || idle == false);
    }
}

/// Without a page, a redraw loop's events count for what they are.
pub proof fn lemma_wallpapers_rotate_without_a_page(player: Player, event: RedrawEvent, ok: bool)
    ensures
        player.webpage.current is None ==> player.rotation(event) == event,
        player.rotation(RedrawEvent::Loaded { ok }) == (RedrawEvent::Loaded { ok }),
{
}

/// The media player starts as an empty fullscreen window that waits, keeps the
/// last frame and an image for ever, and takes no input. Its output, its
/// decoding and its context are those that are set, and else the defaults.
pub proof fn lemma_how_the_media_player_starts(
    vo: Option<Seq<char>>,
    gpu_context: Option<Seq<char>>,
    hwdec: Option<Seq<char>>,
    v: Seq<char>,
)
    ensures
        ({
            let settings = startup_settings(vo, gpu_context, hwdec);
            &&& settings.contains(("fullscreen"@, "yes"@))
            &&& settings.contains(("force-window"@, "yes"@))
            &&& settings.contains(("idle"@, "yes"@))
            &&& settings.contains(("keep-open"@, "yes"@))
            &&& settings.contains(("image-display-duration"@, "inf"@))
            &&& settings.contains(("input-default-bindings"@, "no"@))
            &&& settings.contains(("input-vo-keyboard"@, "no"@))
            &&& settings.contains(("osc"@, "no"@))
            &&& settings.contains(("terminal"@, "yes"@))
            &&& settings.contains(("msg-level"@, "all=warn"@))
            &&& vo == Some(v) ==> settings.contains(("vo"@, v))
            &&& vo is None ==> settings.contains(("vo"@, "gpu"@))
            &&& hwdec == Some(v) ==> settings.contains(("hwdec"@, v))
            &&& hwdec is None ==> settings.contains(("hwdec"@, "auto-safe"@))
            &&& gpu_context == Some(v) ==> settings.contains(("gpu-context"@, v))
            &&& settings.len() == if gpu_context is Some {
                13nat
            } else {
                12nat
            }
        }),
{
    let s = startup_settings(vo, gpu_context, hwdec);
    assert(s[1] == ("fullscreen"@, "yes"@));
    assert(s[2] == ("force-window"@, "yes"@));
    assert(s[3] == ("idle"@, "yes"@));
    assert(s[4] == ("keep-open"@, "yes"@));
    assert(s[5] == ("image-display-duration"@, "inf"@));
    assert(s[7] == ("input-default-bindings"@, "no"@));
    assert(s[8] == ("input-vo-keyboard"@, "no"@));
    assert(s[9] == ("osc"@, "no"@));
    assert(s[10] == ("terminal"@, "yes"@));
    assert(s[11] == ("msg-level"@, "all=warn"@));
    assert(vo == Some(v) ==> s[0] == ("vo"@, v));
    assert(vo is None ==> s[0] == ("vo"@, "gpu"@));
    assert(hwdec == Some(v) ==> s[6] == ("hwdec"@, v));
    assert(hwdec is None ==> s[6] == ("hwdec"@, "auto-safe"@));
    assert(gpu_context == Some(v) ==> s[12] == ("gpu-context"@, v));
}

/// What is said of a play that is refused.
pub proof fn lemma_what_is_said_of_a_play(container: String, e: PageError)
    ensures
        PlayError::PageWithoutUrl(container).text() == "Play message targets a web page (container "@
            + text::debug_quoted(container@)
            + ") but has no `url`; pass the page's http(s):// or file:// URL"@,
        PlayError::Page(e).text() == e.text(),
        PlayError::InlineContent.text()
            == "Play message carries inline `content` (e.g. a DASH manifest) with no `url`; inline manifest playback is not yet supported"@,
        PlayError::NothingToPlay.text() == "Play message has neither `url` nor `content`"@,
{
}

/// A setting is its name and its value.
pub proof fn lemma_a_setting_is_its_name_and_value(properties: Seq<Property>, i: int)
    requires
        0 <= i < properties.len(),
    ensures
        property_texts(properties).len() == properties.len(),
        property_texts(properties)[i] == (properties[i].name@, properties[i].value@),
{
}

/// What is said of a load that failed.
pub proof fn lemma_what_is_said_of_a_failed_load()
    ensures
        MediaError::NothingToPlay.reason()
            == "nothing to play: mpv could not open any stream the URL resolved to (the mpv log line above has the concrete cause, e.g. an HTTP 403)"@,
        MediaError::LoadingFailed.reason() == "loading failed: mpv could not load/open this URL"@,
        MediaError::Other.reason() == "see the mpv log line above for the concrete cause"@,
{
}

} // verus!
