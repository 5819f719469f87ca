use castoff::fcast::{PlayMessage, PlaybackState, Real};
use castoff::idle_screen::{IdleScreen, RedrawAction, RedrawEvent};
use castoff::player::{
    describe_playback_error, startup_properties, EndOfFile, Lifecycle, LifecycleEvent, MediaError,
    MediaEvent, MediaFailure, MediaReaction, MediaStatus, Player, Task,
};
use castoff::queue::Queue;
use castoff::script::{Op, Run};
use castoff::steps::{Begun, Ended};
use castoff::webpage::{Browser, WebpageController};

fn page() -> WebpageController {
    WebpageController::with_browser(Browser::from_settings(None, None, 1, 0))
}

/// A player with the clock on screen, as it is after the start.
fn player() -> Player {
    let mut player = Player::new(Queue::default(), page());
    player.show_idle_screen(IdleScreen::Clock);
    player
}

fn unclassified(url: &str) -> PlayMessage {
    PlayMessage {
        url: Some(url.to_string()),
        ..Default::default()
    }
}

fn classified(container: &str, url: &str) -> PlayMessage {
    PlayMessage {
        container: Some(container.to_string()),
        url: Some(url.to_string()),
        ..Default::default()
    }
}

/// Does one step, which goes well or not as `ok` says. Says whether it went
/// well: a page that cannot be displayed does not.
fn perform(player: &mut Player, op: Op, target: &str, ok: bool) -> bool {
    let begun = player.begin_step(op, target, 0, 33);
    let ok = ok && begun.is_ok();
    let generation = player.overlay.generation;
    player.end_step(op, ok, generation, 77);
    ok
}

/// Does the steps of a run that belongs to no task.
fn run_alone(player: &mut Player, mut run: Run) {
    while let Some(op) = run.next() {
        let ok = perform(player, op, "", true);
        let clock = player.idle_screen().is_some();
        run.report(ok, clock);
    }
}

/// Does a task's work, with the steps failing where `fails` says so.
fn run(player: &mut Player, mut task: Task, fails: fn(Op) -> bool) -> bool {
    while let Some(op) = task.next() {
        let target = task.target.clone();
        let ok = perform(player, op, &target, !fails(op));
        let entry = unused_entry(player);
        player.report(&mut task, ok, entry);
    }
    player.finish(task)
}

/// An entry id that no load under way has.
fn unused_entry(player: &Player) -> i64 {
    let newest = player.routing.loads.iter().filter_map(|load| load.entry);
    newest.max().unwrap_or(0) + 1
}

fn oldest_entry(player: &Player) -> i64 {
    player.routing.loads[0].entry.unwrap()
}

/// The media player opens the newest load.
fn open(player: &mut Player) {
    player.media_started(unused_entry(player) - 1);
    player.media_loaded();
}

/// The oldest load fails.
fn fail(player: &mut Player) -> MediaFailure {
    let entry = oldest_entry(player);
    player.media_failed(entry)
}

/// Does a task's work and says whether the overlay came up meanwhile.
fn overlay_came_up(player: &mut Player, mut task: Task) -> bool {
    let mut came_up = false;
    while let Some(op) = task.next() {
        let target = task.target.clone();
        let ok = perform(player, op, &target, true);
        came_up = came_up || player.loading_overlay_active();
        let entry = unused_entry(player);
        player.report(&mut task, ok, entry);
    }
    assert!(player.finish(task));
    came_up
}

fn never(_op: Op) -> bool {
    false
}

fn start(player: &mut Player, message: PlayMessage) {
    let task = player.play(message).unwrap().expect("it starts at once");
    assert!(run(player, task, never));
}

/// Playback of the load under way has begun, and the black has faded away.
fn render(player: &mut Player) {
    open(player);
    player.lifecycle(LifecycleEvent::PlaybackRestart);
    player.overlay.clear();
}

fn idle_media() -> MediaStatus {
    MediaStatus {
        paused: Some(false),
        idle: Some(true),
        time: None,
        duration: None,
        speed: None,
    }
}

#[test]
fn play_rejects_inline_content_without_url() {
    let mut player = player();
    let msg = PlayMessage {
        content: Some("<MPD>...</MPD>".to_string()),
        ..Default::default()
    };
    let err = player.play(msg).expect_err("content-only play must fail");
    assert!(
        err.message().contains("inline `content`"),
        "unexpected error: {}",
        err.message()
    );
    assert_eq!(player.idle_screen(), Some(IdleScreen::Clock));
    assert!(player.queue.items.is_empty());
}

#[test]
fn a_message_with_nothing_to_play_is_refused() {
    let mut player = player();
    let err = player.play(PlayMessage::default()).unwrap_err();
    assert_eq!(
        err.message(),
        "Play message has neither `url` nor `content`"
    );
    let err = player
        .play(PlayMessage {
            container: Some("video/mp4".to_string()),
            ..Default::default()
        })
        .unwrap_err();
    assert_eq!(
        err.message(),
        "Play message has neither `url` nor `content`"
    );
}

#[test]
fn unrenderable_webpage_plays_are_refused_without_starting_the_engine() {
    let mut player = player();

    let err = player
        .play(PlayMessage {
            container: Some("text/html".to_string()),
            content: Some("<html></html>".to_string()),
            ..Default::default()
        })
        .expect_err("a webpage play with no url must fail");
    assert!(
        err.message().contains("web page"),
        "unexpected error: {}",
        err.message()
    );
    assert_eq!(
        err.message(),
        "Play message targets a web page (container \"text/html\") but has no `url`; pass the page's http(s):// or file:// URL"
    );

    let err = player
        .play(classified("text/html", "ftp://example.invalid/dashboard"))
        .expect_err("a non-http(s)/file url must fail");
    assert!(
        err.message().contains("http://"),
        "unexpected error: {}",
        err.message()
    );

    assert!(!player.webpage_active());
    assert!(player.queue.items.is_empty());
}

#[test]
fn a_play_at_the_clock_starts_behind_a_spinner() {
    let mut player = player();
    assert!(player.is_idle());
    let mut message = classified("video/mp4", "https://example.invalid/a.mp4");
    message.volume = Some(Real { bits: 3 });
    start(&mut player, message);
    assert_eq!(player.idle_screen(), None);
    assert!(player.loading_overlay_active());
    assert_eq!(player.last_target, "https://example.invalid/a.mp4");
    assert_eq!(player.queue.position(), Some(0));
    assert_eq!(player.routing.loads.len(), 1);
    assert!(!player.routing.loads[0].probing);

    match player.lifecycle(LifecycleEvent::PlaybackRestart) {
        Lifecycle::Uncover(fade) => assert_eq!((fade.start, fade.end), (255, 0)),
        other => panic!("unexpected: {other:?}"),
    }
    assert!(!player.is_idle(), "it plays though the black still fades");
}

#[test]
fn a_play_while_something_plays_only_waits_its_turn() {
    let mut player = player();
    start(&mut player, unclassified("https://example.invalid/a"));
    render(&mut player);
    assert!(!player.is_idle());
    assert!(player
        .play(unclassified("https://example.invalid/b"))
        .unwrap()
        .is_none());
    assert_eq!(player.queue.items.len(), 2);
    assert_eq!(player.queue.position(), Some(0));
}

#[test]
fn a_play_while_a_load_is_in_flight_supersedes_it() {
    let mut player = player();
    start(&mut player, unclassified("https://example.invalid/a"));
    assert!(player.is_idle(), "nothing renders yet");
    start(&mut player, unclassified("https://example.invalid/b"));
    assert_eq!(player.queue.position(), Some(1));
    match fail(&mut player) {
        MediaFailure::Superseded(url) => assert_eq!(url, "https://example.invalid/a"),
        other => panic!("unexpected: {other:?}"),
    }
    assert_eq!(player.queue.position(), Some(1));
}

#[test]
fn media_play_supersedes_a_displayed_webpage() {
    let mut player = player();
    start(
        &mut player,
        classified("text/html", "http://127.0.0.1:9/dashboard"),
    );
    assert!(player.webpage_active());
    assert!(!player.is_idle(), "a page counts as playing");

    let media_url = "av://lavfi:testsrc=size=64x64:rate=10:duration=1";
    assert!(player.play(unclassified(media_url)).unwrap().is_none());
    let task = player.jump_forward().unwrap().expect("it is next");
    assert!(run(&mut player, task, never));

    assert!(
        !player.webpage_active(),
        "media must take the screen back from the page"
    );
    assert_eq!(player.last_target, media_url);
    assert_eq!(
        player.idle_screen(),
        None,
        "media playback must hide the idle clock"
    );
}

#[test]
fn an_item_behind_a_page_starts_on_a_jump() {
    let mut player = player();
    start(&mut player, classified("text/html", "http://x/"));
    assert!(player.play(unclassified("https://y/")).unwrap().is_none());
    let task = player.jump_forward().unwrap().unwrap();
    assert_eq!(task.target, "https://y/");
    assert!(run(&mut player, task, never));
    assert!(!player.webpage_active());
    assert_eq!(player.queue.position(), Some(1));
    assert!(player.jump_forward().unwrap().is_none());
    assert_eq!(player.queue.position(), Some(1));
}

#[test]
fn unclassified_urls_fall_back_to_the_browser() {
    let mut player = player();
    start(&mut player, unclassified("http://127.0.0.1:1/not-media"));
    match fail(&mut player) {
        MediaFailure::FallBack(task) => {
            assert_eq!(task.target, "http://127.0.0.1:1/not-media");
            assert!(run(&mut player, task, never));
        }
        other => panic!("unexpected: {other:?}"),
    }
    assert!(player.webpage_active());
    assert_eq!(player.queue.position(), Some(0), "the page is the item");
    assert_eq!(player.idle_screen(), Some(IdleScreen::Clock));
}

#[test]
fn a_url_nothing_can_render_is_no_longer_current() {
    let mut player = player();
    start(&mut player, unclassified("http://127.0.0.1:1/nothing"));
    match fail(&mut player) {
        MediaFailure::FallBack(task) => {
            assert!(!run(&mut player, task, |op| op == Op::ShowPage));
        }
        other => panic!("unexpected: {other:?}"),
    }
    assert!(!player.webpage_active());
    assert_eq!(player.queue.position(), None);
    assert_eq!(player.queue.items.len(), 1);
}

#[test]
fn explicit_media_container_is_not_reinterpreted_as_a_web_page() {
    let mut player = player();
    start(
        &mut player,
        classified("video/mp4", "http://127.0.0.1:1/not-media"),
    );
    match fail(&mut player) {
        MediaFailure::Report(url) => assert_eq!(url, "http://127.0.0.1:1/not-media"),
        other => panic!("unexpected: {other:?}"),
    }
    assert_eq!(player.queue.position(), None, "a failed item is not current");
}

#[test]
fn a_load_that_opened_keeps_its_item_current() {
    let mut player = player();
    start(&mut player, unclassified("http://127.0.0.1:1/media"));
    open(&mut player);
    match fail(&mut player) {
        MediaFailure::Report(url) => assert_eq!(url, "http://127.0.0.1:1/media"),
        other => panic!("unexpected: {other:?}"),
    }
    assert_eq!(player.queue.position(), Some(0));
}

#[test]
fn stop_ends_an_in_flight_routing_decision() {
    let mut player = player();
    start(&mut player, unclassified("http://127.0.0.1:1/not-media"));
    let task = player.stop();
    assert!(run(&mut player, task, never));
    match fail(&mut player) {
        MediaFailure::Report(url) => assert_eq!(url, "http://127.0.0.1:1/not-media"),
        other => panic!("unexpected: {other:?}"),
    }
    assert!(!player.webpage_active());
    assert_eq!(player.idle_screen(), Some(IdleScreen::Clock));
    assert_eq!(
        player.queue.position(),
        Some(0),
        "a stop leaves the queue where it is"
    );
}

#[test]
fn explicit_webpage_container_skips_the_media_path() {
    let mut player = player();
    start(
        &mut player,
        classified("text/html", "http://127.0.0.1:9/dashboard"),
    );
    assert!(player.webpage_active());
    assert!(player.routing.loads.is_empty());
    assert_eq!(player.last_target, "");
}

#[test]
fn a_page_cancels_what_is_still_being_decided() {
    let mut player = player();
    start(&mut player, unclassified("http://127.0.0.1:1/media"));
    start(&mut player, classified("text/html", "http://x/"));
    assert!(!player.routing.loads[0].probing);
    assert!(matches!(fail(&mut player), MediaFailure::Report(_)));
    assert_eq!(player.queue.position(), Some(1));
}

#[test]
fn an_error_without_a_load_is_nobodys() {
    let mut player = player();
    start(&mut player, unclassified("http://127.0.0.1:1/media"));
    let entry = oldest_entry(&player);
    player.media_ended(entry);
    match player.media_failed(entry) {
        MediaFailure::Unmatched(e) => assert_eq!(e, entry),
        other => panic!("unexpected: {other:?}"),
    }
    assert_eq!(player.queue.position(), Some(0));
}

#[test]
fn a_play_whose_load_cannot_be_submitted_stays_queued() {
    let mut player = player();
    let task = player
        .play(unclassified("http://127.0.0.1:1/media"))
        .unwrap()
        .unwrap();
    assert!(!run(&mut player, task, |op| op == Op::LoadFile));
    assert_eq!(player.queue.items.len(), 1);
    assert_eq!(player.queue.position(), None);
    assert_eq!(player.idle_screen(), Some(IdleScreen::Clock));
    assert!(!player.loading_overlay_active());
    assert!(player.routing.loads.is_empty());
}

#[test]
fn the_end_of_an_item_starts_the_next() {
    let mut player = player();
    start(&mut player, unclassified("http://a/"));
    render(&mut player);
    player.play(unclassified("http://b/")).unwrap();
    match player.end_of_file() {
        EndOfFile::Advance(task) => {
            assert_eq!(task.target, "http://b/");
            assert!(run(&mut player, task, never));
        }
        other => panic!("unexpected: {other:?}"),
    }
    assert_eq!(player.queue.position(), Some(1));
    assert!(matches!(player.end_of_file(), EndOfFile::ShowClock));
    assert_eq!(player.queue.position(), Some(1));
}

#[test]
fn jumps_play_what_they_land_on() {
    let mut player = player();
    start(&mut player, unclassified("http://a/"));
    render(&mut player);
    player.play(unclassified("http://b/")).unwrap();
    player.play(unclassified("http://c/")).unwrap();

    let task = player.jump_to_index(2).unwrap().unwrap();
    assert_eq!(task.target, "http://c/");
    assert!(run(&mut player, task, never));
    let task = player.jump_backward().unwrap().unwrap();
    assert_eq!(task.target, "http://b/");
    assert!(run(&mut player, task, never));
    let task = player.jump_to_index(1).unwrap().unwrap();
    assert_eq!(task.target, "http://b/", "the current item is replayed");
    assert!(run(&mut player, task, never));
    assert!(player.jump_to_index(3).unwrap().is_none());
    assert_eq!(player.queue.position(), Some(1));
}

#[test]
fn a_jump_to_an_item_that_cannot_be_played_stays_put() {
    let mut queue = Queue::default();
    queue.push(unclassified("http://a/"));
    queue.push(classified("text/html", "ftp://b/"));
    queue.set_position(Some(0));
    let mut player = Player::new(queue, page());
    player.show_idle_screen(IdleScreen::Clock);
    let err = player.jump_forward().unwrap_err();
    assert!(err.message().contains("ftp://b/"));
    assert_eq!(player.queue.position(), Some(0));
    assert!(matches!(player.end_of_file(), EndOfFile::ShowClock));
}

#[test]
fn clearing_stops_what_plays_first() {
    let mut player = player();
    start(&mut player, unclassified("http://a/"));
    render(&mut player);
    let task = player.clear_queue().expect("the current item is playing");
    assert_eq!(player.queue.items.len(), 1);
    assert!(run(&mut player, task, never));
    assert!(player.queue.items.is_empty());
    assert_eq!(player.queue.position(), None);
    assert_eq!(player.idle_screen(), Some(IdleScreen::Clock));
}

#[test]
fn clearing_at_the_clock_is_done_at_once() {
    let mut player = player();
    player.queue.push(unclassified("http://a/"));
    player.queue.set_position(Some(0));
    assert!(player.clear_queue().is_none());
    assert!(player.queue.items.is_empty());
}

#[test]
fn a_clear_whose_stop_fails_keeps_the_queue() {
    let mut player = player();
    start(&mut player, unclassified("http://a/"));
    render(&mut player);
    let task = player.clear_queue().unwrap();
    assert!(!run(&mut player, task, |op| op == Op::StopMedia));
    assert_eq!(player.queue.items.len(), 1);
}

#[test]
fn end_of_file_without_playback_restart_returns_to_idle_clock() {
    let mut player = player();
    start(&mut player, unclassified("http://a/"));
    assert!(player.loading_overlay_active(), "spinner must be up");
    match player.lifecycle(LifecycleEvent::EndedAtEof) {
        Lifecycle::Restore(restore) => run_alone(&mut player, restore),
        other => panic!("a normal EOF must not stop the watcher: {other:?}"),
    }
    assert!(
        !player.loading_overlay_active(),
        "the spinner must be torn down rather than stuck over opaque black"
    );
    assert_eq!(
        player.idle_screen(),
        Some(IdleScreen::Clock),
        "the idle clock must return"
    );
}

#[test]
fn rapid_replay_keeps_the_new_loads_spinner_up() {
    let mut player = player();
    start(&mut player, unclassified("http://a/"));
    start(&mut player, unclassified("http://b/"));
    assert!(matches!(
        player.lifecycle(LifecycleEvent::Other),
        Lifecycle::Ignore
    ));
    assert!(
        player.loading_overlay_active(),
        "a superseding load must keep the new spinner up"
    );
}

#[test]
fn lifecycle_events_without_an_overlay_are_nothing() {
    let mut player = player();
    assert!(matches!(
        player.lifecycle(LifecycleEvent::Failed),
        Lifecycle::Ignore
    ));
    assert!(matches!(
        player.lifecycle(LifecycleEvent::EndedAtEof),
        Lifecycle::Ignore
    ));
    assert!(matches!(
        player.lifecycle(LifecycleEvent::PlaybackRestart),
        Lifecycle::Ignore
    ));
    assert!(matches!(
        player.lifecycle(LifecycleEvent::Shutdown),
        Lifecycle::Quit
    ));
}

#[test]
fn failed_load_clears_loading_overlay_and_returns_to_idle_clock() {
    let mut player = player();
    start(
        &mut player,
        unclassified("https://example.invalid/does-not-exist.mp4"),
    );
    assert!(
        player.loading_overlay_active(),
        "spinner is up while the failing load is in flight"
    );
    match player.lifecycle(LifecycleEvent::Failed) {
        Lifecycle::Restore(restore) => run_alone(&mut player, restore),
        other => panic!("unexpected: {other:?}"),
    }
    assert!(
        !player.loading_overlay_active(),
        "spinner to clear after the load fails"
    );
    assert_eq!(
        player.idle_screen(),
        Some(IdleScreen::Clock),
        "idle clock to return after the load fails"
    );
}

#[test]
fn a_page_is_reported_as_playing_without_a_timeline() {
    let mut player = player();
    start(&mut player, classified("text/html", "http://x/"));
    let mut media = idle_media();
    media.time = Some(Real { bits: 1 });
    media.duration = Some(Real { bits: 2 });
    media.speed = Some(Real { bits: 3 });
    let status = player.status(media, 99);
    assert_eq!(status.state, PlaybackState::Playing);
    assert_eq!(status.generation_time, 99);
    assert_eq!(status.time, None);
    assert_eq!(status.duration, None);
    assert_eq!(status.speed, Some(Real { bits: 3 }));
}

#[test]
fn the_state_follows_the_media_player() {
    let player = player();
    let mut media = idle_media();
    assert_eq!(player.status(media, 0).state, PlaybackState::Idle);
    media.idle = None;
    assert_eq!(player.status(media, 0).state, PlaybackState::Idle);
    media.idle = Some(false);
    media.time = Some(Real { bits: 1 });
    assert_eq!(player.status(media, 0).state, PlaybackState::Playing);
    assert_eq!(player.status(media, 0).time, Some(Real { bits: 1 }));
    media.paused = None;
    assert_eq!(player.status(media, 0).state, PlaybackState::Playing);
    media.paused = Some(true);
    assert_eq!(player.status(media, 0).state, PlaybackState::Paused);
}

#[test]
fn a_wallpaper_is_reported_as_idle() {
    let mut player = Player::new(Queue::default(), page());
    let redraw = player.show_idle_screen(IdleScreen::Clock);
    let loaded = RedrawEvent::Loaded { ok: true };
    assert_eq!(
        player.redraw(redraw, loaded, "/state/images/a.png", 1, 5),
        RedrawAction::DrawOverWallpaper
    );
    let mut media = idle_media();
    media.idle = Some(false);
    assert_eq!(player.status(media, 0).state, PlaybackState::Idle);
    assert_eq!(player.routing.loads.len(), 1);
    assert_eq!(player.routing.loads[0].url, "/state/images/a.png");
    assert!(!player.routing.loads[0].probing);
}

#[test]
fn a_wallpapers_events_are_its_own() {
    let mut player = Player::new(Queue::default(), page());
    let redraw = player.show_idle_screen(IdleScreen::Clock);
    player.redraw(redraw, RedrawEvent::Loaded { ok: true }, "/w.png", 1, 5);
    open(&mut player);
    start(&mut player, unclassified("http://127.0.0.1:1/page"));
    player.media_ended(1);
    assert!(matches!(fail(&mut player), MediaFailure::FallBack(_)));
}

#[test]
fn hiding_the_clock_says_whether_it_was_there() {
    let mut player = player();
    assert!(player.hide_idle_screen());
    assert!(!player.hide_idle_screen());
}

#[test]
fn the_media_player_starts_fullscreen_and_idle() {
    let settings = startup_properties(None, None, None);
    let value = |name: &str| {
        settings
            .iter()
            .find(|p| p.name == name)
            .map(|p| p.value.clone())
    };
    assert_eq!(value("vo").as_deref(), Some("gpu"));
    assert_eq!(value("hwdec").as_deref(), Some("auto-safe"));
    assert_eq!(value("keep-open").as_deref(), Some("yes"));
    assert_eq!(value("image-display-duration").as_deref(), Some("inf"));
    assert_eq!(value("msg-level").as_deref(), Some("all=warn"));
    assert_eq!(value("gpu-context"), None);
    assert_eq!(settings.len(), 12);

    let settings = startup_properties(
        Some("null".to_string()),
        Some("wayland".to_string()),
        Some("no".to_string()),
    );
    assert_eq!(settings[0].value, "null");
    assert_eq!(settings[6].name, "hwdec");
    assert_eq!(settings[6].value, "no");
    assert_eq!(settings[12].name, "gpu-context");
    assert_eq!(settings[12].value, "wayland");
}

#[test]
fn a_failed_load_is_explained_in_plain_words() {
    assert!(describe_playback_error(MediaError::NothingToPlay).starts_with("nothing to play"));
    assert_eq!(
        describe_playback_error(MediaError::LoadingFailed),
        "loading failed: mpv could not load/open this URL"
    );
    assert_eq!(
        describe_playback_error(MediaError::Other),
        "see the mpv log line above for the concrete cause"
    );
}

#[test]
fn media_events_are_put_down_to_the_load_they_name() {
    let mut player = player();
    start(&mut player, unclassified("http://127.0.0.1:1/first"));
    start(&mut player, unclassified("http://127.0.0.1:1/second"));
    let first = player.routing.loads[0].entry.unwrap();
    let second = player.routing.loads[1].entry.unwrap();

    for event in [
        MediaEvent::Other,
        MediaEvent::FileLoaded,
        MediaEvent::Started(first),
        MediaEvent::FileLoaded,
    ] {
        let reaction = player.media_event(event);
        assert!(matches!(reaction, MediaReaction::Nothing));
    }
    assert!(player.routing.loads[0].loaded);
    assert!(!player.routing.loads[1].loaded);
    assert!(matches!(
        player.media_event(MediaEvent::Ended(first)),
        MediaReaction::Nothing
    ));
    assert_eq!(player.routing.loads.len(), 1);

    let reaction = player.media_event(MediaEvent::Failed(second));
    match reaction {
        MediaReaction::Failure(MediaFailure::FallBack(task)) => {
            assert_eq!(task.target, "http://127.0.0.1:1/second");
        }
        other => panic!("unexpected: {other:?}"),
    }
    assert!(player.routing.loads.is_empty());
    let reaction = player.media_event(MediaEvent::Failed(second));
    assert!(matches!(
        reaction,
        MediaReaction::Failure(MediaFailure::Unmatched(_))
    ));
    assert!(matches!(
        player.media_event(MediaEvent::Shutdown),
        MediaReaction::Quit
    ));
}

#[test]
fn unclassified_playlist_then_page_displays_the_page() {
    let mut player = player();
    start(&mut player, unclassified("http://127.0.0.1:1/list.m3u"));
    let list = oldest_entry(&player);
    let clip = list + 1;
    player.media_event(MediaEvent::Started(list));
    player.media_event(MediaEvent::Ended(list));
    player.media_event(MediaEvent::Started(clip));
    player.media_event(MediaEvent::FileLoaded);

    let task = player
        .play_now(&unclassified("http://127.0.0.1:1/"), None)
        .unwrap();
    let mut task = task;
    let page = clip + 1;
    while let Some(op) = task.next() {
        let ok = perform(&mut player, op, "", true);
        player.report(&mut task, ok, page);
    }
    assert!(player.finish(task));

    player.media_event(MediaEvent::Ended(clip));
    player.media_event(MediaEvent::Started(page));
    match player.media_event(MediaEvent::Failed(page)) {
        MediaReaction::Failure(MediaFailure::FallBack(task)) => {
            assert_eq!(task.target, "http://127.0.0.1:1/");
            assert!(run(&mut player, task, never));
        }
        other => panic!("unexpected: {other:?}"),
    }
    assert!(player.webpage_active());
}

#[test]
fn items_that_fail_together_do_not_stick() {
    let mut player = player();
    start(&mut player, classified("video/mp4", "http://a/"));
    start(&mut player, classified("video/mp4", "http://b/"));
    assert_eq!(player.queue.position(), Some(1));
    assert!(matches!(fail(&mut player), MediaFailure::Report(_)));
    assert_eq!(player.queue.position(), Some(1));
    assert!(matches!(fail(&mut player), MediaFailure::Report(_)));
    assert_eq!(player.queue.position(), None);
    assert_eq!(player.queue.items.len(), 2);
}

#[test]
fn no_wallpaper_is_loaded_behind_a_page() {
    let mut player = player();
    start(&mut player, classified("text/html", "http://x/"));
    let redraw = player.show_idle_screen(IdleScreen::Clock);
    let woke = RedrawEvent::Woke { can_rotate: true };
    assert_eq!(
        player.redraw(redraw, woke, "", 0, 0),
        RedrawAction::DrawOnBlack
    );
    let picked = RedrawEvent::Picked { found: true };
    assert_eq!(
        player.redraw(redraw, picked, "/w.png", 0, 0),
        RedrawAction::DrawOnBlack
    );
    player.webpage.take_down();
    assert_eq!(player.redraw(redraw, woke, "", 0, 0), RedrawAction::Pick);
    assert_eq!(
        player.redraw(redraw, picked, "/w.png", 0, 0),
        RedrawAction::Load
    );
}

#[test]
fn stop_after_end_of_file_does_not_blink_the_idle_clock() {
    let mut player = player();
    start(
        &mut player,
        unclassified("av://lavfi:testsrc=size=64x64:rate=10:duration=1"),
    );
    render(&mut player);
    assert!(matches!(player.end_of_file(), EndOfFile::ShowClock));
    player.show_idle_screen(IdleScreen::Clock);

    let task = player.stop();
    assert!(
        !overlay_came_up(&mut player, task),
        "a Stop after end-of-file must not conceal the clock to black"
    );
    assert_eq!(player.idle_screen(), Some(IdleScreen::Clock));
}

#[test]
fn stop_while_playing_fades_out_to_the_idle_clock() {
    let mut player = player();
    start(
        &mut player,
        unclassified("av://lavfi:testsrc=size=64x64:rate=10:duration=30"),
    );
    render(&mut player);
    assert_eq!(player.idle_screen(), None);

    let task = player.stop();
    assert!(
        overlay_came_up(&mut player, task),
        "a Stop during playback must fade through the overlay"
    );
    assert_eq!(player.idle_screen(), Some(IdleScreen::Clock));
    assert!(!player.loading_overlay_active());
}

#[test]
fn webpage_play_starts_the_browser_engine_and_stop_terminates_it() {
    let mut player = player();
    let url = "http://127.0.0.1:9/dashboard";
    let launch = player.webpage.show(url).unwrap();
    assert!(launch.args.contains(&format!("--app={url}")));
    assert!(launch.args.contains(&"--kiosk".to_string()));
    assert!(launch.terminate.is_none());

    start(&mut player, classified("text/html", url));
    assert!(player.webpage_active());
    assert_eq!(player.idle_screen(), Some(IdleScreen::Clock));
    assert_eq!(
        player.status(idle_media(), 1).state,
        PlaybackState::Playing,
        "a displayed page is Playing from the sender's point of view"
    );

    let task = player.stop();
    assert_eq!(task.next(), Some(Op::HidePage));
    assert_eq!(player.webpage.current, Some(77), "the engine to terminate");
    assert!(run(&mut player, task, never));
    assert!(!player.webpage_active());
    assert_eq!(player.idle_screen(), Some(IdleScreen::Clock));
    assert_eq!(player.status(idle_media(), 2).state, PlaybackState::Idle);
}

#[test]
fn stop_then_unrouted_page_play_still_falls_back_to_the_browser() {
    let mut player = player();
    start(
        &mut player,
        unclassified("av://lavfi:testsrc=size=64x64:rate=10:duration=30"),
    );
    render(&mut player);
    let clip = oldest_entry(&player);

    let task = player.stop();
    assert!(run(&mut player, task, never));
    let url = "http://127.0.0.1:1/not-media";
    start(&mut player, unclassified(url));

    player.media_event(MediaEvent::Ended(clip));
    match fail(&mut player) {
        MediaFailure::FallBack(task) => {
            assert_eq!(task.target, url);
            assert!(run(&mut player, task, never));
        }
        other => panic!("unexpected: {other:?}"),
    }
    assert!(
        player.webpage_active(),
        "the page must still fall back to the browser"
    );
}

#[test]
fn unclassified_play_tries_media_before_falling_back_to_the_browser() {
    let mut player = player();
    let url = "http://127.0.0.1:8080/not-media";
    start(&mut player, unclassified(url));
    assert!(!player.webpage_active());
    assert_eq!(player.last_target, url);
    assert_eq!(player.routing.loads[0].url, url);

    match fail(&mut player) {
        MediaFailure::FallBack(task) => {
            assert_eq!(task.target, url);
            assert!(run(&mut player, task, never));
        }
        other => panic!("unexpected: {other:?}"),
    }
    assert!(player.webpage_active());
    assert_eq!(player.status(idle_media(), 1).state, PlaybackState::Playing);
    assert_eq!(player.idle_screen(), Some(IdleScreen::Clock));
}

#[test]
fn loading_overlay_shows_during_slow_load_and_clears_when_playback_starts() {
    let mut player = player();
    assert!(!player.loading_overlay_active());
    start(&mut player, unclassified("http://127.0.0.1:8080/slow.wav"));
    assert!(player.loading_overlay_active());
    assert_eq!(player.idle_screen(), None);

    player.media_event(MediaEvent::Started(oldest_entry(&player)));
    assert!(
        player.loading_overlay_active(),
        "spinner must stay up while the server withholds its first byte"
    );

    player.media_event(MediaEvent::FileLoaded);
    assert!(player.loading_overlay_active());
    let begun = player.lifecycle(LifecycleEvent::PlaybackRestart);
    assert!(begun.publishes());
    match begun {
        Lifecycle::Uncover(fade) => {
            assert!(player.overlay.clear_if_current(Some(fade.generation)));
        }
        other => panic!("unexpected: {other:?}"),
    }
    assert!(!player.loading_overlay_active());
}

#[test]
fn idle_screen_appears_when_idle_and_disappears_once_playback_starts() {
    let mut player = player();
    assert_eq!(player.idle_screen(), Some(IdleScreen::Clock));

    let url = "av://lavfi:testsrc=size=64x64:rate=10:duration=1";
    start(&mut player, unclassified(url));
    assert_eq!(player.idle_screen(), None);

    render(&mut player);
    match player.end_of_file() {
        EndOfFile::ShowClock => {
            player.show_idle_screen(IdleScreen::Clock);
        }
        other => panic!("unexpected: {other:?}"),
    }

    start(&mut player, unclassified(url));
    assert_eq!(player.idle_screen(), None);

    let task = player.stop();
    assert!(run(&mut player, task, never));
    assert_eq!(player.idle_screen(), Some(IdleScreen::Clock));
}

#[test]
fn second_play_after_first_reaches_eof_is_not_left_paused() {
    let mut player = player();
    let url = "av://lavfi:testsrc=size=64x64:rate=10:duration=1";
    start(&mut player, unclassified(url));
    render(&mut player);
    assert!(matches!(player.end_of_file(), EndOfFile::ShowClock));
    player.show_idle_screen(IdleScreen::Clock);

    let mut task = player.play(unclassified(url)).unwrap().unwrap();
    let mut paused = true;
    let mut loaded = false;
    while let Some(op) = task.next() {
        match op {
            Op::LoadFile => loaded = true,
            Op::Unpause => {
                assert!(loaded);
                paused = false;
            }
            _ => {}
        }
        let ok = perform(&mut player, op, url, true);
        let entry = unused_entry(&player);
        player.report(&mut task, ok, entry);
    }
    assert!(player.finish(task));
    assert!(!paused);
}

/// Whether the load's spinner is up on opaque black, and nothing else is on
/// screen.
fn only_loading(player: &Player) -> bool {
    !player.webpage_active()
        && player.idle_screen().is_none()
        && player.loading_overlay_active()
        && player.overlay.opacity == 255
}

#[test]
fn a_media_play_leaves_only_its_spinner_on_screen() {
    let mut player = player();
    start(&mut player, classified("video/mp4", "http://a/"));
    assert!(only_loading(&player));
}

#[test]
fn a_media_play_that_fails_anywhere_leaves_no_spinner() {
    let failures: [fn(Op) -> bool; 5] = [
        |op| op == Op::Conceal,
        |op| op == Op::HideClock,
        |op| op == Op::SpawnSpinner,
        |op| op == Op::LoadFile,
        |op| op == Op::Unpause,
    ];
    for fails in failures {
        let mut player = player();
        let task = player
            .play(classified("video/mp4", "http://a/"))
            .unwrap()
            .unwrap();
        assert!(!run(&mut player, task, fails));
        assert!(!player.loading_overlay_active());
        assert!(!player.webpage_active());
        assert_eq!(player.idle_screen(), Some(IdleScreen::Clock));
    }
}

#[test]
fn a_stop_leaves_only_the_clock_on_screen() {
    // While a load is under way.
    let mut player = player();
    start(&mut player, classified("video/mp4", "http://a/"));
    let task = player.stop();
    assert!(run(&mut player, task, never));
    assert!(!player.loading_overlay_active());
    assert_eq!(player.idle_screen(), Some(IdleScreen::Clock));

    // While something plays.
    start(&mut player, classified("video/mp4", "http://b/"));
    render(&mut player);
    let task = player.stop();
    assert!(run(&mut player, task, never));
    assert!(!player.loading_overlay_active());
    assert_eq!(player.idle_screen(), Some(IdleScreen::Clock));

    // With a page on screen.
    start(&mut player, classified("text/html", "http://x/"));
    assert!(player.webpage_active());
    let task = player.stop();
    assert!(run(&mut player, task, never));
    assert!(!player.webpage_active());
    assert!(!player.loading_overlay_active());
    assert_eq!(player.idle_screen(), Some(IdleScreen::Clock));
}

#[test]
fn a_failed_stop_leaves_neither_page_nor_black() {
    let mut player = player();
    start(&mut player, classified("video/mp4", "http://a/"));
    let task = player.stop();
    assert!(!run(&mut player, task, |op| op == Op::FadeInClock));
    assert!(!player.webpage_active());
    assert!(!player.loading_overlay_active());
    assert_eq!(player.idle_screen(), Some(IdleScreen::Clock));
}

#[test]
fn steps_say_what_there_is_to_do() {
    let mut player = player();
    player.webpage.current = Some(41);
    match player.begin_step(Op::HidePage, "", 0, 33) {
        Ok(Begun::EndPage(page)) => assert_eq!(page, Some(41)),
        other => panic!("unexpected: {other:?}"),
    }
    assert!(!player.webpage_active());

    let generation = match player.begin_step(Op::Conceal, "", 0, 33) {
        Ok(Begun::Fade(fade)) => {
            assert_eq!((fade.start, fade.end), (0, 255));
            fade.generation
        }
        other => panic!("unexpected: {other:?}"),
    };
    assert!(player.loading_overlay_active());
    assert!(matches!(
        player.end_step(Op::Conceal, true, generation, 0),
        Ended::Plain
    ));
    assert_eq!(player.overlay.opacity, 255);

    assert!(matches!(
        player.begin_step(Op::HideClock, "", 0, 33),
        Ok(Begun::RemoveClock(true))
    ));
    assert!(matches!(
        player.begin_step(Op::HideClock, "", 0, 33),
        Ok(Begun::RemoveClock(false))
    ));

    match player.begin_step(Op::SpawnSpinner, "", 100, 33) {
        Ok(Begun::Spinner(spinner)) => assert_eq!((spinner.due, spinner.angle), (133, 0)),
        other => panic!("unexpected: {other:?}"),
    }
    let generation = player.overlay.generation;
    assert!(matches!(
        player.end_step(Op::SpawnSpinner, false, generation, 0),
        Ended::RemoveOverlay
    ));
    assert!(!player.loading_overlay_active());

    match player.end_step(Op::ShowClock, true, 0, 0) {
        Ended::Redraw(redraw) => assert_eq!(redraw.generation, player.idle.generation),
        other => panic!("unexpected: {other:?}"),
    }
    assert_eq!(player.idle_screen(), Some(IdleScreen::Clock));
}

#[test]
fn a_page_step_starts_an_engine_in_place_of_the_last() {
    let mut player = player();
    player.webpage.current = Some(41);
    assert!(player.begin_step(Op::ShowPage, "ftp://x/", 0, 33).is_err());
    assert!(player.webpage_active(), "a refused page changes nothing");

    match player.begin_step(Op::ShowPage, "http://x/", 0, 33) {
        Ok(Begun::Launch(launch)) => assert_eq!(launch.terminate, Some(41)),
        other => panic!("unexpected: {other:?}"),
    }
    assert!(!player.webpage_active());
    match player.end_step(Op::ShowPage, true, 0, 42) {
        Ended::Engine(generation) => assert_eq!(generation, player.webpage.generation),
        other => panic!("unexpected: {other:?}"),
    }
    assert_eq!(player.webpage.current, Some(42));
}
