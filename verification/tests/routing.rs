use castoff::queue::QueueMove;
use castoff::routing::{Resolution, Routing};

const MEDIA: &str = "http://127.0.0.1:1/media";
const PAGE: &str = "http://127.0.0.1:1/page";
const FIRST: &str = "http://127.0.0.1:1/first";
const SECOND: &str = "http://127.0.0.1:1/second";

#[test]
fn stale_file_loaded_resolves_its_own_load_not_a_newer_probe() {
    let mut routing = Routing::default();

    routing.submit(MEDIA, true);
    routing.submit(PAGE, true);
    routing.file_loaded();

    routing.resolve_end();
    assert_eq!(
        routing.resolve_error(),
        Some(Resolution::FallBack(PAGE.to_string())),
        "a stale FileLoaded must not consume the newer Play's probe"
    );
}

#[test]
fn superseded_probe_does_not_fall_back_over_a_newer_load() {
    let mut routing = Routing::default();

    routing.submit(FIRST, true);
    routing.submit(SECOND, true);
    assert_eq!(
        routing.resolve_error(),
        Some(Resolution::Superseded(FIRST.to_string()))
    );
    assert_eq!(
        routing.resolve_error(),
        Some(Resolution::FallBack(SECOND.to_string()))
    );
}

#[test]
fn loaded_load_that_fails_later_is_a_playback_error() {
    let mut routing = Routing::default();

    routing.submit(MEDIA, true);
    routing.file_loaded();
    assert_eq!(
        routing.resolve_error(),
        Some(Resolution::PlaybackError(MEDIA.to_string()))
    );
}

#[test]
fn explicit_media_and_cancelled_probes_never_fall_back() {
    let mut routing = Routing::default();

    routing.submit(MEDIA, false);
    assert_eq!(
        routing.resolve_error(),
        Some(Resolution::PlaybackError(MEDIA.to_string()))
    );

    routing.submit(MEDIA, true);
    routing.cancel();
    assert_eq!(
        routing.resolve_error(),
        Some(Resolution::PlaybackError(MEDIA.to_string())),
        "a cancelled probe must not fall back, but its own event still resolves its entry"
    );
}

#[test]
fn stale_end_after_cancel_resolves_its_own_load_not_a_newer_probe() {
    let mut routing = Routing::default();

    routing.submit(MEDIA, true);
    routing.cancel();
    routing.submit(PAGE, true);

    routing.resolve_end();
    assert_eq!(
        routing.resolve_error(),
        Some(Resolution::FallBack(PAGE.to_string())),
        "a stale EndFile after cancel must not consume the newer Play's probe"
    );
}

#[test]
fn stale_file_loaded_after_cancel_resolves_its_own_load() {
    let mut routing = Routing::default();

    routing.submit(MEDIA, true);
    routing.cancel();
    routing.submit(PAGE, true);

    routing.file_loaded();
    routing.resolve_end();
    assert_eq!(
        routing.resolve_error(),
        Some(Resolution::FallBack(PAGE.to_string())),
        "a stale FileLoaded after cancel must not mark the newer load as loaded"
    );
}

#[test]
fn an_event_without_a_load_decides_nothing() {
    let mut routing = Routing::default();
    routing.file_loaded();
    routing.resolve_end();
    assert_eq!(routing.resolve_error(), None);
    routing.submit(MEDIA, true);
    assert_eq!(
        routing.resolve_error(),
        Some(Resolution::FallBack(MEDIA.to_string()))
    );
}

#[test]
fn only_a_load_that_never_opened_and_is_the_newest_takes_its_move_back() {
    let moved = Some(QueueMove {
        from: Some(2),
        to: 3,
    });
    let mut routing = Routing::default();
    routing.submit_item(Some(1), MEDIA, false, moved);
    assert_eq!(routing.entry_failed(Some(1)).1, moved);

    routing.submit_item(Some(2), MEDIA, false, moved);
    routing.entry_loaded(Some(2));
    assert_eq!(routing.entry_failed(Some(2)).1, None);

    let next = Some(QueueMove {
        from: Some(3),
        to: 4,
    });
    routing.submit_item(Some(3), MEDIA, false, moved);
    routing.submit_item(Some(4), PAGE, false, next);
    assert_eq!(routing.entry_failed(Some(3)).1, None);

    let mut routing = Routing::default();
    routing.submit_item(Some(5), MEDIA, true, moved);
    routing.cancel();
    assert_eq!(routing.entry_failed(Some(5)).1, None);
}

#[test]
fn a_failed_load_hands_its_move_on() {
    let mut routing = Routing::default();
    for (entry, from, to) in [(1, None, 0), (2, Some(0), 1), (3, Some(1), 2)] {
        routing.submit_item(Some(entry), MEDIA, true, Some(QueueMove { from, to }));
    }
    assert_eq!(
        routing.entry_failed(Some(1)),
        (Some(Resolution::Superseded(MEDIA.to_string())), None)
    );
    assert_eq!(routing.loads[0].moved, Some(QueueMove { from: None, to: 1 }));
    assert_eq!(
        routing.entry_failed(Some(2)),
        (Some(Resolution::Superseded(MEDIA.to_string())), None)
    );
    assert_eq!(
        routing.entry_failed(Some(3)),
        (
            Some(Resolution::FallBack(MEDIA.to_string())),
            Some(QueueMove { from: None, to: 2 })
        )
    );
}

#[test]
fn an_entry_that_was_never_submitted_is_nobodys() {
    let mut routing = Routing::default();
    routing.submit_item(Some(1), MEDIA, true, None);
    routing.entry_ended(Some(1));
    routing.entry_loaded(Some(2));
    routing.submit_item(Some(3), PAGE, true, None);
    routing.entry_loaded(Some(2));
    routing.entry_ended(Some(2));
    assert_eq!(routing.entry_failed(Some(2)), (None, None));
    assert_eq!(routing.loads.len(), 1);
    assert_eq!(
        routing.entry_failed(Some(3)).0,
        Some(Resolution::FallBack(PAGE.to_string()))
    );
}

#[test]
fn an_event_is_about_the_load_it_names() {
    let mut routing = Routing::default();
    routing.submit_item(Some(7), FIRST, true, None);
    routing.submit_item(Some(9), SECOND, true, None);
    routing.entry_loaded(Some(9));
    assert!(!routing.loads[0].loaded);
    assert!(routing.loads[1].loaded);
    assert_eq!(
        routing.entry_failed(Some(9)).0,
        Some(Resolution::PlaybackError(SECOND.to_string()))
    );
    assert_eq!(
        routing.entry_failed(Some(7)).0,
        Some(Resolution::Superseded(FIRST.to_string())),
        "a superseded load stays superseded"
    );
}

#[test]
fn loads_are_resolved_in_the_order_they_were_submitted() {
    let mut routing = Routing::default();
    for i in 0..5 {
        routing.submit(&format!("http://127.0.0.1/{i}"), false);
        if i == 2 {
            routing.cancel();
        }
    }
    for i in 0..5 {
        assert_eq!(
            routing.resolve_error(),
            Some(Resolution::PlaybackError(format!("http://127.0.0.1/{i}")))
        );
    }
    assert_eq!(routing.resolve_error(), None);
}
