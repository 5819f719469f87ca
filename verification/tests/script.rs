use castoff::fcast::Real;
use castoff::script::{Op, Run};

const HALF: Real = Real { bits: 5 };

/// The work of a run whose steps fail where `fails` says so.
fn work(mut run: Run, clock_showing: bool, fails: fn(Op) -> bool) -> (Vec<Op>, Vec<Op>, bool) {
    let mut done = Vec::new();
    let mut blamed = Vec::new();
    while let Some(op) = run.next() {
        done.push(op);
        if run.report(!fails(op), clock_showing) {
            blamed.push(op);
        }
        assert!(done.len() < 30, "the run must end");
    }
    (done, blamed, run.has_failed())
}

fn never(_op: Op) -> bool {
    false
}

#[test]
fn media_starts_behind_the_spinner() {
    let (done, blamed, failed) = work(Run::media(Some(HALF), None, Some(HALF)), false, never);
    assert_eq!(
        done,
        vec![
            Op::HidePage,
            Op::Conceal,
            Op::HideClock,
            Op::SpawnSpinner,
            Op::LoadFile,
            Op::Unpause,
            Op::SetStart(HALF),
            Op::SetSpeed(HALF),
        ]
    );
    assert!(blamed.is_empty());
    assert!(!failed);
}

#[test]
fn settings_that_fail_do_not_fail_a_play() {
    let (done, blamed, failed) = work(Run::media(None, Some(HALF), None), false, |op| {
        op == Op::SetVolume(HALF) || op == Op::HidePage
    });
    assert_eq!(done.last(), Some(&Op::SetVolume(HALF)));
    assert!(blamed.is_empty());
    assert!(!failed);
}

#[test]
fn a_failed_load_fades_the_clock_back_in() {
    let (done, blamed, failed) =
        work(Run::media(None, None, None), false, |op| op == Op::LoadFile);
    assert_eq!(
        done,
        vec![
            Op::HidePage,
            Op::Conceal,
            Op::HideClock,
            Op::SpawnSpinner,
            Op::LoadFile,
            Op::StopSpinner,
            Op::RenderClock,
            Op::FadeInClock,
            Op::ClearOverlay,
            Op::ShowClock,
        ]
    );
    assert_eq!(blamed, vec![Op::LoadFile]);
    assert!(failed);
}

#[test]
fn a_failure_while_fading_in_puts_the_clock_up_at_once() {
    let (done, blamed, failed) = work(Run::media(None, None, None), false, |op| {
        op == Op::Conceal || op == Op::FadeInClock
    });
    assert_eq!(
        done,
        vec![
            Op::HidePage,
            Op::Conceal,
            Op::StopSpinner,
            Op::RenderClock,
            Op::FadeInClock,
            Op::ClearOverlay,
            Op::ShowClock,
        ]
    );
    assert_eq!(blamed, vec![Op::Conceal], "the first failure is reported");
    assert!(failed);
}

#[test]
fn a_failure_with_the_clock_up_only_re_asserts_it() {
    let (done, blamed, failed) =
        work(Run::media(None, None, None), true, |op| op == Op::Conceal);
    assert_eq!(
        done,
        vec![Op::HidePage, Op::Conceal, Op::ClearOverlay, Op::ShowClock]
    );
    assert_eq!(blamed, vec![Op::Conceal]);
    assert!(failed);
}

#[test]
fn stopping_what_plays_fades_to_the_clock() {
    let (done, _, failed) = work(Run::stop(false, false), false, never);
    assert_eq!(
        done,
        vec![
            Op::HidePage,
            Op::Conceal,
            Op::StopMedia,
            Op::StopSpinner,
            Op::RenderClock,
            Op::FadeInClock,
            Op::ClearOverlay,
            Op::ShowClock,
        ]
    );
    assert!(!failed);
}

#[test]
fn stopping_at_the_clock_does_not_blink() {
    let (done, _, failed) = work(Run::stop(true, false), true, never);
    assert_eq!(done, vec![Op::HidePage, Op::StopMedia, Op::ShowClock]);
    assert!(!failed);
}

#[test]
fn stopping_a_load_skips_the_fade_to_black() {
    let (done, _, _) = work(Run::stop(false, true), false, never);
    assert_eq!(done[..2], [Op::HidePage, Op::StopMedia]);
    assert_eq!(done.last(), Some(&Op::ShowClock));
    assert_eq!(done.len(), 7);
}

#[test]
fn a_stop_that_fails_still_brings_the_clock_back() {
    let (done, blamed, failed) =
        work(Run::stop(false, false), false, |op| op == Op::StopMedia);
    assert_eq!(done.last(), Some(&Op::ShowClock));
    assert_eq!(blamed, vec![Op::StopMedia]);
    assert!(failed);
}

#[test]
fn a_page_that_does_not_start_touches_nothing() {
    let (done, blamed, failed) = work(Run::page(), true, |op| op == Op::ShowPage);
    assert_eq!(done, vec![Op::ShowPage]);
    assert_eq!(blamed, vec![Op::ShowPage]);
    assert!(failed);

    let (done, _, failed) = work(Run::page(), true, never);
    assert_eq!(done, vec![Op::ShowPage, Op::StopMedia, Op::ShowClock]);
    assert!(!failed);
}

#[test]
fn falling_back_tries_the_page_whatever_fails() {
    let (done, blamed, failed) = work(Run::fall_back(), false, |op| op != Op::ShowPage);
    assert_eq!(done, vec![Op::StopMedia, Op::ShowClock, Op::ShowPage]);
    assert!(blamed.is_empty());
    assert!(!failed);
    let (_, blamed, failed) = work(Run::fall_back(), false, |op| op == Op::ShowPage);
    assert_eq!(blamed, vec![Op::ShowPage]);
    assert!(failed);
}

#[test]
fn restoring_the_clock_goes_on_through_every_failure() {
    let (done, blamed, failed) = work(Run::restore_clock(), false, |_| true);
    assert_eq!(
        done,
        vec![
            Op::StopSpinner,
            Op::RenderClock,
            Op::FadeInClock,
            Op::ClearOverlay,
            Op::ShowClock,
        ]
    );
    assert!(blamed.is_empty());
    assert!(!failed);
}

#[test]
fn abort_restores_idle_clock_when_overlay_already_cleared() {
    let (done, _, failed) = work(Run::abort_to_idle(false), false, never);
    assert_eq!(done.last(), Some(&Op::ShowClock));
    assert!(!failed);
    let (done, _, _) = work(Run::abort_to_idle(true), true, never);
    assert_eq!(done, vec![Op::ClearOverlay, Op::ShowClock]);
}

#[test]
fn senders_are_told_when_the_screen_changes_hands() {
    for op in [
        Op::HidePage,
        Op::ShowPage,
        Op::LoadFile,
        Op::StopMedia,
        Op::ShowClock,
        Op::HideClock,
    ] {
        assert!(op.publishes());
    }
    for op in [Op::Conceal, Op::SpawnSpinner, Op::Unpause, Op::FadeInClock] {
        assert!(!op.publishes());
    }
}
