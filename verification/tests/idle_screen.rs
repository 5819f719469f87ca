use castoff::idle_screen::{
    hide_commands, IdleScreen, IdleScreenController, RedrawAction, RedrawEvent,
    WALLPAPER_ROTATION_INTERVAL_MS,
};

const WOKE: RedrawEvent = RedrawEvent::Woke { can_rotate: true };

#[test]
fn the_clock_is_redrawn_every_second() {
    assert_eq!(IdleScreen::Clock.refresh_interval(), Some(1000));
}

#[test]
fn a_fresh_clock_takes_a_wallpaper_at_once() {
    let mut idle = IdleScreenController::default();
    let redraw = idle.show(IdleScreen::Clock);
    assert_eq!(idle.current(), Some(IdleScreen::Clock));
    assert_eq!(idle.redraw(redraw, WOKE, 5_000), RedrawAction::Pick);
    assert_eq!(
        idle.redraw(redraw, RedrawEvent::Picked { found: true }, 5_000),
        RedrawAction::Load
    );
    assert_eq!(
        idle.redraw(redraw, RedrawEvent::Loaded { ok: true }, 5_000),
        RedrawAction::DrawOverWallpaper
    );
    assert!(idle.is_wallpaper_active());
    assert_eq!(idle.current(), Some(IdleScreen::Clock), "the clock stays");
}

#[test]
fn a_wallpaper_stays_for_a_minute() {
    let mut idle = IdleScreenController::default();
    let redraw = idle.show(IdleScreen::Clock);
    idle.redraw(redraw, RedrawEvent::Loaded { ok: true }, 5_000);
    let due = 5_000 + WALLPAPER_ROTATION_INTERVAL_MS;
    assert_eq!(
        idle.redraw(redraw, WOKE, due - 1),
        RedrawAction::DrawOverWallpaper
    );
    assert_eq!(idle.redraw(redraw, WOKE, due), RedrawAction::Pick);
    assert_eq!(
        idle.redraw(redraw, WOKE, 0),
        RedrawAction::DrawOverWallpaper,
        "a clock that lags never rotates early"
    );
}

#[test]
fn without_wallpapers_the_clock_stays_on_black() {
    let mut idle = IdleScreenController::default();
    let redraw = idle.show(IdleScreen::Clock);
    assert_eq!(
        idle.redraw(redraw, RedrawEvent::Woke { can_rotate: false }, 1),
        RedrawAction::DrawOnBlack
    );
    assert_eq!(
        idle.redraw(redraw, RedrawEvent::Picked { found: false }, 1),
        RedrawAction::DrawOnBlack
    );
    assert_eq!(
        idle.redraw(redraw, RedrawEvent::Loaded { ok: false }, 1),
        RedrawAction::DrawOnBlack
    );
    assert!(!idle.is_wallpaper_active());
}

#[test]
fn an_overtaken_loop_ends_without_drawing() {
    let mut idle = IdleScreenController::default();
    let old = idle.show(IdleScreen::Clock);
    let new = idle.show(IdleScreen::Clock);
    for event in [
        WOKE,
        RedrawEvent::Picked { found: true },
        RedrawEvent::Loaded { ok: false },
    ] {
        assert_eq!(idle.redraw(old, event, 1), RedrawAction::End);
    }
    assert!(idle.take_down());
    assert_eq!(idle.redraw(new, WOKE, 1), RedrawAction::End);
}

#[test]
fn hiding_takes_the_wallpaper_along() {
    let mut idle = IdleScreenController::default();
    assert!(!idle.take_down(), "nothing is shown yet");
    assert_eq!(idle.generation, 0);
    let redraw = idle.show(IdleScreen::Clock);
    idle.redraw(redraw, RedrawEvent::Loaded { ok: true }, 1);
    assert!(idle.take_down());
    assert!(!idle.is_wallpaper_active());
    assert_eq!(idle.current(), None);
}

#[test]
fn the_clock_is_drawn_on_black_or_over_a_wallpaper() {
    let black = IdleScreen::Clock.render(255, "12:34");
    assert_eq!(black[0][0], "9000");
    assert!(black[0][2].contains("\\1a&H00&"));
    assert_eq!(black[1][0], "9001");
    assert!(black[1][2].ends_with("12:34"));

    let transparent = IdleScreen::Clock.render(0, "12:34");
    assert!(transparent[1][2].contains("\\1a&HFF"));

    let over = IdleScreen::Clock.render_over_wallpaper("12:34");
    assert_eq!(over[0], vec!["9000", "none", ""]);
    assert_eq!(over[1], black[1]);

    assert_eq!(
        hide_commands(),
        vec![vec!["9000", "none", ""], vec!["9001", "none", ""]]
    );
}
