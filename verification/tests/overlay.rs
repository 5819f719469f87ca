use castoff::osd::{
    clock_ass, draw_args, outline_text, rectangle_ass, remove_args, spinner_ass, time_text, Point,
    FADE_ID,
};
use castoff::overlay::{
    clear_commands, fade_in_opacities, frame_commands, lerp_u8, Fade, Frame, PlaybackOverlay,
    FADE_STEPS,
};

fn point(x: &str, y: &str) -> Point {
    Point {
        x: x.to_string(),
        y: y.to_string(),
    }
}

/// Every opacity that a fade draws, with nothing in its way.
fn frames(fade: &mut Fade, overlay: &PlaybackOverlay) -> Vec<u8> {
    let mut drawn = Vec::new();
    while let Frame::Draw(opacity) = fade.next_frame(overlay) {
        drawn.push(opacity);
    }
    drawn
}

#[test]
fn a_fade_is_twenty_even_frames() {
    let mut overlay = PlaybackOverlay::default();
    let mut fade = overlay.conceal();
    assert!(overlay.is_active());
    let drawn = frames(&mut fade, &overlay);
    assert_eq!(drawn.len(), FADE_STEPS as usize);
    assert_eq!(drawn[0], 12);
    assert_eq!(drawn[9], 127);
    assert_eq!(drawn[19], 255);
    assert!(drawn.windows(2).all(|w| w[0] < w[1]));
    assert_eq!(fade.next_frame(&overlay), Frame::Settled);
}

#[test]
fn steps_round_towards_where_they_began() {
    assert_eq!(lerp_u8(0, 255, 1, 20), 12);
    assert_eq!(lerp_u8(255, 0, 1, 20), 243);
    assert_eq!(lerp_u8(255, 0, 20, 20), 0);
    assert_eq!(lerp_u8(100, 200, 0, 7), 100);
    assert_eq!(lerp_u8(200, 100, 3, 7), 158);
    assert_eq!(lerp_u8(9, 9, 3, 7), 9);
    assert_eq!(lerp_u8(0, 255, u32::MAX, u32::MAX), 255);
}

#[test]
fn a_fade_begins_where_the_last_one_settled() {
    let mut overlay = PlaybackOverlay::default();
    let fade = overlay.conceal();
    assert_eq!(fade.start, 0);
    overlay.settle_black(fade.generation);
    assert_eq!(overlay.opacity, 255);
    let away = overlay.uncover().unwrap();
    assert_eq!((away.start, away.end), (255, 0));
}

#[test]
fn a_superseded_fade_draws_nothing_more() {
    let mut overlay = PlaybackOverlay::default();
    let mut first = overlay.conceal();
    assert_eq!(first.next_frame(&overlay), Frame::Draw(12));
    let second = overlay.conceal();
    assert_eq!(first.next_frame(&overlay), Frame::Superseded);
    overlay.settle_black(first.generation);
    assert_eq!(overlay.opacity, 0, "a stale fade settles nothing");
    assert!(!overlay.clear_if_current(Some(first.generation)));
    assert!(overlay.is_active(), "a stale fade tears nothing down");
    assert!(overlay.clear_if_current(Some(second.generation)));
    assert!(!overlay.is_active());
}

#[test]
fn there_is_nothing_to_uncover_when_nothing_is_up() {
    let mut overlay = PlaybackOverlay::default();
    assert!(overlay.uncover().is_none());
    assert_eq!(overlay.generation, 0);
}

#[test]
fn the_spinner_turns_once_in_thirty_frames() {
    let mut overlay = PlaybackOverlay::default();
    overlay.mark_restarted();
    let mut spinner = overlay.spawn_spinner(1_000, 33);
    assert!(!overlay.is_restarted(), "a new load has not begun to render");
    assert!(overlay.may_draw(spinner.generation));
    assert_eq!(spinner.angle, 0);
    for frame in 1..=60 {
        assert_eq!(spinner.turn(&overlay), Some(12 * frame % 360));
    }
    assert_eq!(spinner.angle, 0);
    overlay.stop_spinner();
    assert_eq!(spinner.turn(&overlay), None);
    assert!(overlay.is_active(), "the black stays up");
}

#[test]
fn late_frames_are_caught_up() {
    let mut overlay = PlaybackOverlay::default();
    let mut spinner = overlay.spawn_spinner(0, 33);
    assert_eq!(spinner.wait(0), 33);
    assert_eq!(spinner.wait(40), 26);
    assert_eq!(spinner.wait(120), 0, "this frame is late");
    assert_eq!(spinner.wait(120), 12, "the next one is on time again");
}

#[test]
fn a_restart_is_known_before_the_black_has_faded() {
    let mut overlay = PlaybackOverlay::default();
    let spinner = overlay.spawn_spinner(0, 33);
    overlay.settle_black(spinner.generation);
    overlay.mark_restarted();
    assert!(overlay.uncover().is_some());
    assert!(overlay.is_active() && overlay.is_restarted());
    overlay.clear();
    assert!(!overlay.is_active());
    assert_eq!(overlay.opacity, 0);
}

#[test]
fn the_clock_fades_in_to_opaque() {
    let ramp = fade_in_opacities();
    assert_eq!(ramp.len(), 20);
    assert_eq!(ramp[0], 12);
    assert_eq!(ramp[19], 255);
}

#[test]
fn the_rectangle_covers_the_canvas() {
    assert_eq!(
        rectangle_ass(255),
        "{\\an7\\pos(0,0)\\1c&H000000&\\1a&H00&\\bord0\\shad0\\p1}m 0 0 l 1920 0 l 1920 1080 l 0 1080{\\p0}"
    );
    assert!(rectangle_ass(0).contains("\\1a&HFF&"));
    assert!(rectangle_ass(12).contains("\\1a&HF3&"));
}

#[test]
fn the_clock_is_centred() {
    assert_eq!(
        clock_ass(255, "09:05"),
        "{\\an5\\pos(960,540)\\1c&HFFFFFF&\\1a&H00\\fs356\\bord0\\shad0}09:05"
    );
    assert_eq!(time_text(9, 5), "09:05");
    assert_eq!(time_text(23, 59), "23:59");
    assert_eq!(time_text(0, 0), "00:00");
}

#[test]
fn the_spinner_is_drawn_through_its_points() {
    let arc = vec![point("110.0", "0.0"), point("1.5", "-2.5"), point("0", "0")];
    assert_eq!(outline_text(&arc), "m 110.0 0.0 l 1.5 -2.5 l 0 0");
    assert_eq!(outline_text(&vec![]), "");
    assert_eq!(
        spinner_ass(348, &arc),
        "{\\an7\\pos(960,540)\\org(960,540)\\frz348\\1c&HFFFFFF&\\1a&H00&\\bord0\\shad0\\p1}m 110.0 0.0 l 1.5 -2.5 l 0 0{\\p0}"
    );
}

#[test]
fn overlays_are_drawn_and_removed_by_id() {
    assert_eq!(
        draw_args(FADE_ID, "x"),
        vec!["9100", "ass-events", "x", "1920", "1080"]
    );
    assert_eq!(remove_args(9101), vec!["9101", "none", ""]);
    let frame = frame_commands(255, Some(0), &vec![]);
    assert_eq!(frame[0][0], "9100");
    assert_eq!(frame[1][1], "ass-events");
    let frame = frame_commands(0, None, &vec![]);
    assert_eq!(frame[1], vec!["9101", "none", ""]);
    assert_eq!(
        clear_commands(),
        vec![vec!["9100", "none", ""], vec!["9101", "none", ""]]
    );
}
