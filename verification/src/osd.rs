//! Drawing on the player's on-screen display: ASS events for the black
//! rectangle, the clock and the spinner, and the arguments of the
//! `osd-overlay` command that puts an event up or takes it down.
//!
//! Everything is drawn on a virtual canvas that the player scales to the real
//! output.

use vstd::prelude::*;
use vstd::string::*;

use crate::text;

verus! {

/// Size of the virtual canvas.
pub const CANVAS_WIDTH: u32 = 1920;

pub const CANVAS_HEIGHT: u32 = 1080;

/// Font size of the clock, about a third of the canvas height.
pub const CLOCK_FONT_SIZE: u32 = 356;

/// Overlay of the idle screen's background.
pub const IDLE_BACKGROUND_ID: u32 = 9000;

/// Overlay of the idle screen's content.
pub const IDLE_FOREGROUND_ID: u32 = 9001;

/// Overlay of the fade rectangle.
pub const FADE_ID: u32 = 9100;

/// Overlay of the loading spinner.
pub const SPINNER_ID: u32 = 9101;

/// The text of a canvas width.
pub open spec fn width() -> Seq<char> {
    text::decimal(CANVAS_WIDTH as nat)
}

/// The text of a canvas height.
pub open spec fn height() -> Seq<char> {
    text::decimal(CANVAS_HEIGHT as nat)
}

/// ASS alpha for an opacity: inverted, so 00 is opaque and FF transparent.
pub open spec fn alpha(opacity: u8) -> Seq<char> {
    text::hex_pair((255 - opacity) as u8)
}

/// The ASS event for a black rectangle over the whole canvas.
pub open spec fn rectangle_event(opacity: u8) -> Seq<char> {
    "{\\an7\\pos(0,0)\\1c&H000000&\\1a&H"@ + alpha(opacity)
        + "&\\bord0\\shad0\\p1}m 0 0 l "@ + width() + " 0 l "@ + width() + " "@ + height()
        + " l 0 "@ + height() + "{\\p0}"@
}

/// The ASS event for `time`, centred on the canvas.
pub open spec fn clock_event(opacity: u8, time: Seq<char>) -> Seq<char> {
    "{\\an5\\pos("@ + text::decimal((CANVAS_WIDTH / 2) as nat) + ","@ + text::decimal(
        (CANVAS_HEIGHT / 2) as nat,
    ) + ")\\1c&HFFFFFF&\\1a&H"@ + alpha(opacity) + "\\fs"@ + text::decimal(CLOCK_FONT_SIZE as nat)
        + "\\bord0\\shad0}"@ + time
}

/// A point of a drawing, as the texts of its two coordinates.
pub struct Point {
    pub x: String,
    pub y: String,
}

/// The ASS drawing that runs through `points`: a move to the first and a line
/// to each of the others.
pub open spec fn outline(points: Seq<Point>) -> Seq<char>
    decreases points.len(),
{
    if points.len() == 0 {
        Seq::empty()
    } else {
        let p = points.last();
        outline(points.drop_last()) + (if points.len() == 1 {
            "m "@
        } else {
            " l "@
        }) + p.x@ + " "@ + p.y@
    }
}

/// The ASS event for the drawing `path`, turned by `angle` degrees about the
/// centre of the canvas.
pub open spec fn spinner_event(angle: nat, path: Seq<char>) -> Seq<char> {
    "{\\an7\\pos("@ + text::decimal((CANVAS_WIDTH / 2) as nat) + ","@ + text::decimal(
        (CANVAS_HEIGHT / 2) as nat,
    ) + ")\\org("@ + text::decimal((CANVAS_WIDTH / 2) as nat) + ","@ + text::decimal(
        (CANVAS_HEIGHT / 2) as nat,
    ) + ")\\frz"@ + text::decimal(angle) + "\\1c&HFFFFFF&\\1a&H00&\\bord0\\shad0\\p1}"@ + path
        + "{\\p0}"@
}

/// The arguments that put the ASS event `ass` up as overlay `id`.
pub open spec fn draw_arguments(id: u32, ass: Seq<char>) -> Seq<Seq<char>> {
    seq![text::decimal(id as nat), "ass-events"@, ass, width(), height()]
}

/// The arguments that take overlay `id` down.
pub open spec fn remove_arguments(id: u32) -> Seq<Seq<char>> {
    seq![text::decimal(id as nat), "none"@, ""@]
}

/// A black rectangle over the whole canvas, from transparent (0) to opaque
/// (255).
pub fn rectangle_ass(opacity: u8) -> (r: String)
    ensures
        r@ == rectangle_event(opacity),
{
    let w: String = text::decimal_text(CANVAS_WIDTH as u128);
    let h: String = text::decimal_text(CANVAS_HEIGHT as u128);
    let mut r: String = "{\\an7\\pos(0,0)\\1c&H000000&\\1a&H".to_string();
    r.append(text::hex_pair_text(255 - opacity).as_str());
    r.append("&\\bord0\\shad0\\p1}m 0 0 l ");
    r.append(w.as_str());
    r.append(" 0 l ");
    r.append(w.as_str());
    r.append(" ");
    r.append(h.as_str());
    r.append(" l 0 ");
    r.append(h.as_str());
    r.append("{\\p0}");
    r
}

/// The clock, centred on the canvas.
pub fn clock_ass(opacity: u8, time: &str) -> (r: String)
    ensures
        r@ == clock_event(opacity, time@),
{
    let mut r: String = "{\\an5\\pos(".to_string();
    r.append(text::decimal_text((CANVAS_WIDTH / 2) as u128).as_str());
    r.append(",");
    r.append(text::decimal_text((CANVAS_HEIGHT / 2) as u128).as_str());
    r.append(")\\1c&HFFFFFF&\\1a&H");
    r.append(text::hex_pair_text(255 - opacity).as_str());
    r.append("\\fs");
    r.append(text::decimal_text(CLOCK_FONT_SIZE as u128).as_str());
    r.append("\\bord0\\shad0}");
    r.append(time);
    r
}

/// The drawing that runs through `points`.
pub fn outline_text(points: &Vec<Point>) -> (r: String)
    ensures
        r@ == outline(points@),
{
    let mut r: String = String::new();
    let mut i: usize = 0;
    while i < points.len()
        invariant
            i <= points.len(),
            r@ == outline(points@.take(i as int)),
        decreases points.len() - i,
    {
        assert(points@.take(i + 1).drop_last() =~= points@.take(i as int));
        if i == 0 {
            r.append("m ");
        } else {
            r.append(" l ");
        }
        r.append(points[i].x.as_str());
        r.append(" ");
        r.append(points[i].y.as_str());
        i = i + 1;
    }
    assert(points@.take(points.len() as int) =~= points@);
    r
}

/// The spinner's arc, turned by `angle` degrees. The drawing's coordinates are
/// relative to the centre of the canvas, which is also the pivot.
pub fn spinner_ass(angle: u32, points: &Vec<Point>) -> (r: String)
    ensures
        r@ == spinner_event(angle as nat, outline(points@)),
{
    let cx: String = text::decimal_text((CANVAS_WIDTH / 2) as u128);
    let cy: String = text::decimal_text((CANVAS_HEIGHT / 2) as u128);
    let mut r: String = "{\\an7\\pos(".to_string();
    r.append(cx.as_str());
    r.append(",");
    r.append(cy.as_str());
    r.append(")\\org(");
    r.append(cx.as_str());
    r.append(",");
    r.append(cy.as_str());
    r.append(")\\frz");
    r.append(text::decimal_text(angle as u128).as_str());
    r.append("\\1c&HFFFFFF&\\1a&H00&\\bord0\\shad0\\p1}");
    r.append(outline_text(points).as_str());
    r.append("{\\p0}");
    r
}

/// `osd-overlay` arguments that draw `ass` as overlay `id`.
pub fn draw_args(id: u32, ass: &str) -> (r: Vec<String>)
    ensures
        text::texts(r@) == draw_arguments(id, ass@),
{
    let mut r: Vec<String> = Vec::new();
    r.push(text::decimal_text(id as u128));
    r.push("ass-events".to_string());
    r.push(ass.to_string());
    r.push(text::decimal_text(CANVAS_WIDTH as u128));
    r.push(text::decimal_text(CANVAS_HEIGHT as u128));
    assert(text::texts(r@) =~= draw_arguments(id, ass@));
    r
}

/// `osd-overlay` arguments that remove overlay `id` outright, rather than
/// replacing it with empty content.
pub fn remove_args(id: u32) -> (r: Vec<String>)
    ensures
        text::texts(r@) == remove_arguments(id),
{
    let mut r: Vec<String> = Vec::new();
    r.push(text::decimal_text(id as u128));
    r.push("none".to_string());
    r.push("".to_string());
    assert(text::texts(r@) =~= remove_arguments(id));
    r
}

/// The time of day as the clock shows it.
pub open spec fn time_of_day(hour: nat, minute: nat) -> Seq<char> {
    text::two_digits(hour) + ":"@ + text::two_digits(minute)
}

/// `HH:MM`.
pub fn time_text(hour: u32, minute: u32) -> (r: String)
    ensures
        r@ == time_of_day(hour as nat, minute as nat),
{
    let mut r: String = text::two_digit_text(hour);
    r.append(":");
    r.append(text::two_digit_text(minute).as_str());
    r
}

// ---------------------------------------------------------------------------
// Laws
// ---------------------------------------------------------------------------

/// Everything is drawn on a canvas of 1920 by 1080.
pub proof fn lemma_the_canvas()
    ensures
        width() == "1920"@,
        height() == "1080"@,
        text::decimal((CANVAS_WIDTH / 2) as nat) == "960"@,
        text::decimal((CANVAS_HEIGHT / 2) as nat) == "540"@,
        text::decimal(CLOCK_FONT_SIZE as nat) == "356"@,
{
    reveal_strlit("1920");
    reveal_strlit("1080");
    reveal_strlit("960");
    reveal_strlit("540");
    reveal_strlit("356");
    reveal_with_fuel(text::numeral, 5);
    assert(width() =~= "1920"@);
    assert(height() =~= "1080"@);
    assert(text::decimal(960) =~= "960"@);
    assert(text::decimal(540) =~= "540"@);
    assert(text::decimal(35) =~= seq!['3', '5']);
    assert(text::decimal(356) =~= seq!['3', '5', '6']);
    assert(seq!['3', '5', '6'] =~= "356"@);
}

/// The four layers are four overlays.
pub proof fn lemma_the_layers()
    ensures
        IDLE_BACKGROUND_ID == 9000,
        IDLE_FOREGROUND_ID == 9001,
        FADE_ID == 9100,
        SPINNER_ID == 9101,
{
}

/// The more opaque something is, the lower is its alpha: opaque is `00`,
/// transparent is `FF`, and in between the two digits are what is lacking to
/// opaque, sixteens first.
pub proof fn lemma_alpha_is_what_is_lacking(opacity: u8, high: nat, low: nat)
    requires
        high < 16,
        low < 16,
        opacity + 16 * high + low == 255,
    ensures
        alpha(opacity) == seq![text::upper_hex_digit(high), text::upper_hex_digit(low)],
{
    text::lemma_what_a_hex_pair_is((255 - opacity) as u8, high, low);
}

/// The rectangle is black and covers the canvas from corner to corner; only its
/// alpha depends on the opacity.
pub proof fn lemma_the_rectangle_covers_the_canvas(opacity: u8)
    ensures
        rectangle_event(opacity) == "{\\an7\\pos(0,0)\\1c&H000000&\\1a&H"@ + alpha(opacity)
            + "&\\bord0\\shad0\\p1}m 0 0 l "@ + "1920"@ + " 0 l "@ + "1920"@ + " "@ + "1080"@
            + " l 0 "@ + "1080"@ + "{\\p0}"@,
{
    lemma_the_canvas();
}

/// The clock is the time in white, in the middle of the canvas.
pub proof fn lemma_the_clock_is_in_the_middle(opacity: u8, time: Seq<char>)
    ensures
        clock_event(opacity, time) == "{\\an5\\pos("@ + "960"@ + ","@ + "540"@
            + ")\\1c&HFFFFFF&\\1a&H"@ + alpha(opacity) + "\\fs"@ + "356"@ + "\\bord0\\shad0}"@
            + time,
{
    lemma_the_canvas();
}

/// The spinner is its drawing in white, turned by its angle about the middle of
/// the canvas.
pub proof fn lemma_the_spinner_turns_about_the_middle(angle: nat, path: Seq<char>)
    ensures
        spinner_event(angle, path) == "{\\an7\\pos("@ + "960"@ + ","@ + "540"@ + ")\\org("@
            + "960"@ + ","@ + "540"@ + ")\\frz"@ + text::decimal(angle)
            + "\\1c&HFFFFFF&\\1a&H00&\\bord0\\shad0\\p1}"@ + path + "{\\p0}"@,
{
    lemma_the_canvas();
}

/// A drawing begins at its first point and runs by a line to each of the
/// others, in their order.
pub proof fn lemma_how_a_drawing_runs(points: Seq<Point>, p: Point)
    ensures
        outline(Seq::empty()).len() == 0,
        outline(seq![p]) == "m "@ + p.x@ + " "@ + p.y@,
        points.len() > 0 ==> outline(points.push(p)) == outline(points) + " l "@ + p.x@ + " "@
            + p.y@,
{
    assert(seq![p].drop_last() =~= Seq::<Point>::empty());
    assert(outline(Seq::<Point>::empty()) + "m "@ =~= "m "@);
    assert(points.push(p).drop_last() =~= points);
}

/// A layer is drawn by its own id on the canvas, and removed by its own id.
pub proof fn lemma_how_layers_are_drawn_and_removed(id: u32, ass: Seq<char>)
    ensures
        draw_arguments(id, ass) == seq![
            text::decimal(id as nat),
            "ass-events"@,
            ass,
            "1920"@,
            "1080"@,
        ],
        remove_arguments(id) == seq![text::decimal(id as nat), "none"@, ""@],
{
    lemma_the_canvas();
}

/// The time of day is the hour and the minute, each in two digits, with a colon
/// between them.
pub proof fn lemma_how_the_time_is_shown(hour: nat, minute: nat)
    requires
        hour < 100,
        minute < 100,
    ensures
        time_of_day(hour, minute) == seq![
            text::digit(hour / 10),
            text::digit(hour % 10),
            ':',
            text::digit(minute / 10),
            text::digit(minute % 10),
        ],
{
    reveal_strlit(":");
    text::lemma_what_two_digits_are(hour);
    text::lemma_what_two_digits_are(minute);
    assert(time_of_day(hour, minute) =~= seq![
        text::digit(hour / 10),
        text::digit(hour % 10),
        ':',
        text::digit(minute / 10),
        text::digit(minute % 10),
    ]);
}

} // verus!
