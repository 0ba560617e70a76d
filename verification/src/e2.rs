//! Ultrasonic parking assistant: distance filtering, alert bands, buzzer
//! cadence and the dashboard drawn on the OLED frame buffer.
use vstd::prelude::*;

use crate::sr04::{spec_distance_cm, Sr04Error, Sr04Reading};
use crate::ssd1315::{
    lemma_paints_compose, lemma_paints_same_region, on_screen, paints, point_region,
    union_region, FrameBuffer, Region,
};

verus! {

/// Pixels `(px, y)` with `x0 <= px <= x1`.
pub open spec fn hspan(x0: int, x1: int, y: int) -> Region {
    |px: int, py: int| py == y && x0 <= px <= x1
}

/// Pixels `(x, py)` with `y0 <= py <= y1`.
pub open spec fn vspan(x: int, y0: int, y1: int) -> Region {
    |px: int, py: int| px == x && y0 <= py <= y1
}

pub open spec fn min_int(a: int, b: int) -> int {
    if a < b { a } else { b }
}

pub open spec fn max_int(a: int, b: int) -> int {
    if a < b { b } else { a }
}

/// The solid `w` by `h` rectangle whose top-left pixel is `(x, y)`; empty
/// when either side is not positive.
pub open spec fn rect_fill_region(x: int, y: int, w: int, h: int) -> Region {
    |px: int, py: int| w > 0 && h > 0 && x <= px < x + w && y <= py < y + h
}

/// The one-pixel outline of that rectangle.
pub open spec fn rect_outline_region(x: int, y: int, w: int, h: int) -> Region {
    |px: int, py: int|
        w > 0 && h > 0 && (((py == y || py == y + h - 1) && x <= px <= x + w - 1) || ((px == x
            || px == x + w - 1) && y <= py <= y + h - 1))
}

/// Sets pixel `(x, y)` to `on`; negative coordinates are off the screen.
pub fn set_pixel(oled: &mut FrameBuffer, x: i16, y: i16, on: bool)
    ensures
        paints(*old(oled), *final(oled), point_region(x as int, y as int), on),
{
    if x < 0 || y < 0 {
        return;
    }
    oled.set_pixel(x as usize, y as usize, on);
}

/// Sets the pixels of row `y` between columns `x0` and `x1`, inclusive, in
/// either order.
pub fn draw_hline(oled: &mut FrameBuffer, x0: i16, x1: i16, y: i16, on: bool)
    ensures
        paints(
            *old(oled),
            *final(oled),
            hspan(min_int(x0 as int, x1 as int), max_int(x0 as int, x1 as int), y as int),
            on,
        ),
{
    let start = if x0 < x1 { x0 } else { x1 };
    let end = if x0 < x1 { x1 } else { x0 };
    let ghost before = *oled;
    let mut x: i32 = start as i32;
    while x <= end as i32
        invariant
            start <= x <= end + 1,
            paints(before, *oled, hspan(start as int, x - 1, y as int), on),
        decreases end + 1 - x,
    {
        let ghost mid = *oled;
        set_pixel(oled, x as i16, y, on);
        proof {
            lemma_paints_compose(
                before,
                mid,
                *oled,
                hspan(start as int, x - 1, y as int),
                point_region(x as int, y as int),
                on,
            );
            lemma_paints_same_region(
                before,
                *oled,
                union_region(hspan(start as int, x - 1, y as int), point_region(x as int, y as int)),
                hspan(start as int, x as int, y as int),
                on,
            );
        }
        x = x + 1;
    }
}

/// Sets the pixels of column `x` between rows `y0` and `y1`, inclusive, in
/// either order.
pub fn draw_vline(oled: &mut FrameBuffer, x: i16, y0: i16, y1: i16, on: bool)
    ensures
        paints(
            *old(oled),
            *final(oled),
            vspan(x as int, min_int(y0 as int, y1 as int), max_int(y0 as int, y1 as int)),
            on,
        ),
{
    let start = if y0 < y1 { y0 } else { y1 };
    let end = if y0 < y1 { y1 } else { y0 };
    let ghost before = *oled;
    let mut y: i32 = start as i32;
    while y <= end as i32
        invariant
            start <= y <= end + 1,
            paints(before, *oled, vspan(x as int, start as int, y - 1), on),
        decreases end + 1 - y,
    {
        let ghost mid = *oled;
        set_pixel(oled, x, y as i16, on);
        proof {
            lemma_paints_compose(
                before,
                mid,
                *oled,
                vspan(x as int, start as int, y - 1),
                point_region(x as int, y as int),
                on,
            );
            lemma_paints_same_region(
                before,
                *oled,
                union_region(vspan(x as int, start as int, y - 1), point_region(x as int, y as int)),
                vspan(x as int, start as int, y as int),
                on,
            );
        }
        y = y + 1;
    }
}

/// Draws the outline of the `w` by `h` rectangle at `(x, y)`; nothing when
/// a side is not positive.
pub fn draw_rect(oled: &mut FrameBuffer, x: i16, y: i16, w: i16, h: i16, on: bool)
    requires
        w > 0 && h > 0 ==> x + w <= i16::MAX && y + h <= i16::MAX,
    ensures
        paints(*old(oled), *final(oled), rect_outline_region(x as int, y as int, w as int, h as int), on),
{
    let ghost before = *oled;
    if w <= 0 || h <= 0 {
        return;
    }
    let ghost s0 = *oled;
    draw_hline(oled, x, x + w - 1, y, on);
    let ghost s1 = *oled;
    draw_hline(oled, x, x + w - 1, y + h - 1, on);
    let ghost s2 = *oled;
    draw_vline(oled, x, y, y + h - 1, on);
    let ghost s3 = *oled;
    draw_vline(oled, x + w - 1, y, y + h - 1, on);
    proof {
        let xi = x as int;
        let yi = y as int;
        let r1 = hspan(xi, xi + w - 1, yi);
        let r2 = hspan(xi, xi + w - 1, yi + h - 1);
        let r3 = vspan(xi, yi, yi + h - 1);
        let r4 = vspan(xi + w - 1, yi, yi + h - 1);
        lemma_paints_same_region(s0, s1, hspan(min_int(xi, xi + w - 1), max_int(xi, xi + w - 1), yi), r1, on);
        lemma_paints_same_region(s1, s2, hspan(min_int(xi, xi + w - 1), max_int(xi, xi + w - 1), yi + h - 1), r2, on);
        lemma_paints_same_region(s2, s3, vspan(xi, min_int(yi, yi + h - 1), max_int(yi, yi + h - 1)), r3, on);
        lemma_paints_same_region(s3, *oled, vspan(xi + w - 1, min_int(yi, yi + h - 1), max_int(yi, yi + h - 1)), r4, on);
        lemma_paints_compose(s0, s1, s2, r1, r2, on);
        lemma_paints_compose(s0, s2, s3, union_region(r1, r2), r3, on);
        lemma_paints_compose(s0, s3, *oled, union_region(union_region(r1, r2), r3), r4, on);
        lemma_paints_same_region(
            s0,
            *oled,
            union_region(union_region(union_region(r1, r2), r3), r4),
            rect_outline_region(xi, yi, w as int, h as int),
            on,
        );
    }
}

/// Fills the `w` by `h` rectangle at `(x, y)`; nothing when a side is not
/// positive.
pub fn fill_rect(oled: &mut FrameBuffer, x: i16, y: i16, w: i16, h: i16, on: bool)
    requires
        w > 0 && h > 0 ==> x + w <= i16::MAX && y + h <= i16::MAX,
    ensures
        paints(*old(oled), *final(oled), rect_fill_region(x as int, y as int, w as int, h as int), on),
{
    if w <= 0 || h <= 0 {
        return;
    }
    let ghost before = *oled;
    let mut yy: i16 = y;
    while yy < y + h
        invariant
            w > 0,
            h > 0,
            x + w <= i16::MAX,
            y + h <= i16::MAX,
            y <= yy <= y + h,
            paints(before, *oled, rect_fill_region(x as int, y as int, w as int, yy - y), on),
        decreases y + h - yy,
    {
        let ghost mid = *oled;
        draw_hline(oled, x, x + w - 1, yy, on);
        proof {
            let r0 = rect_fill_region(x as int, y as int, w as int, yy - y);
            let r1 = hspan(min_int(x as int, x + w - 1), max_int(x as int, x + w - 1), yy as int);
            lemma_paints_compose(before, mid, *oled, r0, r1, on);
            lemma_paints_same_region(
                before,
                *oled,
                union_region(r0, r1),
                rect_fill_region(x as int, y as int, w as int, yy + 1 - y),
                on,
            );
        }
        yy = yy + 1;
    }
}

} // verus!

verus! {

pub const SEGMENT_A: u8 = 1;
pub const SEGMENT_B: u8 = 2;
pub const SEGMENT_C: u8 = 4;
pub const SEGMENT_D: u8 = 8;
pub const SEGMENT_E: u8 = 16;
pub const SEGMENT_F: u8 = 32;
pub const SEGMENT_G: u8 = 64;

pub const DIGIT_WIDTH: i16 = 11;
pub const DIGIT_HEIGHT: i16 = 21;
pub const DIGIT_THICKNESS: i16 = 2;

/// The segments that spell decimal digit `digit` on a seven-segment display.
pub open spec fn spec_digit_segments(digit: int) -> u8 {
    if digit == 0 {
        SEGMENT_A | SEGMENT_B | SEGMENT_C | SEGMENT_D | SEGMENT_E | SEGMENT_F
    } else if digit == 1 {
        SEGMENT_B | SEGMENT_C
    } else if digit == 2 {
        SEGMENT_A | SEGMENT_B | SEGMENT_D | SEGMENT_E | SEGMENT_G
    } else if digit == 3 {
        SEGMENT_A | SEGMENT_B | SEGMENT_C | SEGMENT_D | SEGMENT_G
    } else if digit == 4 {
        SEGMENT_B | SEGMENT_C | SEGMENT_F | SEGMENT_G
    } else if digit == 5 {
        SEGMENT_A | SEGMENT_C | SEGMENT_D | SEGMENT_F | SEGMENT_G
    } else if digit == 6 {
        SEGMENT_A | SEGMENT_C | SEGMENT_D | SEGMENT_E | SEGMENT_F | SEGMENT_G
    } else if digit == 7 {
        SEGMENT_A | SEGMENT_B | SEGMENT_C
    } else if digit == 8 {
        SEGMENT_A | SEGMENT_B | SEGMENT_C | SEGMENT_D | SEGMENT_E | SEGMENT_F | SEGMENT_G
    } else {
        SEGMENT_A | SEGMENT_B | SEGMENT_C | SEGMENT_D | SEGMENT_F | SEGMENT_G
    }
}

/// Segment mask of a decimal digit.
pub fn digit_segments(digit: u8) -> (r: u8)
    requires
        digit < 10,
    ensures
        r == spec_digit_segments(digit as int),
{
    match digit {
        0 => SEGMENT_A | SEGMENT_B | SEGMENT_C | SEGMENT_D | SEGMENT_E | SEGMENT_F,
        1 => SEGMENT_B | SEGMENT_C,
        2 => SEGMENT_A | SEGMENT_B | SEGMENT_D | SEGMENT_E | SEGMENT_G,
        3 => SEGMENT_A | SEGMENT_B | SEGMENT_C | SEGMENT_D | SEGMENT_G,
        4 => SEGMENT_B | SEGMENT_C | SEGMENT_F | SEGMENT_G,
        5 => SEGMENT_A | SEGMENT_C | SEGMENT_D | SEGMENT_F | SEGMENT_G,
        6 => SEGMENT_A | SEGMENT_C | SEGMENT_D | SEGMENT_E | SEGMENT_F | SEGMENT_G,
        7 => SEGMENT_A | SEGMENT_B | SEGMENT_C,
        8 => SEGMENT_A | SEGMENT_B | SEGMENT_C | SEGMENT_D | SEGMENT_E | SEGMENT_F | SEGMENT_G,
        _ => SEGMENT_A | SEGMENT_B | SEGMENT_C | SEGMENT_D | SEGMENT_F | SEGMENT_G,
    }
}

/// Pixels lit by the segments in `segments` of an 11x21 digit whose
/// top-left corner is `(x, y)`, with strokes two pixels thick.
pub open spec fn seven_segment_region(x: int, y: int, segments: u8) -> Region {
    |px: int, py: int|
        ((segments & SEGMENT_A) != 0 && rect_fill_region(x + 2, y, 7, 2)(px, py)) || ((segments
            & SEGMENT_B) != 0 && rect_fill_region(x + 9, y + 2, 2, 8)(px, py)) || ((segments
            & SEGMENT_C) != 0 && rect_fill_region(x + 9, y + 10, 2, 8)(px, py)) || ((segments
            & SEGMENT_D) != 0 && rect_fill_region(x + 2, y + 19, 7, 2)(px, py)) || ((segments
            & SEGMENT_E) != 0 && rect_fill_region(x, y + 10, 2, 8)(px, py)) || ((segments
            & SEGMENT_F) != 0 && rect_fill_region(x, y + 2, 2, 8)(px, py)) || ((segments
            & SEGMENT_G) != 0 && rect_fill_region(x + 2, y + 9, 7, 2)(px, py))
}

/// Where a seven-segment pattern at `(x, y)` can be drawn without the
/// coordinates leaving the `i16` range.
pub open spec fn seven_segment_fits(x: int, y: int) -> bool {
    x + DIGIT_WIDTH <= i16::MAX && y + DIGIT_HEIGHT <= i16::MAX
}

/// Lights the segments of `segments` for a digit at `(x, y)`.
pub fn draw_seven_segment_pattern(oled: &mut FrameBuffer, x: i16, y: i16, segments: u8)
    requires
        seven_segment_fits(x as int, y as int),
    ensures
        paints(*old(oled), *final(oled), seven_segment_region(x as int, y as int, segments), true),
{
    let ghost start = *oled;
    let ghost mut drawn: Region = |px: int, py: int| false;
    let mid_y = y + DIGIT_HEIGHT / 2;
    let bottom_y = y + DIGIT_HEIGHT - DIGIT_THICKNESS;
    let right_x = x + DIGIT_WIDTH - DIGIT_THICKNESS;
    let lower_height = DIGIT_HEIGHT / 2 - DIGIT_THICKNESS;
    let ghost xi = x as int;
    let ghost yi = y as int;

    if segments & SEGMENT_A != 0 {
        let ghost mid = *oled;
        fill_rect(oled, x + DIGIT_THICKNESS, y, DIGIT_WIDTH - DIGIT_THICKNESS * 2, DIGIT_THICKNESS, true);
        proof {
            lemma_paints_compose(start, mid, *oled, drawn, rect_fill_region(xi + 2, yi, 7, 2), true);
            drawn = union_region(drawn, rect_fill_region(xi + 2, yi, 7, 2));
        }
    }
    if segments & SEGMENT_B != 0 {
        let ghost mid = *oled;
        fill_rect(oled, right_x, y + DIGIT_THICKNESS, DIGIT_THICKNESS, lower_height, true);
        proof {
            lemma_paints_compose(start, mid, *oled, drawn, rect_fill_region(xi + 9, yi + 2, 2, 8), true);
            drawn = union_region(drawn, rect_fill_region(xi + 9, yi + 2, 2, 8));
        }
    }
    if segments & SEGMENT_C != 0 {
        let ghost mid = *oled;
        fill_rect(oled, right_x, mid_y, DIGIT_THICKNESS, lower_height, true);
        proof {
            lemma_paints_compose(start, mid, *oled, drawn, rect_fill_region(xi + 9, yi + 10, 2, 8), true);
            drawn = union_region(drawn, rect_fill_region(xi + 9, yi + 10, 2, 8));
        }
    }
    if segments & SEGMENT_D != 0 {
        let ghost mid = *oled;
        fill_rect(oled, x + DIGIT_THICKNESS, bottom_y, DIGIT_WIDTH - DIGIT_THICKNESS * 2, DIGIT_THICKNESS, true);
        proof {
            lemma_paints_compose(start, mid, *oled, drawn, rect_fill_region(xi + 2, yi + 19, 7, 2), true);
            drawn = union_region(drawn, rect_fill_region(xi + 2, yi + 19, 7, 2));
        }
    }
    if segments & SEGMENT_E != 0 {
        let ghost mid = *oled;
        fill_rect(oled, x, mid_y, DIGIT_THICKNESS, lower_height, true);
        proof {
            lemma_paints_compose(start, mid, *oled, drawn, rect_fill_region(xi, yi + 10, 2, 8), true);
            drawn = union_region(drawn, rect_fill_region(xi, yi + 10, 2, 8));
        }
    }
    if segments & SEGMENT_F != 0 {
        let ghost mid = *oled;
        fill_rect(oled, x, y + DIGIT_THICKNESS, DIGIT_THICKNESS, lower_height, true);
        proof {
            lemma_paints_compose(start, mid, *oled, drawn, rect_fill_region(xi, yi + 2, 2, 8), true);
            drawn = union_region(drawn, rect_fill_region(xi, yi + 2, 2, 8));
        }
    }
    if segments & SEGMENT_G != 0 {
        let ghost mid = *oled;
        fill_rect(oled, x + DIGIT_THICKNESS, mid_y - DIGIT_THICKNESS / 2, DIGIT_WIDTH - DIGIT_THICKNESS * 2, DIGIT_THICKNESS, true);
        proof {
            lemma_paints_compose(start, mid, *oled, drawn, rect_fill_region(xi + 2, yi + 9, 7, 2), true);
            drawn = union_region(drawn, rect_fill_region(xi + 2, yi + 9, 7, 2));
        }
    }
    proof {
        lemma_paints_same_region(start, *oled, drawn, seven_segment_region(xi, yi, segments), true);
    }
}

/// Draws decimal digit `digit` at `(x, y)`.
pub fn draw_seven_segment_digit(oled: &mut FrameBuffer, x: i16, y: i16, digit: u8)
    requires
        digit < 10,
        seven_segment_fits(x as int, y as int),
    ensures
        paints(
            *old(oled),
            *final(oled),
            seven_segment_region(x as int, y as int, spec_digit_segments(digit as int)),
            true,
        ),
{
    let segments = digit_segments(digit);
    draw_seven_segment_pattern(oled, x, y, segments);
}

/// Draws the dash (middle segment only) shown in place of a missing digit.
pub fn draw_seven_segment_dash(oled: &mut FrameBuffer, x: i16, y: i16)
    requires
        seven_segment_fits(x as int, y as int),
    ensures
        paints(*old(oled), *final(oled), seven_segment_region(x as int, y as int, SEGMENT_G), true),
{
    draw_seven_segment_pattern(oled, x, y, SEGMENT_G);
}

} // verus!

verus! {

/// A point on the display, in pixels.
#[derive(Copy, Clone)]
pub struct Point {
    pub x: i16,
    pub y: i16,
}

/// `|value|`; the caller keeps `value` above `i16::MIN`.
pub fn abs_i16(value: i16) -> (r: i16)
    requires
        value > i16::MIN,
    ensures
        r as int == if value < 0 { -(value as int) } else { value as int },
{
    if value < 0 {
        -value
    } else {
        value
    }
}

pub open spec fn abs_int(v: int) -> int {
    if v < 0 { -v } else { v }
}

/// Direction of travel from `a` to `b` along one axis, as the line walk
/// takes it: `+1` when `a < b`, `-1` otherwise.
pub open spec fn walk_sign(a: int, b: int) -> int {
    if a < b { 1 } else { -1 }
}

/// One step of the error-driven line walk over a span of `ax` columns and
/// `ay` rows. The state is `(columns moved, rows moved, error)`.
pub open spec fn line_step(ax: int, ay: int, s: (int, int, int)) -> (int, int, int) {
    let e2 = 2 * s.2;
    let i1 = if e2 >= -ay { s.0 + 1 } else { s.0 };
    let e1 = if e2 >= -ay { s.2 - ay } else { s.2 };
    if e2 <= ax {
        (i1, s.1 + 1, e1 + ax)
    } else {
        (i1, s.1, e1)
    }
}

/// The walk has reached the far end of the line.
pub open spec fn line_done(ax: int, ay: int, s: (int, int, int)) -> bool {
    s.0 == ax && s.1 == ay
}

/// State of the line walk after `k` steps; it stays put once it has
/// reached the far end.
pub open spec fn line_walk(ax: int, ay: int, k: nat) -> (int, int, int)
    decreases k,
{
    if k == 0 {
        (0, 0, ax - ay)
    } else {
        let s = line_walk(ax, ay, (k - 1) as nat);
        if line_done(ax, ay, s) {
            s
        } else {
            line_step(ax, ay, s)
        }
    }
}

/// The pixel visited at step `k` of the line from `from` to `to`.
pub open spec fn line_point(from: Point, to: Point, k: nat) -> (int, int) {
    let ax = abs_int(to.x - from.x);
    let ay = abs_int(to.y - from.y);
    let s = line_walk(ax, ay, k);
    (from.x + walk_sign(from.x as int, to.x as int) * s.0, from.y + walk_sign(from.y as int, to.y as int) * s.1)
}

/// Step `k` falls in the "on" part of a dash pattern of `dash_on` lit
/// pixels followed by `dash_off` dark ones (a zero-length pattern is solid).
pub open spec fn dash_visible(k: int, dash_on: int, dash_off: int) -> bool {
    dash_on + dash_off == 0 || k % (dash_on + dash_off) < dash_on
}

/// Step `k` of the line is walked (the far end was not reached before it),
/// lands on `(px, py)` and falls in a dash.
pub open spec fn line_visits(from: Point, to: Point, dash_on: int, dash_off: int, k: nat, px: int, py: int) -> bool {
    let ax = abs_int(to.x - from.x);
    let ay = abs_int(to.y - from.y);
    &&& (k == 0 || !line_done(ax, ay, line_walk(ax, ay, (k - 1) as nat)))
    &&& line_point(from, to, k) == (px, py)
    &&& dash_visible(k as int, dash_on, dash_off)
}

/// The lit pixels of a dashed line from `from` to `to`.
pub open spec fn dashed_line_region(from: Point, to: Point, dash_on: int, dash_off: int) -> Region {
    |px: int, py: int| exists|k: nat| #[trigger] line_visits(from, to, dash_on, dash_off, k, px, py)
}

/// The pixels of steps before `n`.
pub open spec fn dashed_line_prefix(from: Point, to: Point, dash_on: int, dash_off: int, n: nat) -> Region {
    |px: int, py: int| exists|k: nat| k < n && #[trigger] line_visits(from, to, dash_on, dash_off, k, px, py)
}

pub open spec fn line_inv(ax: int, ay: int, s: (int, int, int)) -> bool {
    &&& 0 <= s.0 <= ax
    &&& 0 <= s.1 <= ay
    &&& -2 * ay <= s.2 <= 2 * ax
    &&& s.2 == ax * (1 + s.1) - ay * (1 + s.0)
}

proof fn lemma_line_step(ax: int, ay: int, s: (int, int, int))
    requires
        ax >= 0,
        ay >= 0,
        line_inv(ax, ay, s),
        !line_done(ax, ay, s),
    ensures
        line_inv(ax, ay, line_step(ax, ay, s)),
        line_step(ax, ay, s).0 + line_step(ax, ay, s).1 > s.0 + s.1,
{
    let (i, j, e) = s;
    let n = line_step(ax, ay, s);
    if i == ax {
        assert(2 * e < -ay) by (nonlinear_arith)
            requires
                e == ax * (1 + j) - ay * (1 + i),
                i == ax,
                0 <= j < ay,
                ax >= 0,
        ;
    }
    if j == ay {
        assert(2 * e > ax) by (nonlinear_arith)
            requires
                e == ax * (1 + j) - ay * (1 + i),
                j == ay,
                0 <= i < ax,
                ay >= 0,
        ;
    }
    assert(ay * (1 + (i + 1)) == ay * (1 + i) + ay) by (nonlinear_arith);
    assert(ax * (1 + (j + 1)) == ax * (1 + j) + ax) by (nonlinear_arith);
}

proof fn lemma_line_walk(ax: int, ay: int, k: nat)
    requires
        ax >= 0,
        ay >= 0,
    ensures
        line_inv(ax, ay, line_walk(ax, ay, k)),
    decreases k,
{
    if k > 0 {
        lemma_line_walk(ax, ay, (k - 1) as nat);
        let s = line_walk(ax, ay, (k - 1) as nat);
        if !line_done(ax, ay, s) {
            lemma_line_step(ax, ay, s);
        }
    }
}

proof fn lemma_line_done_stays(ax: int, ay: int, k: nat, k2: nat)
    requires
        line_done(ax, ay, line_walk(ax, ay, k)),
        k <= k2,
    ensures
        line_walk(ax, ay, k2) == line_walk(ax, ay, k),
    decreases k2,
{
    if k2 > k {
        lemma_line_done_stays(ax, ay, k, (k2 - 1) as nat);
    }
}

/// One step of the walk from state `s` keeps the drawing's 16-bit error
/// arithmetic in range: the doubled error, the error after the column
/// move, and the error after the whole step.
pub open spec fn step_fits_i16(ax: int, ay: int, s: (int, int, int)) -> bool {
    let e2 = 2 * s.2;
    let e1 = if e2 >= -ay { s.2 - ay } else { s.2 };
    &&& i16::MIN <= e2 <= i16::MAX
    &&& i16::MIN <= e1 <= i16::MAX
    &&& i16::MIN <= line_step(ax, ay, s).2 <= i16::MAX
}

/// The line from `from` to `to` can be drawn with 16-bit arithmetic: both
/// spans fit, and every step taken before the far end counts within
/// `i16` and keeps the error in range.
pub open spec fn line_fits(from: Point, to: Point) -> bool {
    let ax = abs_int(to.x - from.x);
    let ay = abs_int(to.y - from.y);
    &&& -i16::MAX <= to.x - from.x <= i16::MAX
    &&& -i16::MAX <= to.y - from.y <= i16::MAX
    &&& forall|k: nat|
        !line_done(ax, ay, #[trigger] line_walk(ax, ay, k)) ==> k < i16::MAX && step_fits_i16(
            ax,
            ay,
            line_walk(ax, ay, k),
        )
}

/// Until the walk ends, every step moves it: after `k` steps it has moved
/// at least `k` pixels in the two directions together.
proof fn lemma_walk_progress(ax: int, ay: int, k: nat)
    requires
        ax >= 0,
        ay >= 0,
        !line_done(ax, ay, line_walk(ax, ay, k)),
    ensures
        line_walk(ax, ay, k).0 + line_walk(ax, ay, k).1 >= k,
    decreases k,
{
    if k > 0 {
        let prev = line_walk(ax, ay, (k - 1) as nat);
        lemma_line_walk(ax, ay, (k - 1) as nat);
        assert(!line_done(ax, ay, prev));
        lemma_walk_progress(ax, ay, (k - 1) as nat);
        lemma_line_step(ax, ay, prev);
    }
}

/// Lines spanning at most 8191 pixels each way always fit 16-bit
/// arithmetic.
pub proof fn lemma_short_lines_fit(from: Point, to: Point)
    requires
        -8191 <= to.x - from.x <= 8191,
        -8191 <= to.y - from.y <= 8191,
    ensures
        line_fits(from, to),
{
    let ax = abs_int(to.x - from.x);
    let ay = abs_int(to.y - from.y);
    assert forall|k: nat| !line_done(ax, ay, #[trigger] line_walk(ax, ay, k)) implies k < i16::MAX && step_fits_i16(
        ax,
        ay,
        line_walk(ax, ay, k),
    ) by {
        let s = line_walk(ax, ay, k);
        lemma_line_walk(ax, ay, k);
        lemma_walk_progress(ax, ay, k);
        lemma_line_step(ax, ay, s);
    }
}

/// Draws the line from `from` to `to` (both ends included) with the
/// error-driven integer walk, lighting `dash_on` pixels out of every
/// `dash_on + dash_off`.
pub fn draw_dashed_line(oled: &mut FrameBuffer, from: Point, to: Point, dash_on: i16, dash_off: i16, on: bool)
    requires
        line_fits(from, to),
        i16::MIN <= dash_on + dash_off <= i16::MAX,
    ensures
        paints(*old(oled), *final(oled), dashed_line_region(from, to, dash_on as int, dash_off as int), on),
{
    let ghost before = *oled;
    let ghost ax = abs_int(to.x - from.x);
    let ghost ay = abs_int(to.y - from.y);
    let ghost sxi = walk_sign(from.x as int, to.x as int);
    let ghost syi = walk_sign(from.y as int, to.y as int);
    let mut x = from.x;
    let mut y = from.y;
    let dx = abs_i16(to.x - from.x);
    let sx: i16 = if from.x < to.x { 1 } else { -1 };
    let dy = -abs_i16(to.y - from.y);
    let sy: i16 = if from.y < to.y { 1 } else { -1 };
    let mut error = dx + dy;
    let mut step: i16 = 0;
    let cycle = dash_on + dash_off;

    loop
        invariant_except_break
            step == 0 || !line_done(ax, ay, line_walk(ax, ay, (step - 1) as nat)),
            paints(before, *oled, dashed_line_prefix(from, to, dash_on as int, dash_off as int, step as nat), on),
        invariant
            ax == abs_int(to.x - from.x),
            ay == abs_int(to.y - from.y),
            sxi == walk_sign(from.x as int, to.x as int),
            syi == walk_sign(from.y as int, to.y as int),
            ax == dx,
            ay == -dy,
            0 <= ax <= i16::MAX,
            0 <= ay <= i16::MAX,
            line_fits(from, to),
            sxi == sx,
            syi == sy,
            cycle == dash_on + dash_off,
            0 <= step,
            step as int <= line_walk(ax, ay, step as nat).0 + line_walk(ax, ay, step as nat).1,
            x as int == from.x + sxi * line_walk(ax, ay, step as nat).0,
            y as int == from.y + syi * line_walk(ax, ay, step as nat).1,
            error as int == line_walk(ax, ay, step as nat).2,
        ensures
            paints(before, *oled, dashed_line_region(from, to, dash_on as int, dash_off as int), on),
        decreases ax + ay - step,
    {
        let ghost k = step as nat;
        let ghost s = line_walk(ax, ay, k);
        proof {
            lemma_line_walk(ax, ay, k);
        }
        let ghost mid = *oled;
        let visible = cycle == 0 || step % cycle < dash_on;
        if visible {
            set_pixel(oled, x, y, on);
        }
        proof {
            assert(visible == dash_visible(k as int, dash_on as int, dash_off as int));
            let prev = dashed_line_prefix(from, to, dash_on as int, dash_off as int, k);
            let next = dashed_line_prefix(from, to, dash_on as int, dash_off as int, k + 1);
            let pt = point_region(x as int, y as int);
            if visible {
                lemma_paints_compose(before, mid, *oled, prev, pt, on);
            }
            assert forall|px: int, py: int| on_screen(px, py) implies #[trigger] next(px, py) == (
            prev(px, py) || (visible && pt(px, py))) by {
                if visible && pt(px, py) {
                    assert(line_visits(from, to, dash_on as int, dash_off as int, k, px, py));
                }
                if next(px, py) {
                    let k2 = choose|k2: nat|
                        k2 < k + 1 && #[trigger] line_visits(from, to, dash_on as int, dash_off as int, k2, px, py);
                    if k2 < k {
                        assert(prev(px, py));
                    }
                }
            }
            if visible {
                lemma_paints_same_region(before, *oled, union_region(prev, pt), next, on);
            } else {
                lemma_paints_same_region(before, *oled, prev, next, on);
            }
        }

        if x == to.x && y == to.y {
            proof {
                assert(line_done(ax, ay, s));
                let full = dashed_line_region(from, to, dash_on as int, dash_off as int);
                let next = dashed_line_prefix(from, to, dash_on as int, dash_off as int, k + 1);
                assert forall|px: int, py: int| on_screen(px, py) implies #[trigger] next(px, py) == full(px, py) by {
                    if full(px, py) {
                        let k2 = choose|k2: nat| #[trigger] line_visits(from, to, dash_on as int, dash_off as int, k2, px, py);
                        if k2 > k {
                            lemma_line_done_stays(ax, ay, k, (k2 - 1) as nat);
                        }
                        assert(next(px, py));
                    }
                }
                lemma_paints_same_region(before, *oled, next, full, on);
            }
            break;
        }

        proof {
            if line_done(ax, ay, s) {
                assert(x == to.x && y == to.y);
            }
            assert(k < i16::MAX && step_fits_i16(ax, ay, s));
            lemma_line_step(ax, ay, s);
        }
        let doubled_error = error * 2;
        if doubled_error >= dy {
            error += dy;
            x += sx;
        }
        if doubled_error <= dx {
            error += dx;
            y += sy;
        }
        step += 1;
    }
}

} // verus!

verus! {

pub const STOP_CM: u16 = 25;
pub const CAUTION_CM: u16 = 50;
pub const NOTICE_CM: u16 = 80;
pub const MEASURE_INTERVAL_MS: u32 = 50;
pub const LOOP_TICK_MS: u32 = 20;
pub const VALID_READING_HOLD_MS: u32 = 300;
pub const SENSOR_TIMEOUT_US: u32 = 15_000;
pub const MAX_VALID_DISTANCE_CM: u16 = 199;
pub const MIN_VALID_DISTANCE_CM: u16 = 2;
pub const I2C_SPEED_HZ: u32 = 400_000;
pub const SMOOTHING_RESET_CM: u16 = 18;

/// How close the obstacle is.
#[derive(Copy, Clone, PartialEq, Eq, Structural, Debug)]
pub enum AlertBand {
    Clear,
    Notice,
    Caution,
    Stop,
}

/// Buzzer and blink rhythm of an alert band.
#[derive(Copy, Clone, PartialEq, Eq, Structural, Debug)]
pub struct Cadence {
    pub on_ms: u32,
    pub off_ms: u32,
    pub tone_hz: u16,
}

pub open spec fn spec_band_from_distance(distance_cm: Option<u16>) -> AlertBand {
    match distance_cm {
        Some(d) => if d <= STOP_CM {
            AlertBand::Stop
        } else if d <= CAUTION_CM {
            AlertBand::Caution
        } else if d <= NOTICE_CM {
            AlertBand::Notice
        } else {
            AlertBand::Clear
        },
        None => AlertBand::Clear,
    }
}

pub open spec fn spec_active_layer(band: AlertBand) -> int {
    match band {
        AlertBand::Clear => 0,
        AlertBand::Notice => 1,
        AlertBand::Caution => 2,
        AlertBand::Stop => 3,
    }
}

pub open spec fn spec_cadence(band: AlertBand) -> Option<Cadence> {
    match band {
        AlertBand::Clear => None,
        AlertBand::Notice => Some(Cadence { on_ms: 100, off_ms: 500, tone_hz: 1_500 }),
        AlertBand::Caution => Some(Cadence { on_ms: 100, off_ms: 250, tone_hz: 1_850 }),
        AlertBand::Stop => Some(Cadence { on_ms: 100, off_ms: 100, tone_hz: 2_250 }),
    }
}

pub open spec fn spec_phase_on(c: Cadence, now_ms: u32) -> bool {
    (now_ms as int) % (c.on_ms + c.off_ms) < c.on_ms
}

pub open spec fn spec_blink_on(band: AlertBand, now_ms: u32) -> bool {
    match spec_cadence(band) {
        Some(c) => spec_phase_on(c, now_ms),
        None => true,
    }
}

impl AlertBand {
    /// Band of a distance: at most 25 cm is `Stop`, at most 50 cm `Caution`,
    /// at most 80 cm `Notice`; farther or unknown is `Clear`.
    pub fn from_distance(distance_cm: Option<u16>) -> (r: Self)
        ensures
            r == spec_band_from_distance(distance_cm),
    {
        match distance_cm {
            Some(distance_cm) if distance_cm <= STOP_CM => AlertBand::Stop,
            Some(distance_cm) if distance_cm <= CAUTION_CM => AlertBand::Caution,
            Some(distance_cm) if distance_cm <= NOTICE_CM => AlertBand::Notice,
            _ => AlertBand::Clear,
        }
    }

    /// Number of radar arcs shown solid or blinking.
    pub fn active_layer(self) -> (r: usize)
        ensures
            r == spec_active_layer(self),
            r <= 3,
    {
        match self {
            AlertBand::Clear => 0,
            AlertBand::Notice => 1,
            AlertBand::Caution => 2,
            AlertBand::Stop => 3,
        }
    }

    /// Blink and tone rhythm; `Clear` has none.
    pub fn cadence(self) -> (r: Option<Cadence>)
        ensures
            r == spec_cadence(self),
    {
        match self {
            AlertBand::Clear => None,
            AlertBand::Notice => Some(Cadence { on_ms: 100, off_ms: 500, tone_hz: 1_500 }),
            AlertBand::Caution => Some(Cadence { on_ms: 100, off_ms: 250, tone_hz: 1_850 }),
            AlertBand::Stop => Some(Cadence { on_ms: 100, off_ms: 100, tone_hz: 2_250 }),
        }
    }

    /// Whether the band's indicators are in the lit half of their rhythm
    /// at `now_ms`; a band without rhythm is always lit.
    pub fn blink_on(self, now_ms: u32) -> (r: bool)
        ensures
            r == spec_blink_on(self, now_ms),
    {
        match self.cadence() {
            Some(cadence) => cadence.phase_on(now_ms),
            None => true,
        }
    }
}

impl Cadence {
    /// Length of one on/off period.
    pub fn cycle_ms(self) -> (r: u32)
        requires
            self.on_ms + self.off_ms <= u32::MAX,
        ensures
            r == self.on_ms + self.off_ms,
    {
        self.on_ms + self.off_ms
    }

    /// Whether `now_ms` falls in the "on" part of the period.
    pub fn phase_on(self, now_ms: u32) -> (r: bool)
        requires
            0 < self.on_ms + self.off_ms <= u32::MAX,
        ensures
            r == spec_phase_on(self, now_ms),
    {
        now_ms % self.cycle_ms() < self.on_ms
    }
}

/// The new filtered distance keeps two thirds of the previous value and
/// takes one third of the new sample, rounded to nearest; a jump of 18 cm
/// or more is taken as is.
pub open spec fn spec_smooth_distance(previous_cm: u16, sample_cm: u16) -> u16 {
    if abs_int(previous_cm - sample_cm) >= SMOOTHING_RESET_CM {
        sample_cm
    } else {
        ((previous_cm * 2 + sample_cm + 1) / 3) as u16
    }
}

/// Blends a new sample into the previous filtered distance.
pub fn smooth_distance(previous_cm: u16, sample_cm: u16) -> (r: u16)
    ensures
        r == spec_smooth_distance(previous_cm, sample_cm),
        min_int(previous_cm as int, sample_cm as int) <= r <= max_int(previous_cm as int, sample_cm as int),
{
    let delta = if previous_cm > sample_cm {
        previous_cm - sample_cm
    } else {
        sample_cm - previous_cm
    };

    if delta >= SMOOTHING_RESET_CM {
        sample_cm
    } else {
        ((previous_cm as u32 * 2 + sample_cm as u32 + 1) / 3) as u16
    }
}

/// Filtered distance with a hold time for dropped readings.
pub struct DistanceTracker {
    filtered_cm: Option<u16>,
    last_valid_ms: u32,
}

impl DistanceTracker {
    pub closed spec fn filtered(&self) -> Option<u16> {
        self.filtered_cm
    }

    pub closed spec fn last_valid(&self) -> u32 {
        self.last_valid_ms
    }

    /// No distance known yet.
    pub fn new() -> (r: Self)
        ensures
            r.filtered() == None::<u16>,
            r.last_valid() == 0,
    {
        DistanceTracker { filtered_cm: None, last_valid_ms: 0 }
    }

    /// Folds in one measurement taken at `now_ms`: a sample is smoothed into
    /// the filtered value (or starts it) and restarts the hold time; a missing
    /// sample forgets the distance once more than 300 ms (with wrap-around)
    /// have passed since the last good one.
    pub fn update(&mut self, sample_cm: Option<u16>, now_ms: u32)
        ensures
            match sample_cm {
                Some(s) => {
                    &&& final(self).filtered() == Some(
                        match old(self).filtered() {
                            Some(p) => spec_smooth_distance(p, s),
                            None => s,
                        },
                    )
                    &&& final(self).last_valid() == now_ms
                },
                None => {
                    &&& final(self).last_valid() == old(self).last_valid()
                    &&& final(self).filtered() == if (now_ms - old(self).last_valid()) % 0x1_0000_0000
                        > VALID_READING_HOLD_MS {
                        None
                    } else {
                        old(self).filtered()
                    }
                },
            },
    {
        if let Some(sample_cm) = sample_cm {
            self.filtered_cm = Some(
                match self.filtered_cm {
                    Some(previous_cm) => smooth_distance(previous_cm, sample_cm),
                    None => sample_cm,
                },
            );
            self.last_valid_ms = now_ms;
            return;
        }
        if now_ms.wrapping_sub(self.last_valid_ms) > VALID_READING_HOLD_MS {
            self.filtered_cm = None;
        }
    }

    /// The filtered distance, if any.
    pub fn current(&self) -> (r: Option<u16>)
        ensures
            r == self.filtered(),
    {
        self.filtered_cm
    }
}

/// What the dashboard shows; it is redrawn only when this changes.
#[derive(Copy, Clone, PartialEq, Eq, Structural, Debug)]
pub struct RenderState {
    pub band: AlertBand,
    pub blink_on: bool,
    pub display_cm: Option<u16>,
}

/// Digits shown for a distance: hundreds and tens only when significant,
/// ones always; three dashes for no distance.
pub open spec fn spec_distance_digits(distance_cm: Option<u16>) -> Seq<Option<u8>> {
    match distance_cm {
        Some(d) => {
            let hundreds = d / 100;
            let tens = (d / 10) % 10;
            seq![
                if hundreds > 0 { Some(hundreds as u8) } else { None },
                if hundreds > 0 || tens > 0 { Some(tens as u8) } else { None },
                Some((d % 10) as u8),
            ]
        },
        None => seq![None, None, None],
    }
}

/// Splits a distance into the three digit cells of the display.
pub fn distance_to_digits(distance_cm: Option<u16>) -> (r: [Option<u8>; 3])
    ensures
        r@ == spec_distance_digits(distance_cm),
{
    match distance_cm {
        Some(distance_cm) => {
            let hundreds = distance_cm / 100;
            let tens = (distance_cm / 10) % 10;
            let ones = distance_cm % 10;
            let r = [
                if hundreds > 0 {
                    Some(hundreds as u8)
                } else {
                    None
                },
                if hundreds > 0 || tens > 0 {
                    Some(tens as u8)
                } else {
                    None
                },
                Some(ones as u8),
            ];
            assert(r@ =~= spec_distance_digits(Some(distance_cm)));
            r
        },
        None => {
            let r = [None, None, None];
            assert(r@ =~= spec_distance_digits(None));
            r
        },
    }
}

} // verus!

verus! {

/// Pixels of a column-major glyph at `(x, y)`: column `c` is byte `c`,
/// row `r` (0..7, top to bottom) is bit `6 - r`.
pub open spec fn glyph_region(x: int, y: int, glyph: Seq<u8>) -> Region {
    |px: int, py: int|
        0 <= px - x < glyph.len() && 0 <= py - y < 7 && (glyph[px - x] & (1u8 << ((6 - (py - y)) as u8)))
            != 0
}

/// Draws a column-major glyph of up to seven rows at `(x, y)`.
pub fn draw_glyph<const N: usize>(oled: &mut FrameBuffer, x: i16, y: i16, glyph: &[u8; N])
    requires
        N <= i16::MAX,
        x + N <= i16::MAX + 1,
        y + 6 <= i16::MAX,
    ensures
        paints(*old(oled), *final(oled), glyph_region(x as int, y as int, glyph@), true),
{
    let ghost before = *oled;
    let mut column: usize = 0;
    while column < N
        invariant
            0 <= column <= N,
            N <= i16::MAX,
            x + N <= i16::MAX + 1,
            y + 6 <= i16::MAX,
            paints(before, *oled, glyph_region(x as int, y as int, glyph@.take(column as int)), true),
        decreases N - column,
    {
        let bits = glyph[column];
        let ghost col_start = *oled;
        let mut row: u8 = 0;
        while row < 7
            invariant
                0 <= row <= 7,
                column < N,
                N <= i16::MAX,
                x + N <= i16::MAX + 1,
                y + 6 <= i16::MAX,
                bits == glyph@[column as int],
                paints(
                    before,
                    *oled,
                    |px: int, py: int|
                        glyph_region(x as int, y as int, glyph@.take(column as int))(px, py) || (px == x
                            + column && 0 <= py - y < row && (bits & (1u8 << ((6 - (py - y)) as u8))) != 0),
                    true,
                ),
            decreases 7 - row,
        {
            let ghost mid = *oled;
            let ghost prev: Region = |px: int, py: int|
                glyph_region(x as int, y as int, glyph@.take(column as int))(px, py) || (px == x + column
                    && 0 <= py - y < row && (bits & (1u8 << ((6 - (py - y)) as u8))) != 0);
            let ghost next: Region = |px: int, py: int|
                glyph_region(x as int, y as int, glyph@.take(column as int))(px, py) || (px == x + column
                    && 0 <= py - y < row + 1 && (bits & (1u8 << ((6 - (py - y)) as u8))) != 0);
            if bits & (1u8 << (6 - row)) != 0 {
                set_pixel(oled, x + column as i16, y + row as i16, true);
                proof {
                    lemma_paints_compose(before, mid, *oled, prev, point_region(x + column, y + row), true);
                    lemma_paints_same_region(
                        before,
                        *oled,
                        union_region(prev, point_region(x + column, y + row)),
                        next,
                        true,
                    );
                }
            } else {
                proof {
                    lemma_paints_same_region(before, *oled, prev, next, true);
                }
            }
            row = row + 1;
        }
        proof {
            lemma_paints_same_region(
                before,
                *oled,
                |px: int, py: int|
                    glyph_region(x as int, y as int, glyph@.take(column as int))(px, py) || (px == x + column
                        && 0 <= py - y < 7 && (bits & (1u8 << ((6 - (py - y)) as u8))) != 0),
                glyph_region(x as int, y as int, glyph@.take(column + 1)),
                true,
            );
        }
        column = column + 1;
    }
    proof {
        assert(glyph@.take(N as int) =~= glyph@);
    }
}

} // verus!

verus! {

/// One arc of the radar fan: a dashed top edge and two dashed sides.
#[derive(Copy, Clone)]
pub struct RadarLayer {
    pub top_left: Point,
    pub top_right: Point,
    pub bottom_left: Point,
    pub bottom_right: Point,
}

pub open spec fn pt(x: int, y: int) -> Point {
    Point { x: x as i16, y: y as i16 }
}

/// The four arcs, from the outermost (shown first) to the innermost.
pub open spec fn spec_radar_layer(index: int) -> RadarLayer {
    if index == 0 {
        RadarLayer { top_left: pt(10, 11), top_right: pt(69, 11), bottom_left: pt(2, 33), bottom_right: pt(77, 33) }
    } else if index == 1 {
        RadarLayer { top_left: pt(18, 17), top_right: pt(61, 17), bottom_left: pt(12, 36), bottom_right: pt(67, 36) }
    } else if index == 2 {
        RadarLayer { top_left: pt(26, 24), top_right: pt(53, 24), bottom_left: pt(22, 39), bottom_right: pt(57, 39) }
    } else {
        RadarLayer { top_left: pt(31, 31), top_right: pt(48, 31), bottom_left: pt(29, 42), bottom_right: pt(50, 42) }
    }
}

/// Arc `index` of the radar fan.
pub fn radar_layer(index: usize) -> (r: RadarLayer)
    requires
        index < 4,
    ensures
        r == spec_radar_layer(index as int),
{
    if index == 0 {
        RadarLayer {
            top_left: Point { x: 10, y: 11 },
            top_right: Point { x: 69, y: 11 },
            bottom_left: Point { x: 2, y: 33 },
            bottom_right: Point { x: 77, y: 33 },
        }
    } else if index == 1 {
        RadarLayer {
            top_left: Point { x: 18, y: 17 },
            top_right: Point { x: 61, y: 17 },
            bottom_left: Point { x: 12, y: 36 },
            bottom_right: Point { x: 67, y: 36 },
        }
    } else if index == 2 {
        RadarLayer {
            top_left: Point { x: 26, y: 24 },
            top_right: Point { x: 53, y: 24 },
            bottom_left: Point { x: 22, y: 39 },
            bottom_right: Point { x: 57, y: 39 },
        }
    } else {
        RadarLayer {
            top_left: Point { x: 31, y: 31 },
            top_right: Point { x: 48, y: 31 },
            bottom_left: Point { x: 29, y: 42 },
            bottom_right: Point { x: 50, y: 42 },
        }
    }
}

pub open spec fn radar_layer_region(layer: RadarLayer) -> Region {
    |px: int, py: int|
        dashed_line_region(layer.top_left, layer.top_right, 7, 4)(px, py) || dashed_line_region(
            layer.top_left,
            layer.bottom_left,
            6,
            3,
        )(px, py) || dashed_line_region(layer.top_right, layer.bottom_right, 6, 3)(px, py)
}

/// Draws one radar arc.
pub fn draw_radar_layer(oled: &mut FrameBuffer, layer: RadarLayer)
    requires
        line_fits(layer.top_left, layer.top_right),
        line_fits(layer.top_left, layer.bottom_left),
        line_fits(layer.top_right, layer.bottom_right),
    ensures
        paints(*old(oled), *final(oled), radar_layer_region(layer), true),
{
    let ghost s0 = *oled;
    draw_dashed_line(oled, layer.top_left, layer.top_right, 7, 4, true);
    let ghost s1 = *oled;
    draw_dashed_line(oled, layer.top_left, layer.bottom_left, 6, 3, true);
    let ghost s2 = *oled;
    draw_dashed_line(oled, layer.top_right, layer.bottom_right, 6, 3, true);
    proof {
        let r1 = dashed_line_region(layer.top_left, layer.top_right, 7, 4);
        let r2 = dashed_line_region(layer.top_left, layer.bottom_left, 6, 3);
        let r3 = dashed_line_region(layer.top_right, layer.bottom_right, 6, 3);
        lemma_paints_compose(s0, s1, s2, r1, r2, true);
        lemma_paints_compose(s0, s2, *oled, union_region(r1, r2), r3, true);
        lemma_paints_same_region(s0, *oled, union_region(union_region(r1, r2), r3), radar_layer_region(layer), true);
    }
}

/// The car below the fan: body, cabin, wheels; the cabin window is filled
/// when `cabin_flash`.
pub open spec fn car_icon_region(cabin_flash: bool) -> Region {
    |px: int, py: int|
        rect_outline_region(28, 47, 21, 11)(px, py) || rect_outline_region(33, 43, 11, 5)(px, py)
            || hspan(27, 29, 4)(px, py) || hspan(49, 51, 4)(px, py) || hspan(27, 29, 56)(px, py)
            || hspan(49, 51, 56)(px, py) || (cabin_flash && rect_fill_region(35, 45, 7, 2)(px, py))
}

/// Draws the car icon.
pub fn draw_car_icon(oled: &mut FrameBuffer, cabin_flash: bool)
    ensures
        paints(*old(oled), *final(oled), car_icon_region(cabin_flash), true),
{
    let ghost s0 = *oled;
    draw_rect(oled, 28, 47, 21, 11, true);
    let ghost s1 = *oled;
    draw_rect(oled, 33, 43, 11, 5, true);
    let ghost s2 = *oled;
    draw_hline(oled, 27, 29, 4, true);
    let ghost s3 = *oled;
    draw_hline(oled, 49, 51, 4, true);
    let ghost s4 = *oled;
    draw_hline(oled, 27, 29, 56, true);
    let ghost s5 = *oled;
    draw_hline(oled, 49, 51, 56, true);
    let ghost s6 = *oled;
    proof {
        lemma_paints_compose(s0, s1, s2, rect_outline_region(28, 47, 21, 11), rect_outline_region(33, 43, 11, 5), true);
        let u2 = union_region(rect_outline_region(28, 47, 21, 11), rect_outline_region(33, 43, 11, 5));
        lemma_paints_same_region(s2, s3, hspan(min_int(27, 29), max_int(27, 29), 4), hspan(27, 29, 4), true);
        lemma_paints_compose(s0, s2, s3, u2, hspan(27, 29, 4), true);
        let u3 = union_region(u2, hspan(27, 29, 4));
        lemma_paints_same_region(s3, s4, hspan(min_int(49, 51), max_int(49, 51), 4), hspan(49, 51, 4), true);
        lemma_paints_compose(s0, s3, s4, u3, hspan(49, 51, 4), true);
        let u4 = union_region(u3, hspan(49, 51, 4));
        lemma_paints_same_region(s4, s5, hspan(min_int(27, 29), max_int(27, 29), 56), hspan(27, 29, 56), true);
        lemma_paints_compose(s0, s4, s5, u4, hspan(27, 29, 56), true);
        let u5 = union_region(u4, hspan(27, 29, 56));
        lemma_paints_same_region(s5, s6, hspan(min_int(49, 51), max_int(49, 51), 56), hspan(49, 51, 56), true);
        lemma_paints_compose(s0, s5, s6, u5, hspan(49, 51, 56), true);
    }
    if cabin_flash {
        fill_rect(oled, 35, 45, 7, 2, true);
    }
    proof {
        let u6 = union_region(
            union_region(
                union_region(
                    union_region(
                        union_region(rect_outline_region(28, 47, 21, 11), rect_outline_region(33, 43, 11, 5)),
                        hspan(27, 29, 4),
                    ),
                    hspan(49, 51, 4),
                ),
                hspan(27, 29, 56),
            ),
            hspan(49, 51, 56),
        );
        if cabin_flash {
            lemma_paints_compose(s0, s6, *oled, u6, rect_fill_region(35, 45, 7, 2), true);
            lemma_paints_same_region(s0, *oled, union_region(u6, rect_fill_region(35, 45, 7, 2)), car_icon_region(cabin_flash), true);
        } else {
            lemma_paints_same_region(s0, *oled, u6, car_icon_region(cabin_flash), true);
        }
    }
}

/// Arc `index` is shown: arcs inside the active one are solid, the active
/// one blinks, the rest are hidden.
pub open spec fn layer_visible(index: int, active_layer: int, blink_on: bool) -> bool {
    index < active_layer || (index == active_layer && blink_on)
}

/// The visible arcs among the first `n`.
pub open spec fn radar_layers_prefix(active_layer: int, blink_on: bool, n: nat) -> Region
    decreases n,
{
    if n == 0 {
        |px: int, py: int| false
    } else {
        let i = n - 1;
        let prev = radar_layers_prefix(active_layer, blink_on, (n - 1) as nat);
        |px: int, py: int|
            prev(px, py) || (layer_visible(i, active_layer, blink_on) && radar_layer_region(spec_radar_layer(i))(px, py))
    }
}

/// The radar side of the dashboard for a band.
pub open spec fn radar_panel_region(band: AlertBand, blink_on: bool) -> Region {
    |px: int, py: int|
        radar_layers_prefix(spec_active_layer(band), blink_on, 4)(px, py) || car_icon_region(
            band == AlertBand::Stop && blink_on,
        )(px, py)
}

/// Draws the radar fan for `band` and the car, whose cabin flashes at
/// `Stop`.
pub fn draw_radar_panel(oled: &mut FrameBuffer, band: AlertBand, blink_on: bool)
    ensures
        paints(*old(oled), *final(oled), radar_panel_region(band, blink_on), true),
{
    let ghost s0 = *oled;
    let active_layer = band.active_layer();
    let mut index: usize = 0;
    while index < 4
        invariant
            0 <= index <= 4,
            active_layer == spec_active_layer(band),
            paints(s0, *oled, radar_layers_prefix(active_layer as int, blink_on, index as nat), true),
        decreases 4 - index,
    {
        let layer = radar_layer(index);
        let visible = if index < active_layer {
            true
        } else if index == active_layer {
            blink_on
        } else {
            false
        };
        let ghost mid = *oled;
        let ghost prev = radar_layers_prefix(active_layer as int, blink_on, index as nat);
        let ghost next = radar_layers_prefix(active_layer as int, blink_on, (index + 1) as nat);
        if visible {
            proof {
                lemma_short_lines_fit(layer.top_left, layer.top_right);
                lemma_short_lines_fit(layer.top_left, layer.bottom_left);
                lemma_short_lines_fit(layer.top_right, layer.bottom_right);
            }
            draw_radar_layer(oled, layer);
            proof {
                lemma_paints_compose(s0, mid, *oled, prev, radar_layer_region(layer), true);
                lemma_paints_same_region(s0, *oled, union_region(prev, radar_layer_region(layer)), next, true);
            }
        } else {
            proof {
                lemma_paints_same_region(s0, *oled, prev, next, true);
            }
        }
        index = index + 1;
    }
    let ghost s1 = *oled;
    draw_car_icon(oled, band == AlertBand::Stop && blink_on);
    proof {
        lemma_paints_compose(
            s0,
            s1,
            *oled,
            radar_layers_prefix(active_layer as int, blink_on, 4),
            car_icon_region(band == AlertBand::Stop && blink_on),
            true,
        );
        lemma_paints_same_region(
            s0,
            *oled,
            union_region(
                radar_layers_prefix(active_layer as int, blink_on, 4),
                car_icon_region(band == AlertBand::Stop && blink_on),
            ),
            radar_panel_region(band, blink_on),
            true,
        );
    }
}

} // verus!

verus! {

pub open spec fn spec_glyph_c() -> Seq<u8> {
    seq![0b0011110u8, 0b0100001u8, 0b0100001u8, 0b0100001u8, 0b0010010u8]
}

pub open spec fn spec_glyph_m() -> Seq<u8> {
    seq![0b0111111u8, 0b0100000u8, 0b0010000u8, 0b0100000u8, 0b0111111u8]
}

pub open spec fn spec_glyph_bang() -> Seq<u8> {
    seq![0b1111101u8, 0b0000000u8, 0b1111101u8]
}

/// The letter "c" in a 5x7 font.
pub fn glyph_c() -> (r: [u8; 5])
    ensures
        r@ == spec_glyph_c(),
{
    let r = [0b0011110, 0b0100001, 0b0100001, 0b0100001, 0b0010010];
    assert(r@ =~= spec_glyph_c());
    r
}

/// The letter "m" in a 5x7 font.
pub fn glyph_m() -> (r: [u8; 5])
    ensures
        r@ == spec_glyph_m(),
{
    let r = [0b0111111, 0b0100000, 0b0010000, 0b0100000, 0b0111111];
    assert(r@ =~= spec_glyph_m());
    r
}

/// A double exclamation mark.
pub fn glyph_bang() -> (r: [u8; 3])
    ensures
        r@ == spec_glyph_bang(),
{
    let r = [0b1111101, 0b0000000, 0b1111101];
    assert(r@ =~= spec_glyph_bang());
    r
}

/// Pixels of one digit cell at column `x`: the digit, or a dash for none.
pub open spec fn digit_cell_region(x: int, digit: Option<u8>) -> Region {
    match digit {
        Some(d) => seven_segment_region(x, 12, spec_digit_segments(d as int)),
        None => seven_segment_region(x, 12, SEGMENT_G),
    }
}

pub open spec fn digit_x(slot: int) -> int {
    if slot == 0 {
        88
    } else if slot == 1 {
        102
    } else {
        116
    }
}

/// The first `n` digit cells of a distance.
pub open spec fn digit_cells_prefix(digits: Seq<Option<u8>>, n: nat) -> Region
    decreases n,
{
    if n == 0 {
        |px: int, py: int| false
    } else {
        let prev = digit_cells_prefix(digits, (n - 1) as nat);
        |px: int, py: int| prev(px, py) || digit_cell_region(digit_x(n - 1), digits[n - 1])(px, py)
    }
}

/// Level meter slot `slot` is filled: slots below the band's level are lit,
/// the top one blinking with the band.
pub open spec fn meter_slot_filled(slot: int, band: AlertBand, blink_on: bool) -> bool {
    let level = spec_active_layer(band);
    let active = slot < level;
    let blinking = slot + 1 == level && band != AlertBand::Clear;
    active && (!blinking || blink_on)
}

pub open spec fn meter_slots_prefix(band: AlertBand, blink_on: bool, n: nat) -> Region
    decreases n,
{
    if n == 0 {
        |px: int, py: int| false
    } else {
        let s = n - 1;
        let prev = meter_slots_prefix(band, blink_on, (n - 1) as nat);
        |px: int, py: int|
            prev(px, py) || rect_outline_region(88 + s * 12, 56, 8, 5)(px, py) || (meter_slot_filled(
                s,
                band,
                blink_on,
            ) && rect_fill_region(88 + s * 12 + 1, 57, 6, 3)(px, py))
    }
}

/// The three-slot alert meter and, at `Stop`, the blinking "!!".
pub open spec fn alert_meter_region(band: AlertBand, blink_on: bool) -> Region {
    |px: int, py: int|
        meter_slots_prefix(band, blink_on, 3)(px, py) || (band == AlertBand::Stop && blink_on && glyph_region(
            123,
            54,
            spec_glyph_bang(),
        )(px, py))
}

/// Draws the alert level meter.
pub fn draw_alert_meter(oled: &mut FrameBuffer, band: AlertBand, blink_on: bool)
    ensures
        paints(*old(oled), *final(oled), alert_meter_region(band, blink_on), true),
{
    let ghost s0 = *oled;
    let level = band.active_layer() as i16;
    let mut slot: i16 = 0;
    while slot < 3
        invariant
            0 <= slot <= 3,
            level == spec_active_layer(band),
            paints(s0, *oled, meter_slots_prefix(band, blink_on, slot as nat), true),
        decreases 3 - slot,
    {
        let x = 88 + slot * 12;
        let active = slot < level;
        let blinking = slot + 1 == level && band != AlertBand::Clear;
        let filled = active && (!blinking || blink_on);
        let ghost prev = meter_slots_prefix(band, blink_on, slot as nat);
        let ghost next = meter_slots_prefix(band, blink_on, (slot + 1) as nat);
        let ghost m0 = *oled;
        draw_rect(oled, x, 56, 8, 5, true);
        let ghost m1 = *oled;
        proof {
            lemma_paints_compose(s0, m0, m1, prev, rect_outline_region(x as int, 56, 8, 5), true);
        }
        if filled {
            fill_rect(oled, x + 1, 57, 6, 3, true);
            proof {
                lemma_paints_compose(
                    s0,
                    m1,
                    *oled,
                    union_region(prev, rect_outline_region(x as int, 56, 8, 5)),
                    rect_fill_region(x + 1, 57, 6, 3),
                    true,
                );
                lemma_paints_same_region(
                    s0,
                    *oled,
                    union_region(
                        union_region(prev, rect_outline_region(x as int, 56, 8, 5)),
                        rect_fill_region(x + 1, 57, 6, 3),
                    ),
                    next,
                    true,
                );
            }
        } else {
            proof {
                lemma_paints_same_region(s0, *oled, union_region(prev, rect_outline_region(x as int, 56, 8, 5)), next, true);
            }
        }
        slot = slot + 1;
    }
    let ghost s1 = *oled;
    if band == AlertBand::Stop && blink_on {
        let bang = glyph_bang();
        draw_glyph(oled, 123, 54, &bang);
        proof {
            lemma_paints_compose(s0, s1, *oled, meter_slots_prefix(band, blink_on, 3), glyph_region(123, 54, spec_glyph_bang()), true);
            lemma_paints_same_region(
                s0,
                *oled,
                union_region(meter_slots_prefix(band, blink_on, 3), glyph_region(123, 54, spec_glyph_bang())),
                alert_meter_region(band, blink_on),
                true,
            );
        }
    } else {
        proof {
            lemma_paints_same_region(s0, *oled, meter_slots_prefix(band, blink_on, 3), alert_meter_region(band, blink_on), true);
        }
    }
}

/// The numeric side of the dashboard: three digit cells, the unit "cm" and
/// the alert meter.
pub open spec fn distance_panel_region(display_cm: Option<u16>, band: AlertBand, blink_on: bool) -> Region {
    |px: int, py: int|
        digit_cells_prefix(spec_distance_digits(display_cm), 3)(px, py) || glyph_region(102, 46, spec_glyph_c())(
            px,
            py,
        ) || glyph_region(109, 46, spec_glyph_m())(px, py) || alert_meter_region(band, blink_on)(px, py)
}

/// A distance the three digit cells can show.
pub open spec fn displayable(display_cm: Option<u16>) -> bool {
    match display_cm {
        Some(d) => d < 1000,
        None => true,
    }
}

/// Draws the distance in centimetres, its unit and the alert meter.
pub fn draw_distance_panel(oled: &mut FrameBuffer, display_cm: Option<u16>, band: AlertBand, blink_on: bool)
    requires
        displayable(display_cm),
    ensures
        paints(*old(oled), *final(oled), distance_panel_region(display_cm, band, blink_on), true),
{
    let ghost s0 = *oled;
    let x_positions: [i16; 3] = [88, 102, 116];
    let y: i16 = 12;
    let digits = distance_to_digits(display_cm);
    let mut slot: usize = 0;
    while slot < 3
        invariant
            0 <= slot <= 3,
            displayable(display_cm),
            digits@ == spec_distance_digits(display_cm),
            x_positions@ == seq![88i16, 102i16, 116i16],
            y == 12,
            paints(s0, *oled, digit_cells_prefix(digits@, slot as nat), true),
        decreases 3 - slot,
    {
        let x = x_positions[slot];
        let ghost mid = *oled;
        let ghost prev = digit_cells_prefix(digits@, slot as nat);
        let ghost next = digit_cells_prefix(digits@, (slot + 1) as nat);
        assert(x == digit_x(slot as int));
        match digits[slot] {
            Some(digit) => {
                assert(digit < 10) by {
                    let d = display_cm->0;
                    assert(d / 100 < 10);
                }
                draw_seven_segment_digit(oled, x, y, digit);
            },
            None => draw_seven_segment_dash(oled, x, y),
        }
        proof {
            lemma_paints_compose(s0, mid, *oled, prev, digit_cell_region(x as int, digits@[slot as int]), true);
            lemma_paints_same_region(s0, *oled, union_region(prev, digit_cell_region(x as int, digits@[slot as int])), next, true);
        }
        slot = slot + 1;
    }
    let ghost s1 = *oled;
    let c = glyph_c();
    draw_glyph(oled, 102, 46, &c);
    let ghost s2 = *oled;
    let m = glyph_m();
    draw_glyph(oled, 109, 46, &m);
    let ghost s3 = *oled;
    draw_alert_meter(oled, band, blink_on);
    proof {
        let r0 = digit_cells_prefix(digits@, 3);
        let r1 = glyph_region(102, 46, spec_glyph_c());
        let r2 = glyph_region(109, 46, spec_glyph_m());
        let r3 = alert_meter_region(band, blink_on);
        lemma_paints_compose(s0, s1, s2, r0, r1, true);
        lemma_paints_compose(s0, s2, s3, union_region(r0, r1), r2, true);
        lemma_paints_compose(s0, s3, *oled, union_region(union_region(r0, r1), r2), r3, true);
        lemma_paints_same_region(
            s0,
            *oled,
            union_region(union_region(union_region(r0, r1), r2), r3),
            distance_panel_region(display_cm, band, blink_on),
            true,
        );
    }
}

/// Everything the dashboard shows for a state: divider, radar side and
/// numeric side.
pub open spec fn dashboard_region(state: RenderState) -> Region {
    |px: int, py: int|
        vspan(82, 6, 58)(px, py) || radar_panel_region(state.band, state.blink_on)(px, py)
            || distance_panel_region(state.display_cm, state.band, state.blink_on)(px, py)
}

/// Redraws the whole dashboard into the frame buffer: afterwards exactly
/// the pixels of `dashboard_region(state)` are lit.
pub fn render_dashboard(oled: &mut FrameBuffer, state: RenderState)
    requires
        displayable(state.display_cm),
    ensures
        forall|x: int, y: int| #[trigger] final(oled).lit(x, y) == (on_screen(x, y) && dashboard_region(state)(x, y)),
{
    oled.clear();
    let ghost s0 = *oled;
    draw_vline(oled, 82, 6, 58, true);
    let ghost s1 = *oled;
    draw_radar_panel(oled, state.band, state.blink_on);
    let ghost s2 = *oled;
    draw_distance_panel(oled, state.display_cm, state.band, state.blink_on);
    proof {
        let r0 = vspan(82, 6, 58);
        let r1 = radar_panel_region(state.band, state.blink_on);
        let r2 = distance_panel_region(state.display_cm, state.band, state.blink_on);
        lemma_paints_same_region(s0, s1, vspan(82, min_int(6, 58), max_int(6, 58)), r0, true);
        lemma_paints_compose(s0, s1, s2, r0, r1, true);
        lemma_paints_compose(s0, s2, *oled, union_region(r0, r1), r2, true);
        lemma_paints_same_region(s0, *oled, union_region(union_region(r0, r1), r2), dashboard_region(state), true);
    }
}

} // verus!

verus! {

/// The distance a measurement yields: readings from 2 cm to 199 cm are
/// kept, anything else (including a failed measurement) is dropped.
pub open spec fn spec_accepted_distance(measurement: Result<Sr04Reading, Sr04Error>) -> Option<u16> {
    match measurement {
        Ok(reading) => {
            let d = spec_distance_cm(reading.ticks());
            if MIN_VALID_DISTANCE_CM <= d <= MAX_VALID_DISTANCE_CM {
                Some(d as u16)
            } else {
                None
            }
        },
        Err(_) => None,
    }
}

/// Filters the outcome of one sensor measurement.
pub fn distance_from_measurement(measurement: Result<Sr04Reading, Sr04Error>) -> (r: Option<u16>)
    ensures
        r == spec_accepted_distance(measurement),
{
    match measurement {
        Ok(reading) => {
            let distance_cm = reading.distance_cm();
            if MIN_VALID_DISTANCE_CM <= distance_cm && distance_cm <= MAX_VALID_DISTANCE_CM {
                Some(distance_cm)
            } else {
                None
            }
        },
        Err(_) => None,
    }
}

/// The distance shown: the filtered one, capped at 199 cm.
pub open spec fn spec_display_cm(filtered: Option<u16>) -> Option<u16> {
    match filtered {
        Some(d) => Some(if d < MAX_VALID_DISTANCE_CM { d } else { MAX_VALID_DISTANCE_CM }),
        None => None,
    }
}

/// The dashboard state for a filtered distance at `now_ms`.
pub open spec fn spec_render_state(filtered: Option<u16>, now_ms: u32) -> RenderState {
    let display_cm = spec_display_cm(filtered);
    let band = spec_band_from_distance(display_cm);
    RenderState { band, blink_on: spec_blink_on(band, now_ms), display_cm }
}

/// The tone to sound for a state: the band's tone while its indicator is
/// lit, silence otherwise.
pub open spec fn spec_tone(state: RenderState) -> Option<u16> {
    match spec_cadence(state.band) {
        Some(c) => if state.blink_on { Some(c.tone_hz) } else { None },
        None => None,
    }
}

/// What one pass of the main loop does after measuring.
#[derive(Copy, Clone, PartialEq, Eq, Structural, Debug)]
pub struct FramePlan {
    /// The dashboard to redraw and flush, when it changed.
    pub redraw: Option<RenderState>,
    /// The tone to play for one loop tick, or silence (and a one-tick pause).
    pub tone_hz: Option<u16>,
}

/// The decisions of the parking assistant's main loop: when to measure,
/// what to show and what to sound.
pub struct ParkingAssist {
    tracker: DistanceTracker,
    last_measure_ms: u32,
    rendered_state: Option<RenderState>,
}

impl ParkingAssist {
    pub closed spec fn filtered(&self) -> Option<u16> {
        self.tracker.filtered()
    }

    pub closed spec fn last_valid(&self) -> u32 {
        self.tracker.last_valid()
    }

    pub closed spec fn last_measure(&self) -> u32 {
        self.last_measure_ms
    }

    pub closed spec fn rendered(&self) -> Option<RenderState> {
        self.rendered_state
    }

    /// Nothing measured or drawn yet.
    pub fn new() -> (r: Self)
        ensures
            r.filtered() == None::<u16>,
            r.last_valid() == 0,
            r.last_measure() == 0,
            r.rendered() == None::<RenderState>,
    {
        ParkingAssist { tracker: DistanceTracker::new(), last_measure_ms: 0, rendered_state: None }
    }

    /// A new measurement is due: at least 50 ms (with wrap-around) since the
    /// last one.
    pub fn measurement_due(&self, now_ms: u32) -> (r: bool)
        ensures
            r == ((now_ms - self.last_measure()) % 0x1_0000_0000 >= MEASURE_INTERVAL_MS),
    {
        now_ms.wrapping_sub(self.last_measure_ms) >= MEASURE_INTERVAL_MS
    }

    /// Records the filtered outcome of a measurement made at `now_ms`.
    pub fn record_measurement(&mut self, sample_cm: Option<u16>, now_ms: u32)
        ensures
            final(self).last_measure() == now_ms,
            final(self).rendered() == old(self).rendered(),
            match sample_cm {
                Some(s) => {
                    &&& final(self).filtered() == Some(
                        match old(self).filtered() {
                            Some(p) => spec_smooth_distance(p, s),
                            None => s,
                        },
                    )
                    &&& final(self).last_valid() == now_ms
                },
                None => {
                    &&& final(self).last_valid() == old(self).last_valid()
                    &&& final(self).filtered() == if (now_ms - old(self).last_valid()) % 0x1_0000_0000
                        > VALID_READING_HOLD_MS {
                        None
                    } else {
                        old(self).filtered()
                    }
                },
            },
    {
        self.tracker.update(sample_cm, now_ms);
        self.last_measure_ms = now_ms;
    }

    /// Plans the display and the buzzer at `now_ms`: the dashboard is
    /// redrawn exactly when its state differs from the one last drawn.
    pub fn plan_frame(&mut self, now_ms: u32) -> (r: FramePlan)
        ensures
            ({
                let state = spec_render_state(old(self).filtered(), now_ms);
                &&& r.redraw == if old(self).rendered() == Some(state) { None } else { Some(state) }
                &&& r.tone_hz == spec_tone(state)
                &&& final(self).rendered() == Some(state)
            }),
            final(self).filtered() == old(self).filtered(),
            final(self).last_valid() == old(self).last_valid(),
            final(self).last_measure() == old(self).last_measure(),
    {
        let display_cm = match self.tracker.current() {
            Some(distance_cm) => Some(
                if distance_cm < MAX_VALID_DISTANCE_CM {
                    distance_cm
                } else {
                    MAX_VALID_DISTANCE_CM
                },
            ),
            None => None,
        };
        let band = AlertBand::from_distance(display_cm);
        let blink_on = band.blink_on(now_ms);
        let state = RenderState { band, blink_on, display_cm };
        let redraw = if self.rendered_state == Some(state) {
            None
        } else {
            self.rendered_state = Some(state);
            Some(state)
        };
        let tone_hz = match band.cadence() {
            Some(cadence) => if blink_on {
                Some(cadence.tone_hz)
            } else {
                None
            },
            None => None,
        };
        FramePlan { redraw, tone_hz }
    }
}

} // verus!

verus! {

/// The digits shown spell the distance: with missing digits read as zero,
/// hundreds, tens and ones add up to it, and a digit is missing only where
/// it and every digit before it is zero.
pub proof fn lemma_digits_spell_distance(d: u16)
    requires
        d < 1000,
    ensures
        ({
            let ds = spec_distance_digits(Some(d));
            let v = |o: Option<u8>| -> int {
                match o {
                    Some(x) => x as int,
                    None => 0,
                }
            };
            &&& 100 * v(ds[0]) + 10 * v(ds[1]) + v(ds[2]) == d
            &&& (ds[0] is None <==> d < 100)
            &&& (ds[1] is None <==> d < 10)
            &&& ds[2] is Some
            &&& forall|i: int| 0 <= i < 3 ==> (#[trigger] ds[i] matches Some(x) ==> x < 10)
        }),
{
}

/// A nearer obstacle never gets a lower alert band.
pub proof fn lemma_band_monotone(near_cm: u16, far_cm: u16)
    requires
        near_cm <= far_cm,
    ensures
        spec_active_layer(spec_band_from_distance(Some(near_cm))) >= spec_active_layer(
            spec_band_from_distance(Some(far_cm)),
        ),
{
}

proof fn lemma_line_reaches_end_from(ax: int, ay: int, k: nat) -> (n: nat)
    requires
        ax >= 0,
        ay >= 0,
        k <= line_walk(ax, ay, k).0 + line_walk(ax, ay, k).1,
    ensures
        n <= ax + ay,
        line_done(ax, ay, line_walk(ax, ay, n)),
    decreases ax + ay - k,
{
    lemma_line_walk(ax, ay, k);
    if line_done(ax, ay, line_walk(ax, ay, k)) {
        k
    } else {
        lemma_line_step(ax, ay, line_walk(ax, ay, k));
        lemma_line_reaches_end_from(ax, ay, k + 1)
    }
}

/// A line walk always reaches its far end, after at most as many steps as
/// the line spans pixels in both directions together, and the end is the
/// pixel `to`.
pub proof fn lemma_line_reaches_end(from: Point, to: Point)
    ensures
        ({
            let ax = abs_int(to.x - from.x);
            let ay = abs_int(to.y - from.y);
            exists|k: nat|
                k <= ax + ay && #[trigger] line_done(ax, ay, line_walk(ax, ay, k)) && line_point(from, to, k) == (
                to.x as int,
                to.y as int,
            )
        }),
{
    let ax = abs_int(to.x - from.x);
    let ay = abs_int(to.y - from.y);
    let n = lemma_line_reaches_end_from(ax, ay, 0);
    assert(line_point(from, to, n) == (to.x as int, to.y as int));
}

/// The first pixel of a line is `from`, drawn whenever the pattern starts
/// with at least one lit pixel.
pub proof fn lemma_line_starts_at_from(from: Point, to: Point, dash_on: int, dash_off: int)
    requires
        dash_on > 0,
        dash_off >= 0,
    ensures
        dashed_line_region(from, to, dash_on, dash_off)(from.x as int, from.y as int),
{
    assert(line_visits(from, to, dash_on, dash_off, 0, from.x as int, from.y as int));
}

/// A sensor reading is kept exactly when its rounded distance lies between
/// 2 cm and 199 cm, and then the distance itself is the result; a failed
/// measurement yields nothing.
pub proof fn lemma_accepted_distance_range(measurement: Result<Sr04Reading, Sr04Error>)
    ensures
        match measurement {
            Ok(reading) => {
                let d = spec_distance_cm(reading.ticks());
                &&& 2 <= d <= 199 ==> spec_accepted_distance(measurement) == Some(d as u16)
                &&& (d < 2 || d > 199) ==> spec_accepted_distance(measurement) is None
            },
            Err(_) => spec_accepted_distance(measurement) is None,
        },
{
}

/// The buzzer sounds exactly while the band's indicator is lit, at the
/// band's own tone: 1500 Hz for Notice, 1850 Hz for Caution, 2250 Hz for
/// Stop, never when the way is clear.
pub proof fn lemma_tone_follows_band(state: RenderState)
    ensures
        (state.band == AlertBand::Notice && state.blink_on) ==> spec_tone(state) == Some(1500u16),
        (state.band == AlertBand::Caution && state.blink_on) ==> spec_tone(state) == Some(1850u16),
        (state.band == AlertBand::Stop && state.blink_on) ==> spec_tone(state) == Some(2250u16),
        (state.band == AlertBand::Clear || !state.blink_on) ==> spec_tone(state) is None,
        spec_cadence(state.band) matches Some(c) ==> (state.blink_on ==> spec_tone(state) == Some(c.tone_hz)),
{
}

/// A filtered distance of 51 to 80 cm, planned in the lit part of its
/// blink, sounds 1500 Hz.
pub proof fn lemma_notice_distance_beeps(d: u16, now_ms: u32)
    requires
        51 <= d <= 80,
        spec_blink_on(AlertBand::Notice, now_ms),
    ensures
        spec_render_state(Some(d), now_ms).band == AlertBand::Notice,
        spec_tone(spec_render_state(Some(d), now_ms)) == Some(1500u16),
{
}

/// A jump of 18 cm or more, nearer or farther, is taken as is; a smaller
/// change moves the distance one third of the way toward the sample,
/// rounded to nearest; in every case the result lies between the previous
/// distance and the sample.
pub proof fn lemma_smoothing_rule(previous_cm: u16, sample_cm: u16)
    ensures
        (previous_cm >= sample_cm + 18 || sample_cm >= previous_cm + 18) ==> spec_smooth_distance(previous_cm, sample_cm)
            == sample_cm,
        (previous_cm < sample_cm + 18 && sample_cm < previous_cm + 18) ==> spec_smooth_distance(previous_cm, sample_cm)
            == (2 * previous_cm + sample_cm + 1) / 3,
        min_int(previous_cm as int, sample_cm as int) <= spec_smooth_distance(previous_cm, sample_cm) <= max_int(
            previous_cm as int,
            sample_cm as int,
        ),
{
}

/// The ten digits have the standard seven-segment shapes (bit 0 is segment
/// A through bit 6 for G), and no two digits share a shape.
pub proof fn lemma_digit_shapes(a: int, b: int)
    requires
        0 <= a < 10,
        0 <= b < 10,
    ensures
        spec_digit_segments(0) == 0x3Fu8,
        spec_digit_segments(1) == 0x06u8,
        spec_digit_segments(2) == 0x5Bu8,
        spec_digit_segments(3) == 0x4Fu8,
        spec_digit_segments(4) == 0x66u8,
        spec_digit_segments(5) == 0x6Du8,
        spec_digit_segments(6) == 0x7Du8,
        spec_digit_segments(7) == 0x07u8,
        spec_digit_segments(8) == 0x7Fu8,
        spec_digit_segments(9) == 0x6Fu8,
        a != b ==> spec_digit_segments(a) != spec_digit_segments(b),
{
    assert(SEGMENT_A | SEGMENT_B | SEGMENT_C | SEGMENT_D | SEGMENT_E | SEGMENT_F == 0x3Fu8) by (bit_vector);
    assert(SEGMENT_B | SEGMENT_C == 0x06u8) by (bit_vector);
    assert(SEGMENT_A | SEGMENT_B | SEGMENT_D | SEGMENT_E | SEGMENT_G == 0x5Bu8) by (bit_vector);
    assert(SEGMENT_A | SEGMENT_B | SEGMENT_C | SEGMENT_D | SEGMENT_G == 0x4Fu8) by (bit_vector);
    assert(SEGMENT_B | SEGMENT_C | SEGMENT_F | SEGMENT_G == 0x66u8) by (bit_vector);
    assert(SEGMENT_A | SEGMENT_C | SEGMENT_D | SEGMENT_F | SEGMENT_G == 0x6Du8) by (bit_vector);
    assert(SEGMENT_A | SEGMENT_C | SEGMENT_D | SEGMENT_E | SEGMENT_F | SEGMENT_G == 0x7Du8) by (bit_vector);
    assert(SEGMENT_A | SEGMENT_B | SEGMENT_C == 0x07u8) by (bit_vector);
    assert(SEGMENT_A | SEGMENT_B | SEGMENT_C | SEGMENT_D | SEGMENT_E | SEGMENT_F | SEGMENT_G == 0x7Fu8) by (bit_vector);
    assert(SEGMENT_A | SEGMENT_B | SEGMENT_C | SEGMENT_D | SEGMENT_F | SEGMENT_G == 0x6Fu8) by (bit_vector);
}

/// The alert bands by distance: up to 25 cm is Stop, 26 to 50 cm Caution,
/// 51 to 80 cm Notice, and farther or unknown is Clear; the shown distance
/// is the filtered one capped at 199 cm.
pub proof fn lemma_band_thresholds(d: u16)
    ensures
        d <= 25 ==> spec_band_from_distance(Some(d)) == AlertBand::Stop,
        26 <= d <= 50 ==> spec_band_from_distance(Some(d)) == AlertBand::Caution,
        51 <= d <= 80 ==> spec_band_from_distance(Some(d)) == AlertBand::Notice,
        d > 80 ==> spec_band_from_distance(Some(d)) == AlertBand::Clear,
        spec_band_from_distance(None) == AlertBand::Clear,
        spec_display_cm(Some(d)) == Some(if d <= 199 { d } else { 199u16 }),
        spec_display_cm(None) is None,
{
}

/// The blink of each band: Notice is lit the first 100 ms of every 600 ms,
/// Caution of every 350 ms, Stop of every 200 ms; Clear is always lit.
pub proof fn lemma_blink_timing(now_ms: u32)
    ensures
        spec_blink_on(AlertBand::Notice, now_ms) == ((now_ms as int) % 600 < 100),
        spec_blink_on(AlertBand::Caution, now_ms) == ((now_ms as int) % 350 < 100),
        spec_blink_on(AlertBand::Stop, now_ms) == ((now_ms as int) % 200 < 100),
        spec_blink_on(AlertBand::Clear, now_ms),
{
}

} // verus!
