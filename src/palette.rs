use vstd::prelude::*;

verus! {

/// A 24-bit pixel color.
#[derive(Clone, Copy, Debug, PartialEq, Eq, Structural)]
pub struct Color {
    pub r: u8,
    pub g: u8,
    pub b: u8,
}

/// Number of control points in the color table.
pub const STOP_COUNT: usize = 6;

/// Pure black, used for points inside the set.
pub open spec fn black() -> Color {
    Color { r: 0, g: 0, b: 0 }
}

/// Threshold (an escape step count) of control point `i`; thresholds descend.
pub open spec fn stop_threshold(i: int) -> u32 {
    if i == 0 {
        1024
    } else if i == 1 {
        256
    } else if i == 2 {
        192
    } else if i == 3 {
        128
    } else if i == 4 {
        64
    } else {
        0
    }
}

/// Color of control point `i`.
pub open spec fn stop_color(i: int) -> Color {
    if i == 0 {
        Color { r: 0, g: 0, b: 0 }
    } else if i == 1 {
        Color { r: 0, g: 0, b: 64 }
    } else if i == 2 {
        Color { r: 102, g: 0, b: 0 }
    } else if i == 3 {
        Color { r: 255, g: 0, b: 0 }
    } else if i == 4 {
        Color { r: 255, g: 165, b: 0 }
    } else {
        Color { r: 255, g: 255, b: 255 }
    }
}

/// Index of the first control point, scanning from `i` towards lower
/// thresholds, whose threshold is at most `v`; the last one if none is.
pub open spec fn stop_from(v: nat, i: int) -> int
    decreases STOP_COUNT - i,
{
    if i >= STOP_COUNT - 1 {
        STOP_COUNT - 1
    } else if stop_threshold(i) <= v {
        i
    } else {
        stop_from(v, i + 1)
    }
}

/// Index of the control point that an escape step `v` falls on or above.
pub open spec fn stop_index(v: nat) -> int {
    stop_from(v, 0)
}

/// Distance between two counts.
pub open spec fn gap(a: nat, b: nat) -> nat {
    if a >= b {
        (a - b) as nat
    } else {
        (b - a) as nat
    }
}

/// One channel interpolated between a lower and an upper control point:
/// the lower color is weighted by the distance to the upper threshold and
/// the upper color by the distance to the lower threshold.
pub open spec fn blend(prev_gap: nat, next_gap: nat, lower: u8, upper: u8) -> nat {
    ((prev_gap * lower + next_gap * upper) / ((prev_gap + next_gap) as int)) as nat
}

/// The color of a point that escaped at step `v`.
pub open spec fn escape_color(v: nat) -> Color {
    let i = stop_index(v);
    if i == 0 {
        black()
    } else {
        let prev_gap = gap(v, stop_threshold(i - 1) as nat);
        let next_gap = gap(v, stop_threshold(i) as nat);
        let lower = stop_color(i);
        let upper = stop_color(i - 1);
        if prev_gap + next_gap == 0 {
            lower
        } else {
            Color {
                r: blend(prev_gap, next_gap, lower.r, upper.r) as u8,
                g: blend(prev_gap, next_gap, lower.g, upper.g) as u8,
                b: blend(prev_gap, next_gap, lower.b, upper.b) as u8,
            }
        }
    }
}

/// The color of an escape result: `None` (the point stayed bounded) is black.
pub open spec fn result_color(result: Option<u16>) -> Color {
    match result {
        Some(v) => escape_color(v as nat),
        None => black(),
    }
}

/// Control point `i` of the color table: its threshold and its color.
pub fn color_stop(i: usize) -> (r: (u32, Color))
    requires
        i < STOP_COUNT,
    ensures
        r == (stop_threshold(i as int), stop_color(i as int)),
{
    match i {
        0 => (1024, Color { r: 0, g: 0, b: 0 }),
        1 => (256, Color { r: 0, g: 0, b: 64 }),
        2 => (192, Color { r: 102, g: 0, b: 0 }),
        3 => (128, Color { r: 255, g: 0, b: 0 }),
        4 => (64, Color { r: 255, g: 165, b: 0 }),
        _ => (0, Color { r: 255, g: 255, b: 255 }),
    }
}

/// Index of the control point that the escape step `value` falls on or above.
fn find_stop(value: u32) -> (i: usize)
    ensures
        i as int == stop_index(value as nat),
        i < STOP_COUNT,
{
    let mut i: usize = 0;
    while i < STOP_COUNT - 1 && color_stop(i).0 > value
        invariant
            i < STOP_COUNT,
            stop_from(value as nat, i as int) == stop_index(value as nat),
        decreases STOP_COUNT - i,
    {
        i = i + 1;
    }
    i
}

fn abs_diff(a: u32, b: u32) -> (r: u32)
    ensures
        r as nat == gap(a as nat, b as nat),
{
    if a >= b {
        a - b
    } else {
        b - a
    }
}

/// One interpolated channel, computed without overflow.
fn blend_channel(prev_gap: u32, next_gap: u32, lower: u8, upper: u8) -> (r: u8)
    requires
        prev_gap <= 2048,
        next_gap <= 2048,
        prev_gap + next_gap > 0,
    ensures
        r as nat == blend(prev_gap as nat, next_gap as nat, lower, upper),
{
    let total = prev_gap + next_gap;
    assert(prev_gap * (lower as u32) <= 2048 * 255) by (nonlinear_arith)
        requires
            prev_gap <= 2048,
            lower <= 255,
    ;
    assert(next_gap * (upper as u32) <= 2048 * 255) by (nonlinear_arith)
        requires
            next_gap <= 2048,
            upper <= 255,
    ;
    let sum = prev_gap * (lower as u32) + next_gap * (upper as u32);
    assert(sum / total <= 255) by (nonlinear_arith)
        requires
            sum == prev_gap * lower + next_gap * upper,
            lower <= 255,
            upper <= 255,
            total == prev_gap + next_gap,
            total > 0,
    {
        assert(sum <= 255 * total);
    }
    (sum / total) as u8
}

/// Maps the step at which a point escaped to its color by interpolating
/// between the two control points around it. A step at or above the highest
/// threshold is black.
pub fn map_iterations_to_pixel(value: u16) -> (r: Color)
    ensures
        r == escape_color(value as nat),
{
    let v = value as u32;
    let index = find_stop(v);
    if index == 0 {
        return Color { r: 0, g: 0, b: 0 };
    }
    let (lower_threshold, lower) = color_stop(index);
    let (upper_threshold, upper) = color_stop(index - 1);
    let diff_from_prev = abs_diff(v, upper_threshold);
    let diff_from_next = abs_diff(v, lower_threshold);
    if diff_from_prev + diff_from_next == 0 {
        return lower;
    }
    Color {
        r: blend_channel(diff_from_prev, diff_from_next, lower.r, upper.r),
        g: blend_channel(diff_from_prev, diff_from_next, lower.g, upper.g),
        b: blend_channel(diff_from_prev, diff_from_next, lower.b, upper.b),
    }
}

/// The color of an escape result; a bounded point (`None`) is black.
pub fn color_for(result: Option<u16>) -> (r: Color)
    ensures
        r == result_color(result),
        result is None ==> r == black(),
{
    match result {
        Some(v) => map_iterations_to_pixel(v),
        None => Color { r: 0, g: 0, b: 0 },
    }
}

} // verus!
