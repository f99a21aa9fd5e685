use vstd::prelude::*;

verus! {

pub open spec fn abs_diff(a: int, b: int) -> int {
    if a <= b {
        b - a
    } else {
        a - b
    }
}

/// How many unit steps separate `v` from `start` when walking toward `end`.
pub open spec fn step_from(start: int, end: int, v: int) -> int {
    if start < end {
        v - start
    } else {
        start - v
    }
}

/// The coordinate reached from `start` after `amount` unit steps toward `end`.
pub open spec fn advance(start: int, end: int, amount: int) -> int {
    if start < end {
        start + amount
    } else {
        start - amount
    }
}

/// Minor-axis offset after `step` major-axis steps: `minor_delta * step / major_delta`
/// rounded half up.
pub open spec fn line_minor_offset(minor_delta: int, step: int, major_delta: int) -> int {
    (2 * minor_delta * step + major_delta) / (2 * major_delta)
}

/// `(px, py)` is one of the pixels of the rasterized segment from `(x0, y0)` to `(x1, y1)`:
/// one pixel per step along the longer axis, the shorter axis rounded to nearest.
pub open spec fn on_line(px: int, py: int, x0: int, y0: int, x1: int, y1: int) -> bool {
    let dx = abs_diff(x0, x1);
    let dy = abs_diff(y0, y1);
    if dx == 0 && dy == 0 {
        px == x0 && py == y0
    } else if dx >= dy {
        let s = step_from(x0, x1, px);
        0 <= s <= dx && py == advance(y0, y1, line_minor_offset(dy, s, dx))
    } else {
        let s = step_from(y0, y1, py);
        0 <= s <= dy && px == advance(x0, x1, line_minor_offset(dx, s, dy))
    }
}

/// A step `s` of a walk from `start` toward `end` lands on a coordinate in `[0, limit)`.
pub open spec fn visible_step(start: int, end: int, limit: int, s: int) -> bool {
    0 <= s <= abs_diff(start, end) && 0 <= (if start <= end {
        start + s
    } else {
        start - s
    }) < limit
}

pub proof fn lemma_minor_offset_bounds(minor_delta: int, step: int, major_delta: int)
    requires
        0 < major_delta,
        0 <= step <= major_delta,
        0 <= minor_delta <= major_delta,
    ensures
        0 <= line_minor_offset(minor_delta, step, major_delta) <= minor_delta,
{
    let n = 2 * minor_delta * step + major_delta;
    let d = 2 * major_delta;
    assert(0 <= minor_delta * step <= minor_delta * major_delta) by (nonlinear_arith)
        requires
            0 <= step <= major_delta,
            0 <= minor_delta,
    ;
    assert(n < d * (minor_delta + 1)) by (nonlinear_arith)
        requires
            n == 2 * minor_delta * step + major_delta,
            d == 2 * major_delta,
            minor_delta * step <= minor_delta * major_delta,
            0 < major_delta,
    ;
    assert(0 <= n / d < minor_delta + 1) by (nonlinear_arith)
        requires
            0 <= n,
            0 < d,
            n < d * (minor_delta + 1),
    ;
}

/// The first and last steps of a walk from `start` to `end` whose coordinate lies in
/// `[0, limit)`, or `None` when no step does.
pub fn visible_major_steps(start: i64, end: i64, limit: u32) -> (steps: Option<(i64, i64)>)
    requires
        i32::MIN <= start <= i32::MAX,
        i32::MIN <= end <= i32::MAX,
    ensures
        steps is None ==> forall|s: int| !visible_step(start as int, end as int, limit as int, s),
        steps matches Some(b) ==> forall|s: int|
            visible_step(start as int, end as int, limit as int, s) <==> b.0 <= s <= b.1,
        steps matches Some(b) ==> 0 <= b.0 <= b.1 <= abs_diff(start as int, end as int),
{
    if limit == 0 {
        return None;
    }
    let total = if end >= start { end - start } else { start - end };
    let max_coordinate = limit as i64 - 1;
    let (first_step, last_step) = if start <= end {
        (
            if -start > 0 { -start } else { 0 },
            if max_coordinate - start < total { max_coordinate - start } else { total },
        )
    } else {
        (
            if start - max_coordinate > 0 { start - max_coordinate } else { 0 },
            if start < total { start } else { total },
        )
    };
    if first_step <= last_step {
        Some((first_step, last_step))
    } else {
        None
    }
}

/// `minor_delta * major_step / major_delta`, rounded half up, computed exactly.
pub fn rounded_minor_step(minor_delta: i64, major_step: i64, major_delta: i64) -> (offset: i64)
    requires
        0 < major_delta <= 0x2_0000_0000,
        0 <= major_step <= major_delta,
        0 <= minor_delta <= major_delta,
    ensures
        offset == line_minor_offset(minor_delta as int, major_step as int, major_delta as int),
        0 <= offset <= minor_delta,
{
    proof {
        lemma_minor_offset_bounds(minor_delta as int, major_step as int, major_delta as int);
        assert(minor_delta * major_step <= 0x2_0000_0000 * 0x2_0000_0000) by (nonlinear_arith)
            requires
                0 <= minor_delta <= 0x2_0000_0000,
                0 <= major_step <= 0x2_0000_0000,
        ;
    }
    let product = (minor_delta as i128) * (major_step as i128);
    let numerator = 2 * product + major_delta as i128;
    let denominator = 2 * (major_delta as i128);
    assert(2 * minor_delta * major_step == 2 * (minor_delta * major_step)) by (nonlinear_arith);
    let quotient = numerator / denominator;
    assert(quotient == line_minor_offset(minor_delta as int, major_step as int, major_delta as int));
    quotient as i64
}

} // verus!
