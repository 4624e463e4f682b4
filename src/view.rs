//! The view over the complex plane and how pointer and wheel input move it.
//!
//! Every coordinate, offset and factor here is a fixed-point number (see `fixed`).
use vstd::prelude::*;
use vstd::arithmetic::div_mod::{lemma_fundamental_div_mod, lemma_mod_pos_bound, lemma_div_pos_is_pos};
use crate::escape::{escape_time, escape_time_of};
use crate::fixed::{ONE, trunc_div, fits_i64, div_toward_zero, lemma_trunc_div_bound};

verus! {

/// The fewest iterations the escape-time evaluation may be given.
pub const MIN_ITERATIONS: i32 = 2;
/// The iteration cap of a fresh or reset view.
pub const DEFAULT_ITERATIONS: i32 = 64;
/// The real part of the centre of a fresh or reset view, -0.4.
pub const DEFAULT_CENTER_X: i64 = -6710886;
/// The zoom of a fresh or reset view, 0.4.
pub const DEFAULT_SCALE: i64 = 6710886;
/// How much one unit of vertical wheel motion changes the zoom, 0.05.
pub const ZOOM_STEP: i64 = 838861;
/// Horizontal wheel motion smaller than this in magnitude, 0.05, leaves the iteration cap alone.
pub const ITERATION_SCROLL_THRESHOLD: i64 = 838861;
/// The secondary point moves this many times slower than the pointer.
pub const START_DIVISOR: i64 = 4;

/// What the fractal shader is drawn from.
#[derive(Clone, Copy, Debug, PartialEq, Eq)]
pub struct ViewState {
    /// The point of the complex plane at the middle of the viewport.
    pub center_x: i64,
    pub center_y: i64,
    /// The secondary point, handed to the shader beside the view; the escape-time
    /// evaluation of `escape` always iterates from 0 and does not read it.
    pub start_x: i64,
    pub start_y: i64,
    /// The zoom: how many viewport half-heights one unit of the plane spans.
    pub scale: i64,
    /// The viewport's width over its height.
    pub aspect: i64,
    /// The iteration cap of the escape-time evaluation.
    pub iterations: i32,
}

/// The iteration cap moves by this much for a horizontal wheel motion `x`.
pub open spec fn iteration_step_of(x: int) -> int {
    if -ITERATION_SCROLL_THRESHOLD < x < ITERATION_SCROLL_THRESHOLD {
        0
    } else if x > 0 {
        1
    } else {
        -1
    }
}

/// The iteration cap after a horizontal wheel motion `x`: moved by one step, at least
/// `MIN_ITERATIONS`, and held at the largest `i32`.
pub open spec fn next_iterations(iterations: int, x: int) -> int {
    let moved = iterations + iteration_step_of(x);
    let held = if moved > i32::MAX { i32::MAX as int } else { moved };
    if held < MIN_ITERATIONS { MIN_ITERATIONS as int } else { held }
}

/// How far the centre moves, against the motion, when the pointer is dragged by
/// `delta` on a viewport `height` high at zoom `scale`. Both axes are measured
/// against the height, so a drag moves the picture the same way horizontally and
/// vertically.
pub open spec fn pan_shift(delta: int, height: int, scale: int) -> int {
    trunc_div(delta * ONE * ONE, height * scale)
}

/// How far the secondary point moves, against the motion, for a drag by `delta`
/// on a viewport `height` high; it does not depend on the zoom.
pub open spec fn start_shift(delta: int, height: int) -> int {
    trunc_div(delta * ONE, height * START_DIVISOR)
}

/// The relative zoom change asked for by a vertical wheel motion `y`.
pub open spec fn zoom_amount(y: int) -> int {
    trunc_div(y * ZOOM_STEP, ONE as int)
}

/// `s` multiplied by the fixed-point factor `f`.
pub open spec fn scaled(s: int, f: int) -> int {
    trunc_div(s * f, ONE as int)
}

/// How far the centre moves toward a pointer at `pointer` (one axis) when a zoom
/// by `amount` is applied at zoom `scale`, so that the picture zooms toward the pointer.
pub open spec fn pivot_shift(pointer: int, amount: int, scale: int) -> int {
    trunc_div(pointer * amount, 2 * scale)
}

/// Whether a drag by `(dx, dy)` on a viewport `h` high can move `v`: the height is
/// positive and the new centre can be held.
pub open spec fn drag_fits(v: ViewState, dx: int, dy: int, h: int) -> bool {
    &&& h > 0
    &&& fits_i64(v.center_x - pan_shift(dx, h, v.scale as int))
    &&& fits_i64(v.center_y - pan_shift(dy, h, v.scale as int))
}

/// `v` after a drag by `(dx, dy)` on a viewport `h` high: the centre moves against
/// the motion and nothing else changes.
pub open spec fn dragged(v: ViewState, dx: int, dy: int, h: int) -> ViewState {
    ViewState {
        center_x: (v.center_x - pan_shift(dx, h, v.scale as int)) as i64,
        center_y: (v.center_y - pan_shift(dy, h, v.scale as int)) as i64,
        ..v
    }
}

/// Whether a drag by `(dx, dy)` on a viewport `h` high can move the secondary point.
pub open spec fn start_drag_fits(v: ViewState, dx: int, dy: int, h: int) -> bool {
    &&& h > 0
    &&& fits_i64(v.start_x - start_shift(dx, h))
    &&& fits_i64(v.start_y - start_shift(dy, h))
}

/// `v` after the secondary point is dragged by `(dx, dy)` on a viewport `h` high.
pub open spec fn start_dragged(v: ViewState, dx: int, dy: int, h: int) -> ViewState {
    ViewState {
        start_x: (v.start_x - start_shift(dx, h)) as i64,
        start_y: (v.start_y - start_shift(dy, h)) as i64,
        ..v
    }
}

/// Whether a vertical wheel motion `y` with the pointer at `(px, py)` can zoom `v`: the
/// new zoom stays positive and the new zoom and centre can be held.
pub open spec fn zoom_fits(v: ViewState, y: int, px: int, py: int) -> bool {
    let amount = zoom_amount(y);
    let s = v.scale as int;
    &&& scaled(s, ONE + amount) > 0
    &&& fits_i64(scaled(s, ONE + amount))
    &&& fits_i64(v.center_x + pivot_shift(px, amount, s))
    &&& fits_i64(v.center_y - pivot_shift(py, amount, s))
}

/// `v` zoomed by the factor `1 + zoom_amount(y)` toward the pointer at `(px, py)`; the
/// centre shift uses the zoom before the step.
pub open spec fn zoomed_view(v: ViewState, y: int, px: int, py: int) -> ViewState {
    let amount = zoom_amount(y);
    let s = v.scale as int;
    ViewState {
        center_x: (v.center_x + pivot_shift(px, amount, s)) as i64,
        center_y: (v.center_y - pivot_shift(py, amount, s)) as i64,
        scale: scaled(s, ONE + amount) as i64,
        ..v
    }
}

impl ViewState {
    /// A view the methods below accept: a positive zoom and an iteration cap of at least two.
    pub open spec fn wf(&self) -> bool {
        self.scale > 0 && self.iterations >= MIN_ITERATIONS
    }

    /// The view shown at start-up.
    pub fn new() -> (v: ViewState)
        ensures
            v.wf(),
            v.center_x == DEFAULT_CENTER_X,
            v.center_y == 0,
            v.start_x == 0,
            v.start_y == 0,
            v.scale == DEFAULT_SCALE,
            v.aspect == ONE,
            v.iterations == DEFAULT_ITERATIONS,
    {
        ViewState {
            center_x: DEFAULT_CENTER_X,
            center_y: 0,
            start_x: 0,
            start_y: 0,
            scale: DEFAULT_SCALE,
            aspect: ONE,
            iterations: DEFAULT_ITERATIONS,
        }
    }

    /// Restores centre, zoom and iteration cap; the secondary point and aspect stay.
    pub fn reset_view(&mut self)
        ensures
            final(self).wf(),
            final(self).center_x == DEFAULT_CENTER_X,
            final(self).center_y == 0,
            final(self).scale == DEFAULT_SCALE,
            final(self).iterations == DEFAULT_ITERATIONS,
            final(self).start_x == old(self).start_x,
            final(self).start_y == old(self).start_y,
            final(self).aspect == old(self).aspect,
    {
        self.center_x = DEFAULT_CENTER_X;
        self.center_y = 0;
        self.scale = DEFAULT_SCALE;
        self.iterations = DEFAULT_ITERATIONS;
    }

    /// Moves the secondary point back to the origin; nothing else changes.
    pub fn reset_start(&mut self)
        ensures
            *final(self) == (ViewState { start_x: 0, start_y: 0, ..*old(self) }),
    {
        self.start_x = 0;
        self.start_y = 0;
    }

    /// Changes the iteration cap by one in the direction of a horizontal wheel motion
    /// `x`, unless the motion is too small; the cap never goes below `MIN_ITERATIONS`.
    pub fn change_iterations(&mut self, x: i64)
        requires
            old(self).wf(),
        ensures
            final(self).wf(),
            final(self).iterations == next_iterations(old(self).iterations as int, x as int),
            *final(self) == (ViewState { iterations: final(self).iterations, ..*old(self) }),
    {
        let step: i32 = iteration_step(x);
        let moved: i32 = if step > 0 && self.iterations == i32::MAX {
            i32::MAX
        } else {
            self.iterations + step
        };
        self.iterations = if moved < MIN_ITERATIONS { MIN_ITERATIONS } else { moved };
    }

    /// Pans the view for a drag by `(delta_x, delta_y)` on a viewport `height` high.
    /// The view moves only when the height is positive and the new centre can be held.
    pub fn drag(&mut self, delta_x: i64, delta_y: i64, height: i64) -> (moved: bool)
        requires
            old(self).wf(),
        ensures
            final(self).wf(),
            moved == drag_fits(*old(self), delta_x as int, delta_y as int, height as int),
            moved ==> *final(self) == dragged(*old(self), delta_x as int, delta_y as int, height as int),
            !moved ==> *final(self) == *old(self),
    {
        if height <= 0 {
            return false;
        }
        let den: i128 = shift_denominator(height, self.scale);
        let nx = shifted(self.center_x, delta_x, den);
        let ny = shifted(self.center_y, delta_y, den);
        if nx < i64::MIN as i128 || nx > i64::MAX as i128 || ny < i64::MIN as i128 || ny
            > i64::MAX as i128 {
            return false;
        }
        self.center_x = nx as i64;
        self.center_y = ny as i64;
        true
    }

    /// Moves the secondary point for a drag by `(delta_x, delta_y)` on a viewport
    /// `height` high. It moves only when the height is positive and the new point can
    /// be held.
    pub fn drag_start(&mut self, delta_x: i64, delta_y: i64, height: i64) -> (moved: bool)
        requires
            old(self).wf(),
        ensures
            final(self).wf(),
            moved == start_drag_fits(*old(self), delta_x as int, delta_y as int, height as int),
            moved ==> *final(self) == start_dragged(
                *old(self),
                delta_x as int,
                delta_y as int,
                height as int,
            ),
            !moved ==> *final(self) == *old(self),
    {
        if height <= 0 {
            return false;
        }
        assert(0 < height * START_DIVISOR <= i64::MAX * 4) by (nonlinear_arith)
            requires
                0 < height <= i64::MAX,
                START_DIVISOR == 4,
        ;
        let den: i128 = height as i128 * START_DIVISOR as i128;
        let nx = start_shifted(self.start_x, delta_x, den);
        let ny = start_shifted(self.start_y, delta_y, den);
        if nx < i64::MIN as i128 || nx > i64::MAX as i128 || ny < i64::MIN as i128 || ny
            > i64::MAX as i128 {
            return false;
        }
        self.start_x = nx as i64;
        self.start_y = ny as i64;
        true
    }

    /// Zooms by the factor `1 + zoom_amount(wheel_y)` toward the pointer at
    /// `(pointer_x, pointer_y)`. The view changes only when the new zoom stays
    /// positive and the new zoom and centre can be held.
    pub fn zoom(&mut self, wheel_y: i64, pointer_x: i64, pointer_y: i64) -> (zoomed: bool)
        requires
            old(self).wf(),
        ensures
            final(self).wf(),
            zoomed == zoom_fits(*old(self), wheel_y as int, pointer_x as int, pointer_y as int),
            zoomed ==> *final(self) == zoomed_view(
                *old(self),
                wheel_y as int,
                pointer_x as int,
                pointer_y as int,
            ),
            !zoomed ==> *final(self) == *old(self),
    {
        let amount = zoom_amount_of(wheel_y);
        let twice_scale: i128 = 2 * self.scale as i128;
        let factor: i128 = ONE as i128 + amount;
        let ns = mul_div(self.scale as i128, factor, ONE as i128);
        let nx = self.center_x as i128 + mul_div(pointer_x as i128, amount, twice_scale);
        let ny = self.center_y as i128 - mul_div(pointer_y as i128, amount, twice_scale);
        if ns <= 0 || ns > i64::MAX as i128 || nx < i64::MIN as i128 || nx > i64::MAX as i128
            || ny < i64::MIN as i128 || ny > i64::MAX as i128 {
            return false;
        }
        self.scale = ns as i64;
        self.center_x = nx as i64;
        self.center_y = ny as i64;
        true
    }
}

/// `coord - start_shift(delta, ..)` for the divisor `den`, `height * START_DIVISOR`.
fn start_shifted(coord: i64, delta: i64, den: i128) -> (r: i128)
    requires
        den > 0,
    ensures
        r == coord - trunc_div(delta * ONE, den as int),
{
    proof {
        let bound: int = 0x80_0000_0000_0000_0000_0000int;
        assert(-bound <= delta * ONE <= bound) by (nonlinear_arith)
            requires
                i64::MIN <= delta <= i64::MAX,
                ONE == 16777216,
                bound == 0x80_0000_0000_0000_0000_0000int,
        ;
        lemma_trunc_div_bound(delta * ONE, den as int, bound);
    }
    let s = div_toward_zero(delta as i128 * ONE as i128, den);
    coord as i128 - s
}

/// The largest magnitude of a zoom amount.
pub open spec fn amount_bound() -> int {
    0x800_0000_0000_0000int
}

/// `zoom_amount(y)`, which never exceeds `amount_bound()` in magnitude.
fn zoom_amount_of(y: i64) -> (r: i128)
    ensures
        r == zoom_amount(y as int),
        -amount_bound() <= r <= amount_bound(),
{
    proof {
        let bound: int = 0x8_0000_0000_0000_0000_0000int;
        assert(-bound <= y * ZOOM_STEP <= bound) by (nonlinear_arith)
            requires
                i64::MIN <= y <= i64::MAX,
                ZOOM_STEP == 838861,
                bound == 0x8_0000_0000_0000_0000_0000int,
        ;
        lemma_trunc_div_bound(y * ZOOM_STEP, ONE as int, bound);
        assert(bound / (ONE as int) == amount_bound());
    }
    div_toward_zero(y as i128 * ZOOM_STEP as i128, ONE as i128)
}

/// `trunc_div(a * b, den)` for operands small enough to multiply in an `i128`.
fn mul_div(a: i128, b: i128, den: i128) -> (r: i128)
    requires
        -0x8000_0000_0000_0000 <= a <= 0x8000_0000_0000_0000,
        -2 * amount_bound() <= b <= 2 * amount_bound(),
        den > 0,
    ensures
        r == trunc_div(a * b, den as int),
        -0x800_0000_0000_0000_0000_0000_0000_0000 <= r <= 0x800_0000_0000_0000_0000_0000_0000_0000,
{
    proof {
        let bound: int = 0x800_0000_0000_0000_0000_0000_0000_0000int;
        crate::fixed::lemma_mul_bound(
            a as int,
            b as int,
            0x8000_0000_0000_0000int,
            0x1000_0000_0000_0000int,
        );
        assert(0x8000_0000_0000_0000int * 0x1000_0000_0000_0000int == bound);
        lemma_trunc_div_bound(a * b, den as int, bound);
    }
    div_toward_zero(a * b, den)
}

/// `height * scale`, the divisor of a pan.
fn shift_denominator(height: i64, scale: i64) -> (r: i128)
    requires
        height > 0,
        scale > 0,
    ensures
        r == height * scale,
        r > 0,
{
    proof {
        assert(0 < height * scale <= i64::MAX * i64::MAX) by (nonlinear_arith)
            requires
                0 < height <= i64::MAX,
                0 < scale <= i64::MAX,
        ;
    }
    height as i128 * scale as i128
}

/// `coord - pan_shift(delta, ..)` for the divisor `den` that `shift_denominator` gives.
fn shifted(coord: i64, delta: i64, den: i128) -> (r: i128)
    requires
        den > 0,
    ensures
        r == coord - trunc_div(delta * ONE * ONE, den as int),
{
    let one_sq: i128 = ONE as i128 * ONE as i128;
    proof {
        let bound: int = 0x8000_0000_0000_0000_0000_0000_0000int;
        assert(delta * one_sq == delta * ONE * ONE && -bound <= delta * one_sq <= bound)
            by (nonlinear_arith)
            requires
                i64::MIN <= delta <= i64::MAX,
                one_sq == ONE * ONE,
                ONE == 16777216,
                bound == 0x8000_0000_0000_0000_0000_0000_0000int,
        ;
        lemma_trunc_div_bound(delta * ONE * ONE, den as int, bound);
    }
    let s = div_toward_zero(delta as i128 * one_sq, den);
    coord as i128 - s
}

/// A pan followed by the pan of the opposite motion, on the same viewport and at the
/// same zoom, brings the centre back exactly where it was.
pub proof fn lemma_pan_inverse(center: int, delta: int, height: int, scale: int)
    requires
        height > 0,
        scale > 0,
    ensures
        center - pan_shift(delta, height, scale) - pan_shift(-delta, height, scale) == center,
{
    assert(height * scale > 0) by (nonlinear_arith)
        requires
            height > 0,
            scale > 0,
    ;
    assert((-delta) * ONE * ONE == -(delta * ONE * ONE)) by (nonlinear_arith);
    crate::fixed::lemma_trunc_div_neg(delta * ONE * ONE, height * scale);
}

/// Moving the secondary point by a drag and then by the opposite drag, on the same
/// viewport, brings it back exactly where it was.
pub proof fn lemma_start_inverse(start: int, delta: int, height: int)
    requires
        height > 0,
    ensures
        start - start_shift(delta, height) - start_shift(-delta, height) == start,
{
    assert((-delta) * ONE == -(delta * ONE)) by (nonlinear_arith);
    crate::fixed::lemma_trunc_div_neg(delta * ONE, height * START_DIVISOR);
}

/// A drag followed by the drag of the opposite motion, on the same viewport, is always
/// possible once the first was, and brings the view back exactly where it was.
pub proof fn lemma_drag_round_trip(v: ViewState, dx: int, dy: int, h: int)
    requires
        v.wf(),
        drag_fits(v, dx, dy, h),
    ensures
        drag_fits(dragged(v, dx, dy, h), -dx, -dy, h),
        dragged(dragged(v, dx, dy, h), -dx, -dy, h) == v,
{
    lemma_pan_inverse(v.center_x as int, dx, h, v.scale as int);
    lemma_pan_inverse(v.center_y as int, dy, h, v.scale as int);
}

/// Dragging the secondary point and then dragging it by the opposite motion, on the
/// same viewport, is always possible once the first was, and brings it back exactly.
pub proof fn lemma_start_drag_round_trip(v: ViewState, dx: int, dy: int, h: int)
    requires
        start_drag_fits(v, dx, dy, h),
    ensures
        start_drag_fits(start_dragged(v, dx, dy, h), -dx, -dy, h),
        start_dragged(start_dragged(v, dx, dy, h), -dx, -dy, h) == v,
{
    lemma_start_inverse(v.start_x as int, dx, h);
    lemma_start_inverse(v.start_y as int, dy, h);
}

/// Zooming by the wheel motion `y1` and then by a motion `y2` whose factor is the
/// fixed-point reciprocal of the first, rounded down, gives back the zoom up to
/// rounding, wherever the pointer stands: never more than it was, and less by under
/// `s * f / ONE^2 + g / ONE + 1` for the factors `f` and `g`.
pub proof fn lemma_zoom_wheel_round_trip(v: ViewState, y1: int, y2: int, px: int, py: int)
    requires
        v.wf(),
        zoom_fits(v, y1, px, py),
        zoom_fits(zoomed_view(v, y1, px, py), y2, px, py),
        ONE + zoom_amount(y1) > 0,
        ONE + zoom_amount(y2) == (ONE * ONE) / (ONE + zoom_amount(y1)),
    ensures
        ({
            let s = v.scale as int;
            let f = ONE + zoom_amount(y1);
            let g = ONE + zoom_amount(y2);
            let back = zoomed_view(zoomed_view(v, y1, px, py), y2, px, py).scale as int;
            back <= s && (s - back) * ONE * ONE < s * f + g * ONE + ONE * ONE
        }),
{
    lemma_zoom_round_trip(v.scale as int, ONE + zoom_amount(y1), ONE + zoom_amount(y2));
}

/// Multiplying a positive zoom by a factor `f` and then by `g`, the fixed-point
/// reciprocal of `f` rounded down, gives back the zoom up to rounding: never more
/// than it was, and less by under `s * f / ONE^2 + g / ONE + 1`.
pub proof fn lemma_zoom_round_trip(s: int, f: int, g: int)
    requires
        s > 0,
        f > 0,
        g == (ONE * ONE) / f,
    ensures
        scaled(scaled(s, f), g) <= s,
        (s - scaled(scaled(s, f), g)) * ONE * ONE < s * f + g * ONE + ONE * ONE,
{
    let k = ONE as int;
    assert(s * f > 0) by (nonlinear_arith)
        requires
            s > 0,
            f > 0,
    ;
    lemma_div_pos_is_pos(k * k, f);
    lemma_div_pos_is_pos(s * f, k);
    let s1 = (s * f) / k;
    let r1 = (s * f) % k;
    lemma_fundamental_div_mod(s * f, k);
    lemma_mod_pos_bound(s * f, k);
    let r0 = (k * k) % f;
    lemma_fundamental_div_mod(k * k, f);
    lemma_mod_pos_bound(k * k, f);
    assert(s1 * g >= 0) by (nonlinear_arith)
        requires
            s1 >= 0,
            g >= 0,
    ;
    lemma_div_pos_is_pos(s1 * g, k);
    let s2 = (s1 * g) / k;
    let r2 = (s1 * g) % k;
    lemma_fundamental_div_mod(s1 * g, k);
    lemma_mod_pos_bound(s1 * g, k);
    assert(scaled(s, f) == s1);
    assert(scaled(s1, g) == s2);
    assert(k * k * s2 == k * s1 * g - k * r2) by (nonlinear_arith)
        requires
            s1 * g == k * s2 + r2,
    ;
    assert(k * s1 * g == s * f * g - r1 * g) by (nonlinear_arith)
        requires
            s * f == k * s1 + r1,
    ;
    assert(s * f * g == s * k * k - s * r0) by (nonlinear_arith)
        requires
            k * k == f * g + r0,
    ;
    assert(0 <= r1 * g <= k * g) by (nonlinear_arith)
        requires
            0 <= r1 < k,
            g >= 0,
    ;
    assert(0 <= s * r0 < s * f) by (nonlinear_arith)
        requires
            0 <= r0 < f,
            s > 0,
    ;
    assert(0 <= k * r2 < k * k) by (nonlinear_arith)
        requires
            0 <= r2 < k,
            k > 0,
    ;
    assert(s2 <= s && (s - s2) * k * k < s * f + g * k + k * k) by (nonlinear_arith)
        requires
            k * k * s2 == k * s1 * g - k * r2,
            k * s1 * g == s * f * g - r1 * g,
            s * f * g == s * k * k - s * r0,
            0 <= r1 * g <= k * g,
            0 <= s * r0 < s * f,
            0 <= k * r2 < k * k,
            k > 0,
    ;
}

/// The viewport as last reported, in fixed-point pixels.
#[derive(Clone, Copy, Debug, PartialEq, Eq)]
pub struct Screen {
    pub width: i64,
    pub height: i64,
    pub aspect: i64,
}

/// Width over height, in fixed point.
pub open spec fn aspect_of(width: int, height: int) -> int {
    trunc_div(width * ONE, height)
}

/// One coordinate of the pointer at `pos` on a viewport axis `extent` long, scaled so
/// that the viewport's height spans -1 to 1: `(pos / extent - 1/2) * 2 * extent / height`.
pub open spec fn pointer_coord(pos: int, extent: int, height: int) -> int {
    trunc_div((2 * pos - extent) * ONE, height)
}

/// The pointer in the coordinates that zooming pivots on.
#[derive(Clone, Copy, Debug, PartialEq, Eq)]
pub struct PointerPos {
    pub x: i64,
    pub y: i64,
}

impl Screen {
    /// A screen with a positive height; the width may be zero.
    pub open spec fn wf(&self) -> bool {
        self.width >= 0 && self.height > 0
    }

    /// The screen assumed before the first resize: one pixel by one.
    pub fn new() -> (s: Screen)
        ensures
            s.wf(),
            s.width == ONE,
            s.height == ONE,
            s.aspect == ONE,
    {
        Screen { width: ONE, height: ONE, aspect: ONE }
    }

    /// Where a pointer at `(x, y)` pixels from the top left corner stands in the
    /// coordinates that zooming pivots on: the viewport's height spans -1 to 1 and the
    /// centre is the origin. `None` where that position cannot be held.
    pub fn pointer_position(&self, x: i64, y: i64) -> (r: Option<PointerPos>)
        requires
            self.wf(),
        ensures
            r is Some == (fits_i64(pointer_coord(x as int, self.width as int, self.height as int))
                && fits_i64(pointer_coord(y as int, self.height as int, self.height as int))),
            r matches Some(p) ==> p.x == pointer_coord(
                x as int,
                self.width as int,
                self.height as int,
            ) && p.y == pointer_coord(y as int, self.height as int, self.height as int),
    {
        let px = pointer_coord_of(x, self.width, self.height);
        let py = pointer_coord_of(y, self.height, self.height);
        if px < i64::MIN as i128 || px > i64::MAX as i128 || py < i64::MIN as i128 || py
            > i64::MAX as i128 {
            None
        } else {
            Some(PointerPos { x: px as i64, y: py as i64 })
        }
    }
}

/// `pointer_coord(pos, extent, height)`.
fn pointer_coord_of(pos: i64, extent: i64, height: i64) -> (r: i128)
    requires
        height > 0,
    ensures
        r == pointer_coord(pos as int, extent as int, height as int),
{
    proof {
        let bound: int = 0x400_0000_0000_0000_0000_0000int;
        assert(-bound <= (2 * pos - extent) * ONE <= bound) by (nonlinear_arith)
            requires
                i64::MIN <= pos <= i64::MAX,
                i64::MIN <= extent <= i64::MAX,
                ONE == 16777216,
                bound == 0x400_0000_0000_0000_0000_0000int,
        ;
        lemma_trunc_div_bound((2 * pos - extent) * ONE, height as int, bound);
    }
    div_toward_zero((2 * pos as i128 - extent as i128) * ONE as i128, height as i128)
}

/// Takes a new viewport size: the screen and the view's aspect follow it. A size with
/// no height or a negative width, or whose aspect cannot be held, is ignored.
pub fn window_resized(
    view: &mut ViewState,
    screen: &mut Screen,
    width: i64,
    height: i64,
) -> (accepted: bool)
    requires
        old(view).wf(),
        old(screen).wf(),
    ensures
        final(view).wf(),
        final(screen).wf(),
        accepted == (width >= 0 && height > 0 && fits_i64(aspect_of(width as int, height as int))),
        accepted ==> final(screen).width == width && final(screen).height == height
            && final(screen).aspect == aspect_of(width as int, height as int),
        accepted ==> *final(view) == (ViewState { aspect: final(screen).aspect, ..*old(view) }),
        !accepted ==> *final(view) == *old(view) && *final(screen) == *old(screen),
{
    if width < 0 || height <= 0 {
        return false;
    }
    proof {
        let bound: int = 0x80_0000_0000_0000_0000_0000int;
        assert(0 <= width * ONE <= bound) by (nonlinear_arith)
            requires
                0 <= width <= i64::MAX,
                ONE == 16777216,
                bound == 0x80_0000_0000_0000_0000_0000int,
        ;
        lemma_trunc_div_bound(width * ONE, height as int, bound);
    }
    let aspect = div_toward_zero(width as i128 * ONE as i128, height as i128);
    if aspect > i64::MAX as i128 {
        return false;
    }
    proof {
        vstd::arithmetic::div_mod::lemma_div_pos_is_pos(width * ONE, height as int);
    }
    screen.width = width;
    screen.height = height;
    screen.aspect = aspect as i64;
    view.aspect = aspect as i64;
    true
}

/// A point of the complex plane, in fixed point.
#[derive(Clone, Copy, Debug, PartialEq, Eq)]
pub struct PlanePoint {
    pub re: i64,
    pub im: i64,
}

/// The real part of the point of the plane under the viewport position `px` (as
/// `Screen::pointer_position` gives it): one viewport half-height spans `1 / (2 * scale)`.
pub open spec fn plane_re(v: ViewState, px: int) -> int {
    v.center_x + trunc_div(px * ONE, 2 * v.scale)
}

/// The imaginary part of the point under the viewport position `py`; the viewport's
/// y axis points down, the plane's up.
pub open spec fn plane_im(v: ViewState, py: int) -> int {
    v.center_y - trunc_div(py * ONE, 2 * v.scale)
}

impl ViewState {
    /// The point of the complex plane shown at viewport position `p`; `None` where it
    /// cannot be held.
    pub fn point_at(&self, p: PointerPos) -> (r: Option<PlanePoint>)
        requires
            self.wf(),
        ensures
            r is Some == (fits_i64(plane_re(*self, p.x as int)) && fits_i64(
                plane_im(*self, p.y as int),
            )),
            r matches Some(q) ==> q.re == plane_re(*self, p.x as int) && q.im == plane_im(
                *self,
                p.y as int,
            ),
    {
        let twice_scale: i128 = 2 * self.scale as i128;
        proof {
            let bound: int = 0x80_0000_0000_0000_0000_0000int;
            assert(-bound <= p.x * ONE <= bound && -bound <= p.y * ONE <= bound)
                by (nonlinear_arith)
                requires
                    i64::MIN <= p.x <= i64::MAX,
                    i64::MIN <= p.y <= i64::MAX,
                    ONE == 16777216,
                    bound == 0x80_0000_0000_0000_0000_0000int,
            ;
            lemma_trunc_div_bound(p.x * ONE, twice_scale as int, bound);
            lemma_trunc_div_bound(p.y * ONE, twice_scale as int, bound);
        }
        let re = self.center_x as i128 + div_toward_zero(p.x as i128 * ONE as i128, twice_scale);
        let im = self.center_y as i128 - div_toward_zero(p.y as i128 * ONE as i128, twice_scale);
        if re < i64::MIN as i128 || re > i64::MAX as i128 || im < i64::MIN as i128 || im
            > i64::MAX as i128 {
            None
        } else {
            Some(PlanePoint { re: re as i64, im: im as i64 })
        }
    }

    /// The escape time of the plane point `q` under this view's iteration cap.
    pub fn escape_time_at(&self, q: PlanePoint) -> (r: Option<u32>)
        requires
            self.wf(),
        ensures
            r == escape_time_of(q.re as int, q.im as int, self.iterations as int),
    {
        escape_time(q.re, q.im, self.iterations as u32)
    }
}

/// The change of the iteration cap that a horizontal wheel motion `x` asks for.
pub fn iteration_step(x: i64) -> (r: i32)
    ensures
        r == iteration_step_of(x as int),
{
    if -ITERATION_SCROLL_THRESHOLD < x && x < ITERATION_SCROLL_THRESHOLD {
        0
    } else if x > 0 {
        1
    } else {
        -1
    }
}

/// However low the iteration cap is driven, it never falls below `MIN_ITERATIONS`,
/// and a step that would take it below lands exactly on it.
pub proof fn lemma_iterations_floor(iterations: int, x: int)
    requires
        iterations >= MIN_ITERATIONS,
        iterations <= i32::MAX,
    ensures
        next_iterations(iterations, x) >= MIN_ITERATIONS,
        iterations + iteration_step_of(x) < MIN_ITERATIONS ==> next_iterations(iterations, x)
            == MIN_ITERATIONS,
{
}

} // verus!
