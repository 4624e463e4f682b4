//! Escape-time evaluation of the Mandelbrot iteration `z <- z^2 + c` in fixed point.
use vstd::prelude::*;
use crate::fixed::{ONE, trunc_div, div_toward_zero, lemma_trunc_div_bound, lemma_mul_bound};

verus! {

/// `z^2 + c` for `z = (re, im)`, each product rounded toward zero once.
pub open spec fn step(z: (int, int), c_re: int, c_im: int) -> (int, int) {
    (
        trunc_div(z.0 * z.0 - z.1 * z.1, ONE as int) + c_re,
        trunc_div(2 * z.0 * z.1, ONE as int) + c_im,
    )
}

/// The `n`th point of the orbit of 0 under `z <- z^2 + c`.
pub open spec fn orbit(c_re: int, c_im: int, n: nat) -> (int, int)
    decreases n,
{
    if n == 0 {
        (0, 0)
    } else {
        step(orbit(c_re, c_im, (n - 1) as nat), c_re, c_im)
    }
}

/// Whether `z` lies outside the escape radius 2.
pub open spec fn escaped(z: (int, int)) -> bool {
    z.0 * z.0 + z.1 * z.1 > 4 * ONE * ONE
}

/// The first iteration from `i` up to `max` at which the orbit has escaped, if any.
pub open spec fn escape_from(c_re: int, c_im: int, i: int, max: int) -> Option<u32>
    decreases max + 1 - i,
{
    if i > max || i < 0 {
        None
    } else if escaped(orbit(c_re, c_im, i as nat)) {
        Some(i as u32)
    } else {
        escape_from(c_re, c_im, i + 1, max)
    }
}

/// The iteration, counted from 1, at which the orbit of `c` first leaves the escape
/// radius within `max` iterations; `None` when it stays inside throughout.
pub open spec fn escape_time_of(c_re: int, c_im: int, max: int) -> Option<u32> {
    escape_from(c_re, c_im, 1, max)
}

proof fn lemma_inside_is_small(re: int, im: int)
    requires
        !escaped((re, im)),
    ensures
        -2 * ONE <= re <= 2 * ONE,
        -2 * ONE <= im <= 2 * ONE,
{
    assert(-2 * ONE <= re <= 2 * ONE) by (nonlinear_arith)
        requires
            re * re + im * im <= 4 * ONE * ONE,
            ONE > 0,
    ;
    assert(-2 * ONE <= im <= 2 * ONE) by (nonlinear_arith)
        requires
            re * re + im * im <= 4 * ONE * ONE,
            ONE > 0,
    ;
}

/// Runs the iteration for `c = (c_re, c_im)` for at most `max` steps and reports when
/// it escaped, as `escape_time_of` says.
pub fn escape_time(c_re: i64, c_im: i64, max: u32) -> (r: Option<u32>)
    ensures
        r == escape_time_of(c_re as int, c_im as int, max as int),
{
    let mut re: i128 = 0;
    let mut im: i128 = 0;
    let mut done: u32 = 0;
    while done < max
        invariant
            done <= max,
            (re as int, im as int) == orbit(c_re as int, c_im as int, done as nat),
            !escaped((re as int, im as int)),
            escape_time_of(c_re as int, c_im as int, max as int) == escape_from(
                c_re as int,
                c_im as int,
                done + 1,
                max as int,
            ),
        decreases max - done,
    {
        proof {
            lemma_inside_is_small(re as int, im as int);
            let b: int = 2 * ONE;
            lemma_mul_bound(re as int, re as int, b, b);
            lemma_mul_bound(im as int, im as int, b, b);
            lemma_mul_bound(re as int, im as int, b, b);
            lemma_trunc_div_bound(re * re - im * im, ONE as int, 2 * b * b);
            assert(2 * re * im == 2 * (re * im)) by (nonlinear_arith);
            lemma_trunc_div_bound(2 * re * im, ONE as int, 2 * b * b);
        }
        let nre = div_toward_zero(re * re - im * im, ONE as i128) + c_re as i128;
        let nim = div_toward_zero(2 * re * im, ONE as i128) + c_im as i128;
        re = nre;
        im = nim;
        done = done + 1;
        let two: i128 = 2 * ONE as i128;
        if re < -two || re > two || im < -two || im > two {
            proof {
                assert(escaped((re as int, im as int))) by (nonlinear_arith)
                    requires
                        re < -two || re > two || im < -two || im > two,
                        two == 2 * ONE,
                        ONE > 0,
                ;
            }
            return Some(done);
        }
        proof {
            lemma_mul_bound(re as int, re as int, two as int, two as int);
            lemma_mul_bound(im as int, im as int, two as int, two as int);
        }
        if re * re + im * im > 4 * ONE as i128 * ONE as i128 {
            return Some(done);
        }
    }
    None
}

proof fn lemma_origin_orbit(n: nat)
    ensures
        orbit(0, 0, n) == (0int, 0int),
    decreases n,
{
    if n > 0 {
        lemma_origin_orbit((n - 1) as nat);
        vstd::arithmetic::div_mod::lemma_div_of0(ONE as int);
    }
}

proof fn lemma_origin_escape_from(i: int, max: int)
    ensures
        escape_from(0, 0, i, max) is None,
    decreases max + 1 - i,
{
    if 0 <= i <= max {
        lemma_origin_orbit(i as nat);
        lemma_origin_escape_from(i + 1, max);
    }
}

/// The origin belongs to the Mandelbrot set: its orbit never escapes, whatever the
/// iteration cap.
pub proof fn lemma_origin_never_escapes(max: int)
    ensures
        escape_time_of(0, 0, max) is None,
{
    lemma_origin_escape_from(1, max);
}

/// A point outside the escape radius escapes at the first iteration, for any cap of
/// at least one iteration.
pub proof fn lemma_far_point_escapes_at_once(c_re: int, c_im: int, max: int)
    requires
        escaped((c_re, c_im)),
        max >= 1,
    ensures
        escape_time_of(c_re, c_im, max) == Some(1u32),
{
    vstd::arithmetic::div_mod::lemma_div_of0(ONE as int);
    assert(orbit(c_re, c_im, 0) == (0int, 0int));
    assert(orbit(c_re, c_im, 1) == step((0int, 0int), c_re, c_im));
    assert(trunc_div(0int, ONE as int) == 0);
    assert(orbit(c_re, c_im, 1) == (c_re, c_im));
}

} // verus!
