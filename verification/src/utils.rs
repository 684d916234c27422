//! Small helpers: ordering, random draws, clamping a vector's length and
//! wrapping a position around the world's edges.
use vstd::prelude::*;
use vstd::std_specs::cmp::{PartialOrdSpec, PartialOrdIs};
use rand::Rng;
use crate::fixed::{SCALE, COMPONENT_MAX, magnitude, fx_mul, lemma_trunc_div_bounds,
    lemma_product_magnitude, lemma_square_le_root};
use crate::vec2::{Vec2, lemma_rescale_within, lemma_within_fits, lemma_fits_norm_sq};

verus! {

/// The first argument if it is strictly less than the second, else the second.
#[inline]
pub fn min<T: PartialOrd>(a: T, b: T) -> (r: T)
    ensures
        T::obeys_partial_cmp_spec() ==> r == (if a.is_lt(&b) {
            a
        } else {
            b
        }),
{
    if a < b {
        a
    } else {
        b
    }
}

/// The first argument if it is strictly greater than the second, else the second.
#[inline]
pub fn max<T: PartialOrd>(a: T, b: T) -> (r: T)
    ensures
        T::obeys_partial_cmp_spec() ==> r == (if a.is_gt(&b) {
            a
        } else {
            b
        }),
{
    if a > b {
        a
    } else {
        b
    }
}

/// Draws an integer from `low..=high` with `rand::Rng::gen_range` on the
/// thread-local generator of `rand::thread_rng`, which is seeded from the
/// operating system when a thread first uses it. The contract is taken on
/// trust from the source of `rand`: the draw lies in the closed range, and
/// says nothing of how the draws are distributed. `gen_range` panics on an
/// empty range, which `requires` leaves out.
#[verifier::external_body]
fn draw_inclusive(low: i64, high: i64) -> (r: i64)
    requires
        low <= high,
    ensures
        low <= r <= high,
{
    rand::thread_rng().gen_range(low..=high)
}

/// A random integer in `x..=y`.
pub fn RandInt(x: i32, y: i32) -> (r: i32)
    requires
        x <= y,
    ensures
        x <= r <= y,
{
    let r: i64 = draw_inclusive(x as i64, y as i64);
    r as i32
}

/// A random fixed-point number between zero and one, both included.
pub fn RandFloat() -> (r: i64)
    ensures
        0 <= r <= SCALE,
{
    draw_inclusive(0, SCALE)
}

/// A random fixed-point number in `x..=y`.
pub fn RandInRange(x: i64, y: i64) -> (r: i64)
    requires
        x <= y,
    ensures
        x <= r <= y,
{
    draw_inclusive(x, y)
}

/// A random truth value: a draw from zero to one that comes out above one half.
pub fn RandBool() -> bool {
    draw_inclusive(0, SCALE) > SCALE / 2
}

/// A random fixed-point number between minus one and one, both included.
pub fn RandomClamped() -> (r: i64)
    ensures
        -SCALE <= r <= SCALE,
{
    draw_inclusive(-SCALE, SCALE)
}

/// A random direction: a point drawn from a square of a thousand units
/// around the origin, as a unit vector; `(0, -1)` where the point drawn is
/// less than one unit from the origin.
pub fn random_direction() -> (d: Vec2)
    ensures
        d.within(SCALE as int),
        d.norm_sq() >= SCALE * SCALE - 6 * SCALE,
{
    let drawn = Vec2 {
        x: draw_inclusive(-SCALE * SCALE, SCALE * SCALE),
        y: draw_inclusive(-SCALE * SCALE, SCALE * SCALE),
    };
    if drawn.length_squared() < 1_000_000 {
        let up = Vec2 { x: 0, y: -SCALE };
        assert(up.within(SCALE as int) && up.norm_sq() == SCALE * SCALE) by (nonlinear_arith)
            requires
                up.x == 0,
                up.y == -SCALE,
                up.within(SCALE as int) == (up.x * up.x + up.y * up.y <= SCALE * SCALE),
                up.norm_sq() == up.x * up.x + up.y * up.y,
        ;
        up
    } else {
        proof {
            crate::vec2::lemma_normalized_nearly_unit(drawn);
        }
        drawn.normalize_or_zero()
    }
}

/// `v` if it is no longer than `max`, else `v` rescaled to the length `max`.
pub open spec fn truncate_spec(v: Vec2, max: int) -> Vec2 {
    if v.len() > max {
        v.normalized().scale_spec(max)
    } else {
        v
    }
}

/// Clamps the length of `v` to `max` and keeps its direction.
pub fn Truncate(v: Vec2, max: i64) -> (r: Vec2)
    requires
        v.fits(COMPONENT_MAX as int),
        max > i64::MIN,
    ensures
        r == truncate_spec(v, max as int),
        max >= 0 ==> r.within(max as int),
{
    if v.length() > max {
        let n = v.normalize_or_zero();
        proof {
            lemma_within_fits(n, SCALE as int);
            lemma_scale_fits(n, max as int);
            if max >= 0 {
                lemma_rescale_within(n.x as int, n.y as int, SCALE as int, max as int);
            }
        }
        n.scale(max)
    } else {
        proof {
            if max >= 0 {
                lemma_fits_norm_sq(v, COMPONENT_MAX as int);
                lemma_square_le_root(v.norm_sq(), v.len(), max as int);
            }
        }
        v
    }
}

/// Scaling a vector no longer than one unit by `k` cannot overflow.
pub proof fn lemma_scale_fits(n: Vec2, k: int)
    requires
        n.fits(SCALE as int),
        i64::MIN < k <= i64::MAX,
    ensures
        magnitude(n.x as int) * magnitude(k) <= i64::MAX * SCALE,
        magnitude(n.y as int) * magnitude(k) <= i64::MAX * SCALE,
        magnitude(fx_mul(n.x as int, k)) <= magnitude(k),
        magnitude(fx_mul(n.y as int, k)) <= magnitude(k),
{
    let mk = magnitude(k);
    let mx = magnitude(n.x as int);
    let my = magnitude(n.y as int);
    assert(mx * mk <= SCALE * mk) by (nonlinear_arith)
        requires
            0 <= mx <= SCALE,
            mk >= 0,
    ;
    assert(my * mk <= SCALE * mk) by (nonlinear_arith)
        requires
            0 <= my <= SCALE,
            mk >= 0,
    ;
    lemma_trunc_div_bounds(n.x * k, SCALE as int);
    lemma_trunc_div_bounds(n.y * k, SCALE as int);
    lemma_product_magnitude(n.x as int, k);
    lemma_product_magnitude(n.y as int, k);
}

/// The coordinate `x` brought into `0..width` by adding or subtracting a
/// whole number of widths.
pub open spec fn wrap_spec(x: int, width: int) -> int {
    x % width
}

/// A coordinate inside the world stays; one that has left the world by less
/// than its width reappears that width further back or further on.
pub proof fn lemma_wrap_once(x: int, width: int)
    requires
        width > 0,
    ensures
        0 <= wrap_spec(x, width) < width,
        0 <= x < width ==> wrap_spec(x, width) == x,
        width <= x < 2 * width ==> wrap_spec(x, width) == x - width,
        -width <= x < 0 ==> wrap_spec(x, width) == x + width,
{
    if 0 <= x < width {
        vstd::arithmetic::div_mod::lemma_small_mod(x as nat, width as nat);
    } else if width <= x < 2 * width {
        assert(x == 1 * width + (x - width)) by (nonlinear_arith);
        vstd::arithmetic::div_mod::lemma_fundamental_div_mod_converse(x, width, 1, x - width);
    } else if -width <= x < 0 {
        assert(x == (-1) * width + (x + width)) by (nonlinear_arith);
        vstd::arithmetic::div_mod::lemma_fundamental_div_mod_converse(x, width, -1, x + width);
    } else {
        vstd::arithmetic::div_mod::lemma_mod_bound(x, width);
    }
}

/// Brings one coordinate into `0..width`.
pub fn wrap_coordinate(x: i64, width: i64) -> (r: i64)
    requires
        width > 0,
    ensures
        r == wrap_spec(x as int, width as int),
        0 <= r < width,
{
    if x >= 0 {
        x % width
    } else {
        let m: i64 = (-(x + 1)) % width;
        proof {
            let a = -(x + 1) as int;
            let w = width as int;
            vstd::arithmetic::div_mod::lemma_fundamental_div_mod(a, w);
            let q = a / w;
            assert(x == w * (-(q + 1)) + (w - 1 - m)) by (nonlinear_arith)
                requires
                    a == w * q + m,
                    a == -(x + 1),
            ;
            vstd::arithmetic::div_mod::lemma_fundamental_div_mod_converse(
                x as int,
                w,
                -(q + 1),
                w - 1 - m,
            );
        }
        width - 1 - m
    }
}

/// Treats the world as a torus: brings `pos` into `[0, MaxX) x [0, MaxY)`,
/// where `MaxX` and `MaxY` are the world's size in whole units.
pub fn WrapAround(pos: &mut Vec2, MaxX: i32, MaxY: i32)
    requires
        MaxX > 0,
        MaxY > 0,
    ensures
        final(pos).x == wrap_spec(old(pos).x as int, MaxX * SCALE),
        final(pos).y == wrap_spec(old(pos).y as int, MaxY * SCALE),
        0 <= final(pos).x < MaxX * SCALE,
        0 <= final(pos).y < MaxY * SCALE,
{
    let width: i64 = (MaxX as i64) * SCALE;
    let height: i64 = (MaxY as i64) * SCALE;
    pos.x = wrap_coordinate(pos.x, width);
    pos.y = wrap_coordinate(pos.y, height);
}

} // verus!
