//! How far rounding moves normalizing and reflection from exact arithmetic.
//!
//! In exact arithmetic a vector divided by its length is one long, the
//! mirror image of `v` about a unit normal `n` is as long as `v`, and its
//! part along `n` is that of `v` negated. Fixed-point products and quotients
//! are rounded toward zero, so here all three hold up to a few billionths,
//! which this file bounds.

use vstd::prelude::*;
use crate::fixed::lemma_int_sqrt_exists;
use crate::fixed::lemma_trunc_div_monotone;
use crate::fixed::magnitude;
use crate::fixed::saturate;
use crate::fixed::trunc_div;
use crate::fixed::Fixed;
use crate::fixed::SCALE;
use crate::math::Vec3;

verus! {

/// Raw distance from one within which a squared length counts as that of a
/// unit vector.
pub const UNIT_TOLERANCE: i64 = 8;

/// Whether the squared length of `v` is one up to `UNIT_TOLERANCE`.
pub open spec fn nearly_unit(v: Vec3) -> bool {
    SCALE - UNIT_TOLERANCE <= v.length_squared_spec().raw <= SCALE + UNIT_TOLERANCE
}

/// The dot product of the raw components, without rounding.
pub open spec fn exact_dot(a: Vec3, b: Vec3) -> int {
    a.x.raw * b.x.raw + a.y.raw * b.y.raw + a.z.raw * b.z.raw
}

/// Whether every raw component of `v` lies within `bound` of zero.
pub open spec fn bounded(v: Vec3, bound: int) -> bool {
    &&& -bound <= v.x.raw <= bound
    &&& -bound <= v.y.raw <= bound
    &&& -bound <= v.z.raw <= bound
}

/// The product of two bounded integers is bounded by the product of the
/// bounds.
proof fn lemma_product_bound(a: int, bound_a: int, b: int, bound_b: int)
    by (nonlinear_arith)
    requires
        -bound_a <= a <= bound_a,
        -bound_b <= b <= bound_b,
    ensures
        -(bound_a * bound_b) <= a * b <= bound_a * bound_b,
{
}

/// Rounding a quotient toward zero moves it by less than one, toward zero.
proof fn lemma_trunc_div_error(x: int, d: int)
    requires
        d > 0,
    ensures
        x >= 0 ==> 0 <= x - d * trunc_div(x, d) < d,
        x <= 0 ==> 0 <= d * trunc_div(x, d) - x < d,
{
    if x >= 0 {
        assert(0 <= x - d * (x / d) < d) by (nonlinear_arith)
            requires
                d > 0,
        ;
    } else {
        let y = -x;
        assert(0 <= y - d * (y / d) < d) by (nonlinear_arith)
            requires
                d > 0,
        ;
        assert(d * (-(y / d)) == -(d * (y / d))) by (nonlinear_arith);
    }
}

/// An exact multiple divides without rounding.
proof fn lemma_trunc_div_multiple(m: int, d: int)
    requires
        d > 0,
    ensures
        trunc_div(m * d, d) == m,
{
    lemma_trunc_div_error(m * d, d);
    let q = trunc_div(m * d, d);
    assert(q == m) by (nonlinear_arith)
        requires
            d > 0,
            -d < m * d - d * q < d,
    ;
}

/// A product of factors within four of zero does not saturate, and rounding
/// moves it by less than one billionth.
proof fn lemma_times_error(a: Fixed, b: Fixed)
    requires
        -4 * SCALE <= a.raw <= 4 * SCALE,
        -4 * SCALE <= b.raw <= 4 * SCALE,
    ensures
        a.times(b).raw == trunc_div(a.raw * b.raw, SCALE as int),
        -SCALE < SCALE * a.times(b).raw - a.raw * b.raw < SCALE,
        a.raw * b.raw >= 0 ==> 0 <= a.raw * b.raw - SCALE * a.times(b).raw,
        -16 * SCALE - 1 < a.times(b).raw < 16 * SCALE + 1,
{
    let p = a.raw * b.raw;
    lemma_product_bound(a.raw as int, 4_000_000_000, b.raw as int, 4_000_000_000);
    assert(4_000_000_000int * 4_000_000_000 == 16_000_000_000_000_000_000) by (nonlinear_arith);
    lemma_trunc_div_error(p, 1_000_000_000);
    let q = trunc_div(p, 1_000_000_000);
    assert(-16_000_000_001 < q < 16_000_000_001);
    assert(a.times(b).raw == q);
}

/// A dot product of vectors within four of zero does not saturate, and
/// rounding moves it by less than three billionths.
proof fn lemma_dot_error(a: Vec3, b: Vec3)
    requires
        bounded(a, 4 * SCALE),
        bounded(b, 4 * SCALE),
    ensures
        -3 * SCALE < SCALE * a.dot_spec(&b).raw - exact_dot(a, b) < 3 * SCALE,
        a == b ==> 0 <= exact_dot(a, b) - SCALE * a.dot_spec(&b).raw,
{
    lemma_times_error(a.x, b.x);
    lemma_times_error(a.y, b.y);
    lemma_times_error(a.z, b.z);
    if a == b {
        assert(a.x.raw * a.x.raw >= 0) by (nonlinear_arith);
        assert(a.y.raw * a.y.raw >= 0) by (nonlinear_arith);
        assert(a.z.raw * a.z.raw >= 0) by (nonlinear_arith);
    }
}

/// A square below that of a bound lies below the bound.
proof fn lemma_root_bound(a: int, bound: int)
    by (nonlinear_arith)
    requires
        0 <= bound,
        a * a < bound * bound,
    ensures
        -bound < a < bound,
{
}

/// The components of a nearly unit vector are barely longer than one, and the
/// exact squared length is barely off one.
proof fn lemma_nearly_unit(v: Vec3)
    requires
        nearly_unit(v),
    ensures
        bounded(v, SCALE + 5),
        SCALE * (SCALE - 8) <= exact_dot(v, v) < SCALE * (SCALE + 11),
{
    let s = SCALE as int;
    let x = v.x.raw as int;
    let y = v.y.raw as int;
    let z = v.z.raw as int;
    assert(x * x >= 0 && y * y >= 0 && z * z >= 0) by (nonlinear_arith);
    lemma_trunc_div_error(x * x, s);
    lemma_trunc_div_error(y * y, s);
    lemma_trunc_div_error(z * z, s);
    lemma_trunc_div_monotone(0, x * x, s);
    lemma_trunc_div_monotone(0, y * y, s);
    lemma_trunc_div_monotone(0, z * z, s);
    let tx = trunc_div(x * x, s);
    let ty = trunc_div(y * y, s);
    let tz = trunc_div(z * z, s);
    assert(v.length_squared_spec().raw == saturate(
        saturate(saturate(tx) + saturate(ty)) + saturate(tz),
    ));
    assert(tx + ty + tz == v.length_squared_spec().raw);
    assert((s + 5) * (s + 5) == s * s + 10 * s + 25) by (nonlinear_arith);
    assert(s * (s + 9) == s * s + 9 * s) by (nonlinear_arith);
    lemma_root_bound(x, s + 5);
    lemma_root_bound(y, s + 5);
    lemma_root_bound(z, s + 5);
    assert(s * (s - 8) == s * s - 8 * s) by (nonlinear_arith);
    assert(s * (s + 11) == s * s + 11 * s) by (nonlinear_arith);
}

/// Raw bound on the components of the vectors that `normalized` is shown to
/// bring near unit length: thirty thousand.
pub const MEASURABLE_RAW: i64 = 30_000_000_000_000;

/// The square of a sum of three is at most three times the sum of the
/// squares.
proof fn lemma_sum_square(a: int, b: int, c: int)
    by (nonlinear_arith)
    ensures
        (a + b + c) * (a + b + c) <= 3 * (a * a + b * b + c * c),
{
}

/// The square of a measurable component does not saturate, and is rounded
/// down by less than one billionth.
proof fn lemma_square_error(a: Fixed)
    requires
        -MEASURABLE_RAW <= a.raw <= MEASURABLE_RAW,
    ensures
        0 <= a.times(a).raw <= 900_000_000_000_000_000,
        0 <= a.raw * a.raw - SCALE * a.times(a).raw < SCALE,
{
    let p = a.raw * a.raw;
    lemma_product_bound(a.raw as int, 30_000_000_000_000, a.raw as int, 30_000_000_000_000);
    assert(30_000_000_000_000int * 30_000_000_000_000 == 900_000_000_000_000_000_000_000_000)
        by (nonlinear_arith);
    assert(p >= 0) by (nonlinear_arith)
        requires
            p == a.raw * a.raw,
    ;
    lemma_trunc_div_error(p, 1_000_000_000);
}

/// One component of a normalized vector: the quotient `n` of the component
/// `w`, at most barely longer than the length `len`, by that length. It is
/// barely longer than one at most, and `len * n` is `w` in raw units, short
/// by less than `len`.
proof fn lemma_normalized_component(w: Fixed, len: Fixed)
    requires
        len.raw >= SCALE,
        -(len.raw + 2) <= w.raw <= len.raw + 2,
    ensures
        -(SCALE + 2) <= w.over(len).raw <= SCALE + 2,
        (len.raw * w.over(len).raw) * (len.raw * w.over(len).raw) <= 1_000_000_000_000_000_000
            * (w.raw * w.raw),
        (len.raw * w.over(len).raw) * (len.raw * w.over(len).raw) >= 1_000_000_000_000_000_000
            * (w.raw * w.raw) - 2_000_000_000 * (len.raw * magnitude(w.raw as int)),
{
    let s = 1_000_000_000int;
    let l = len.raw as int;
    let x = w.raw * s;
    let n = trunc_div(x, l);
    lemma_trunc_div_error(x, l);
    let rho = x - l * n;
    assert(-(s + 2) <= n <= s + 2) by (nonlinear_arith)
        requires
            l >= s,
            s == 1_000_000_000,
            -(l + 2) * s <= x <= (l + 2) * s,
            -l < x - l * n < l,
    ;
    assert(w.over(len).raw == n);
    assert((l * n) * (l * n) <= x * x && (l * n) * (l * n) >= x * x - 2 * (magnitude(x) * l))
        by (nonlinear_arith)
        requires
            rho == x - l * n,
            l > 0,
            x >= 0 ==> 0 <= rho < l,
            x <= 0 ==> -l < rho <= 0,
    ;
    assert(x * x == 1_000_000_000_000_000_000 * (w.raw * w.raw)) by (nonlinear_arith)
        requires
            x == w.raw * 1_000_000_000,
    ;
    assert(2 * (magnitude(x) * l) == 2_000_000_000 * (l * magnitude(w.raw as int)))
        by (nonlinear_arith)
        requires
            x == w.raw * 1_000_000_000,
    ;
}

/// A vector that is at least one long, with components of at most thirty
/// thousand, normalizes to a nearly unit vector.
pub proof fn lemma_normalized_is_nearly_unit(w: Vec3)
    requires
        bounded(w, MEASURABLE_RAW as int),
        w.length_spec().raw >= SCALE,
    ensures
        nearly_unit(w.normalized_spec()),
        bounded(w.normalized_spec(), SCALE + 2),
{
    let s = 1_000_000_000int;
    let square = 1_000_000_000_000_000_000int;
    let (w1, w2, w3) = (w.x.raw as int, w.y.raw as int, w.z.raw as int);
    // the squared length and the length, as integers
    lemma_square_error(w.x);
    lemma_square_error(w.y);
    lemma_square_error(w.z);
    let lsq = w.length_squared_spec();
    let exact = exact_dot(w, w);
    assert(s * lsq.raw <= exact < s * lsq.raw + 3 * s);
    Fixed::lemma_sqrt_raw(lsq);
    lemma_int_sqrt_exists(lsq.raw * s);
    let len = w.length_spec();
    let l = len.raw as int;
    let area = l * l;
    assert(area <= exact < area + 2 * l + 1 + 3 * s) by (nonlinear_arith)
        requires
            area == l * l,
            l * l <= lsq.raw * s,
            lsq.raw * s < (l + 1) * (l + 1),
            s * lsq.raw <= exact < s * lsq.raw + 3 * s,
    ;
    assert(area >= s * l && area >= square && (l + 3) * (l + 3) == area + 6 * l + 9)
        by (nonlinear_arith)
        requires
            area == l * l,
            l >= s,
            s == 1_000_000_000,
            square == 1_000_000_000_000_000_000int,
    ;
    // no component is longer than the vector
    assert(w1 * w1 >= 0 && w2 * w2 >= 0 && w3 * w3 >= 0) by (nonlinear_arith);
    lemma_root_bound(w1, l + 3);
    lemma_root_bound(w2, l + 3);
    lemma_root_bound(w3, l + 3);
    // the components of the normalized vector
    let n = w.normalized_spec();
    assert(n == w.divided(len));
    lemma_normalized_component(w.x, len);
    lemma_normalized_component(w.y, len);
    lemma_normalized_component(w.z, len);
    let (n1, n2, n3) = (n.x.raw as int, n.y.raw as int, n.z.raw as int);
    let unit = exact_dot(n, n);
    lemma_regroup_squares(l, n1);
    lemma_regroup_squares(l, n2);
    lemma_regroup_squares(l, n3);
    lemma_distribute(area, n1 * n1, n2 * n2, n3 * n3);
    let scaled = area * unit;
    let (m1, m2, m3) = (magnitude(w1), magnitude(w2), magnitude(w3));
    let girth = m1 + m2 + m3;
    lemma_distribute(l, m1, m2, m3);
    assert(scaled <= square * exact);
    assert(scaled >= square * exact - 2_000_000_000 * (l * girth));
    // not too long
    assert(unit <= square + 5 * s) by (nonlinear_arith)
        requires
            scaled == area * unit,
            scaled < square * (area + 2 * l + 1 + 3 * s),
            area >= s * l,
            area >= square,
            l >= s,
            s == 1_000_000_000,
            square == 1_000_000_000_000_000_000int,
    ;
    // not too short
    lemma_sum_square(m1, m2, m3);
    assert(m1 * m1 == w1 * w1 && m2 * m2 == w2 * w2 && m3 * m3 == w3 * w3) by (nonlinear_arith)
        requires
            m1 == magnitude(w1),
            m2 == magnitude(w2),
            m3 == magnitude(w3),
    ;
    assert((4 * girth) * (4 * girth) == 16 * (girth * girth) && (7 * l) * (7 * l) == 49 * area)
        by (nonlinear_arith)
        requires
            area == l * l,
    ;
    lemma_root_bound(4 * girth, 7 * l);
    assert(4 * (l * girth) < 7 * area) by (nonlinear_arith)
        requires
            4 * girth < 7 * l,
            l > 0,
            area == l * l,
    ;
    assert(2 * scaled > 1_999_999_993_000_000_000 * area);
    assert(2 * unit > 1_999_999_993_000_000_000) by (nonlinear_arith)
        requires
            scaled == area * unit,
            2 * scaled > 1_999_999_993_000_000_000 * area,
            area > 0,
    ;
    // the rounded squared length
    lemma_dot_error(n, n);
}

/// The square of a product is the product of the squares.
proof fn lemma_regroup_squares(a: int, b: int)
    by (nonlinear_arith)
    ensures
        (a * b) * (a * b) == (a * a) * (b * b),
{
}

/// Twice a product is at most the sum of the squares.
proof fn lemma_twice_product(a: int, b: int)
    by (nonlinear_arith)
    ensures
        -(a * a + b * b) <= 2 * (a * b) <= a * a + b * b,
{
}

/// The exact dot product of two vectors is at most the mean of their exact
/// squared lengths.
proof fn lemma_exact_dot_bound(a: Vec3, b: Vec3)
    ensures
        -(exact_dot(a, a) + exact_dot(b, b)) <= 2 * exact_dot(a, b) <= exact_dot(a, a) + exact_dot(
            b,
            b,
        ),
{
    lemma_twice_product(a.x.raw as int, b.x.raw as int);
    lemma_twice_product(a.y.raw as int, b.y.raw as int);
    lemma_twice_product(a.z.raw as int, b.z.raw as int);
}

/// A relation between raw values, multiplied through by `x`.
proof fn lemma_relation_times(m: int, dn: int, f: int, x: int)
    by (nonlinear_arith)
    requires
        1_000_000_000 * m == 2 * dn + f,
    ensures
        1_000_000_000 * (m * x) == 2 * (dn * x) + f * x,
{
}

/// Multiplication distributes over a sum of three.
proof fn lemma_distribute(d: int, a: int, b: int, c: int)
    by (nonlinear_arith)
    ensures
        d * (a + b + c) == d * a + d * b + d * c,
{
}

/// Products may be regrouped and reordered.
proof fn lemma_regroup(d: int, n: int, x: int)
    by (nonlinear_arith)
    ensures
        (d * n) * x == d * (n * x),
        (d * n) * x == d * (x * n),
        n * x == x * n,
{
}

/// The square of a difference.
proof fn lemma_square_of_difference(v: int, m: int)
    by (nonlinear_arith)
    ensures
        (v - m) * (v - m) == v * v - 2 * (m * v) + m * m,
{
}

/// The product of a difference.
proof fn lemma_product_of_difference(v: int, m: int, n: int)
    by (nonlinear_arith)
    ensures
        (v - m) * n == v * n - m * n,
{
}

/// What the rounded reflection of a nearly unit vector about a nearly unit
/// normal is made of: the rounded dot product `d`, and the rounded vector
/// `m` that is subtracted, each close to what it rounds.
proof fn lemma_reflect_parts(v: Vec3, n: Vec3) -> (m: Vec3)
    requires
        nearly_unit(v),
        nearly_unit(n),
    ensures
        bounded(v, SCALE + 5),
        bounded(n, SCALE + 5),
        -(SCALE + 14) < v.dot_spec(&n).raw < SCALE + 14,
        -3 * SCALE < SCALE * v.dot_spec(&n).raw - exact_dot(v, n) < 3 * SCALE,
        -SCALE < SCALE * m.x.raw - 2 * (v.dot_spec(&n).raw * n.x.raw) < SCALE,
        -SCALE < SCALE * m.y.raw - 2 * (v.dot_spec(&n).raw * n.y.raw) < SCALE,
        -SCALE < SCALE * m.z.raw - 2 * (v.dot_spec(&n).raw * n.z.raw) < SCALE,
        bounded(m, 2 * SCALE + 40),
        v.reflect_spec(&n).x.raw == v.x.raw - m.x.raw,
        v.reflect_spec(&n).y.raw == v.y.raw - m.y.raw,
        v.reflect_spec(&n).z.raw == v.z.raw - m.z.raw,
{
    let s = 1_000_000_000int;
    lemma_nearly_unit(v);
    lemma_nearly_unit(n);
    lemma_dot_error(v, n);
    lemma_exact_dot_bound(v, n);
    let d = v.dot_spec(&n).raw as int;
    assert(s * (s + 11) == s * s + 11 * s) by (nonlinear_arith);
    assert(-(s + 14) < d < s + 14);
    let two = Fixed::from_int_spec(2);
    assert(two.raw == 2 * s);
    let k = two.times(v.dot_spec(&n));
    assert(k.raw == 2 * d) by {
        assert(two.raw * d == (2 * d) * s) by (nonlinear_arith)
            requires
                two.raw == 2 * s,
        ;
        lemma_trunc_div_multiple(2 * d, s);
    }
    let m = n.scaled(k);
    lemma_times_error(n.x, k);
    lemma_times_error(n.y, k);
    lemma_times_error(n.z, k);
    assert(n.x.raw * k.raw == 2 * (d * n.x.raw)) by (nonlinear_arith)
        requires
            k.raw == 2 * d,
    ;
    assert(n.y.raw * k.raw == 2 * (d * n.y.raw)) by (nonlinear_arith)
        requires
            k.raw == 2 * d,
    ;
    assert(n.z.raw * k.raw == 2 * (d * n.z.raw)) by (nonlinear_arith)
        requires
            k.raw == 2 * d,
    ;
    lemma_product_bound(d, s + 14, n.x.raw as int, s + 5);
    lemma_product_bound(d, s + 14, n.y.raw as int, s + 5);
    lemma_product_bound(d, s + 14, n.z.raw as int, s + 5);
    assert((s + 14) * (s + 5) == s * s + 19 * s + 70) by (nonlinear_arith);
    assert(bounded(m, 2 * s + 40));
    m
}

/// The exact sums that the two bounds below are made of, each as the
/// relations of `lemma_reflect_parts` give it. `d` is the rounded dot product
/// of the vector and the normal, `m` the rounded vector that is subtracted,
/// and `f` what rounding adds to it, times `SCALE`.
proof fn lemma_reflect_sums(v: Vec3, n: Vec3, m: Vec3, d: int, f1: int, f2: int, f3: int)
    requires
        1_000_000_000 * m.x.raw == 2 * (d * n.x.raw) + f1,
        1_000_000_000 * m.y.raw == 2 * (d * n.y.raw) + f2,
        1_000_000_000 * m.z.raw == 2 * (d * n.z.raw) + f3,
    ensures
        1_000_000_000 * exact_dot(m, n) == 2 * (d * exact_dot(n, n)) + (f1 * n.x.raw + f2
            * n.y.raw + f3 * n.z.raw),
        1_000_000_000 * exact_dot(m, v) == 2 * (d * exact_dot(n, v)) + (f1 * v.x.raw + f2
            * v.y.raw + f3 * v.z.raw),
        1_000_000_000 * exact_dot(m, m) == 2 * (d * exact_dot(n, m)) + (f1 * m.x.raw + f2
            * m.y.raw + f3 * m.z.raw),
        1_000_000_000 * (m.x.raw * f1 + m.y.raw * f2 + m.z.raw * f3) == 2 * (d * (n.x.raw * f1
            + n.y.raw * f2 + n.z.raw * f3)) + (f1 * f1 + f2 * f2 + f3 * f3),
{
    let (n1, n2, n3) = (n.x.raw as int, n.y.raw as int, n.z.raw as int);
    let (m1, m2, m3) = (m.x.raw as int, m.y.raw as int, m.z.raw as int);
    let (v1, v2, v3) = (v.x.raw as int, v.y.raw as int, v.z.raw as int);
    lemma_relation_times(m1, d * n1, f1, n1);
    lemma_relation_times(m2, d * n2, f2, n2);
    lemma_relation_times(m3, d * n3, f3, n3);
    lemma_regroup(d, n1, n1);
    lemma_regroup(d, n2, n2);
    lemma_regroup(d, n3, n3);
    lemma_distribute(d, n1 * n1, n2 * n2, n3 * n3);

    lemma_relation_times(m1, d * n1, f1, v1);
    lemma_relation_times(m2, d * n2, f2, v2);
    lemma_relation_times(m3, d * n3, f3, v3);
    lemma_regroup(d, n1, v1);
    lemma_regroup(d, n2, v2);
    lemma_regroup(d, n3, v3);
    lemma_distribute(d, n1 * v1, n2 * v2, n3 * v3);

    lemma_relation_times(m1, d * n1, f1, m1);
    lemma_relation_times(m2, d * n2, f2, m2);
    lemma_relation_times(m3, d * n3, f3, m3);
    lemma_regroup(d, n1, m1);
    lemma_regroup(d, n2, m2);
    lemma_regroup(d, n3, m3);
    lemma_distribute(d, n1 * m1, n2 * m2, n3 * m3);

    lemma_relation_times(m1, d * n1, f1, f1);
    lemma_relation_times(m2, d * n2, f2, f2);
    lemma_relation_times(m3, d * n3, f3, f3);
    lemma_regroup(d, n1, f1);
    lemma_regroup(d, n2, f2);
    lemma_regroup(d, n3, f3);
    lemma_distribute(d, n1 * f1, n2 * f2, n3 * f3);
}

/// The mirror image of a nearly unit vector about a nearly unit normal has
/// the vector's part along the normal, negated, up to 31 billionths.
pub proof fn lemma_reflect_negates_normal_part(v: Vec3, n: Vec3)
    requires
        nearly_unit(v),
        nearly_unit(n),
    ensures
        -31 <= v.reflect_spec(&n).dot_spec(&n).raw + v.dot_spec(&n).raw <= 31,
{
    let s = 1_000_000_000int;
    let square = 1_000_000_000_000_000_000int;
    let m = lemma_reflect_parts(v, n);
    lemma_nearly_unit(n);
    let r = v.reflect_spec(&n);
    lemma_dot_error(r, n);
    let d = v.dot_spec(&n).raw as int;
    let q = r.dot_spec(&n).raw as int;
    let (v1, v2, v3) = (v.x.raw as int, v.y.raw as int, v.z.raw as int);
    let (n1, n2, n3) = (n.x.raw as int, n.y.raw as int, n.z.raw as int);
    let (m1, m2, m3) = (m.x.raw as int, m.y.raw as int, m.z.raw as int);
    let f1 = s * m1 - 2 * (d * n1);
    let f2 = s * m2 - 2 * (d * n2);
    let f3 = s * m3 - 2 * (d * n3);
    lemma_reflect_sums(v, n, m, d, f1, f2, f3);
    let nf = f1 * n1 + f2 * n2 + f3 * n3;
    // what rounding the two dot products adds
    let g = s * d - exact_dot(v, n);
    let e = s * q - exact_dot(r, n);
    lemma_product_of_difference(v1, m1, n1);
    lemma_product_of_difference(v2, m2, n2);
    lemma_product_of_difference(v3, m3, n3);
    assert(exact_dot(r, n) == exact_dot(v, n) - exact_dot(m, n));
    // how far the normal is from unit length
    let delta = exact_dot(n, n) - square;
    assert(s * (s - 8) == square - 8 * s && s * (s + 11) == square + 11 * s) by (nonlinear_arith)
        requires
            s == 1_000_000_000,
            square == 1_000_000_000_000_000_000int,
    ;
    assert(d * exact_dot(n, n) == d * delta + d * square) by (nonlinear_arith)
        requires
            delta == exact_dot(n, n) - square,
    ;
    assert(d * square == square * d) by (nonlinear_arith);
    assert(square * (q + d) == s * e - s * g - 2 * (d * delta) - nf);
    lemma_product_bound(d, s + 14, delta, 11 * s);
    lemma_product_bound(f1, s, n1, s + 5);
    lemma_product_bound(f2, s, n2, s + 5);
    lemma_product_bound(f3, s, n3, s + 5);
    assert((s + 14) * (11 * s) == 11 * square + 154 * s && s * (s + 5) == square + 5 * s)
        by (nonlinear_arith)
        requires
            s == 1_000_000_000,
            square == 1_000_000_000_000_000_000int,
    ;
}

/// Square roots of numbers near one that lie within 77 billionths of each
/// other lie within 39 billionths of each other.
proof fn lemma_sqrt_close(a: Fixed, b: Fixed)
    requires
        SCALE - 85 <= a.raw <= b.raw <= a.raw + 77,
    ensures
        0 <= b.sqrt_spec().raw - a.sqrt_spec().raw <= 39,
{
    let s = 1_000_000_000int;
    Fixed::lemma_sqrt_raw(a);
    Fixed::lemma_sqrt_raw(b);
    Fixed::lemma_sqrt_monotone(a, b);
    lemma_int_sqrt_exists(a.raw * s);
    lemma_int_sqrt_exists(b.raw * s);
    let ra = a.sqrt_spec().raw as int;
    let rb = b.sqrt_spec().raw as int;
    assert(ra >= s - 43) by (nonlinear_arith)
        requires
            0 <= ra,
            a.raw * s < (ra + 1) * (ra + 1),
            a.raw >= s - 85,
            s == 1_000_000_000,
    ;
    assert(rb <= ra + 39) by (nonlinear_arith)
        requires
            ra >= s - 43,
            0 <= rb,
            rb * rb <= b.raw * s,
            a.raw * s < (ra + 1) * (ra + 1),
            b.raw <= a.raw + 77,
            s == 1_000_000_000,
    ;
}

/// The mirror image of a nearly unit vector about a nearly unit normal is as
/// long as the vector: the squared lengths differ by at most 77 billionths,
/// and the lengths by at most 39.
pub proof fn lemma_reflect_keeps_length(v: Vec3, n: Vec3)
    requires
        nearly_unit(v),
        nearly_unit(n),
    ensures
        -77 <= v.reflect_spec(&n).length_squared_spec().raw - v.length_squared_spec().raw <= 77,
        -39 <= v.reflect_spec(&n).length_spec().raw - v.length_spec().raw <= 39,
{
    lemma_reflect_changes_square_little(v, n);
    let before = v.length_squared_spec();
    let after = v.reflect_spec(&n).length_squared_spec();
    if before.raw <= after.raw {
        lemma_sqrt_close(before, after);
    } else {
        lemma_sqrt_close(after, before);
    }
}

/// The squared length of the mirror image of a nearly unit vector about a
/// nearly unit normal differs from that of the vector by at most 77
/// billionths.
proof fn lemma_reflect_changes_square_little(v: Vec3, n: Vec3)
    requires
        nearly_unit(v),
        nearly_unit(n),
    ensures
        -77 <= v.reflect_spec(&n).length_squared_spec().raw - v.length_squared_spec().raw <= 77,
{
    let s = 1_000_000_000int;
    let square = 1_000_000_000_000_000_000int;
    let cube = 1_000_000_000_000_000_000_000_000_000int;
    let m = lemma_reflect_parts(v, n);
    lemma_nearly_unit(n);
    let r = v.reflect_spec(&n);
    lemma_dot_error(r, r);
    lemma_dot_error(v, v);
    let d = v.dot_spec(&n).raw as int;
    let (v1, v2, v3) = (v.x.raw as int, v.y.raw as int, v.z.raw as int);
    let (n1, n2, n3) = (n.x.raw as int, n.y.raw as int, n.z.raw as int);
    let (m1, m2, m3) = (m.x.raw as int, m.y.raw as int, m.z.raw as int);
    let f1 = s * m1 - 2 * (d * n1);
    let f2 = s * m2 - 2 * (d * n2);
    let f3 = s * m3 - 2 * (d * n3);
    lemma_reflect_sums(v, n, m, d, f1, f2, f3);
    let nf = f1 * n1 + f2 * n2 + f3 * n3;
    let vf = f1 * v1 + f2 * v2 + f3 * v3;
    let mf = f1 * m1 + f2 * m2 + f3 * m3;
    let ff = f1 * f1 + f2 * f2 + f3 * f3;
    lemma_regroup(1, n1, f1);
    lemma_regroup(1, n2, f2);
    lemma_regroup(1, n3, f3);
    lemma_regroup(1, m1, f1);
    lemma_regroup(1, m2, f2);
    lemma_regroup(1, m3, f3);
    lemma_regroup(1, n1, v1);
    lemma_regroup(1, n2, v2);
    lemma_regroup(1, n3, v3);
    lemma_regroup(1, n1, m1);
    lemma_regroup(1, n2, m2);
    lemma_regroup(1, n3, m3);
    assert(exact_dot(n, v) == exact_dot(v, n));
    assert(exact_dot(n, m) == exact_dot(m, n));
    // the change of the exact squared length
    lemma_square_of_difference(v1, m1);
    lemma_square_of_difference(v2, m2);
    lemma_square_of_difference(v3, m3);
    let change = exact_dot(r, r) - exact_dot(v, v);
    assert(change == exact_dot(m, m) - 2 * exact_dot(m, v));
    let g = s * d - exact_dot(v, n);
    let delta = exact_dot(n, n) - square;
    assert(s * (s - 8) == square - 8 * s && s * (s + 11) == square + 11 * s) by (nonlinear_arith)
        requires
            s == 1_000_000_000,
            square == 1_000_000_000_000_000_000int,
    ;
    // S * S * change, one power of S at a time
    let dv = d * exact_dot(v, n);
    let dn = d * exact_dot(n, n);
    let dmn = d * exact_dot(m, n);
    let dnf = d * nf;
    assert(s * change == 2 * dmn + mf - 4 * dv - 2 * vf);
    assert(s * dmn == 2 * (d * dn) + dnf) by (nonlinear_arith)
        requires
            s * exact_dot(m, n) == 2 * dn + nf,
            dmn == d * exact_dot(m, n),
            dnf == d * nf,
    ;
    assert(s * mf == 2 * dnf + ff);
    assert(dv == s * (d * d) - d * g) by (nonlinear_arith)
        requires
            dv == d * exact_dot(v, n),
            g == s * d - exact_dot(v, n),
    ;
    assert(d * dn == square * (d * d) + d * (d * delta)) by (nonlinear_arith)
        requires
            dn == d * exact_dot(n, n),
            delta == exact_dot(n, n) - square,
    ;
    assert(s * (s * (d * d)) == square * (d * d)) by (nonlinear_arith)
        requires
            s == 1_000_000_000,
            square == 1_000_000_000_000_000_000int,
    ;
    assert(s * (s * change) == square * change) by (nonlinear_arith)
        requires
            s == 1_000_000_000,
            square == 1_000_000_000_000_000_000int,
    ;
    let dg = d * g;
    let dd_delta = d * (d * delta);
    assert(square * change == 4 * dd_delta + 4 * s * dg + 4 * dnf + ff - 2 * s * vf);
    // the size of each part
    lemma_product_bound(d, s + 14, delta, 11 * s);
    lemma_product_bound(d, s + 14, d * delta, 11 * square + 154 * s);
    lemma_product_bound(d, s + 14, g, 3 * s);
    lemma_product_bound(f1, s, n1, s + 5);
    lemma_product_bound(f2, s, n2, s + 5);
    lemma_product_bound(f3, s, n3, s + 5);
    lemma_product_bound(f1, s, v1, s + 5);
    lemma_product_bound(f2, s, v2, s + 5);
    lemma_product_bound(f3, s, v3, s + 5);
    lemma_product_bound(f1, s, f1, s);
    lemma_product_bound(f2, s, f2, s);
    lemma_product_bound(f3, s, f3, s);
    lemma_product_bound(d, s + 14, nf, 3 * square + 15 * s);
    assert({
        &&& (s + 14) * (11 * s) == 11 * square + 154 * s
        &&& (s + 14) * (11 * square + 154 * s) == 11 * cube + 308 * square + 2156 * s
        &&& (s + 14) * (3 * s) == 3 * square + 42 * s
        &&& s * (s + 5) == square + 5 * s
        &&& s * s == square
        &&& (s + 14) * (3 * square + 15 * s) == 3 * cube + 57 * square + 210 * s
        &&& s * square == cube
    }) by (nonlinear_arith)
        requires
            s == 1_000_000_000,
            square == 1_000_000_000_000_000_000int,
            cube == 1_000_000_000_000_000_000_000_000_000int,
    ;
    assert(-75 * cube < square * change < 75 * cube);
    assert(-75 * s < change < 75 * s);
}

} // verus!
