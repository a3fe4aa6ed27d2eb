//! Exact integer plane geometry: vectors, orientation tests, squared
//! distances and fixed-point unit vectors.
use vstd::prelude::*;

verus! {

/// Largest absolute value a vertex coordinate may take.
pub const COORD_LIMIT: i64 = 1073741824;

/// Fixed-point scale of unit-length vectors: a unit vector has length
/// `UNIT` in the stored representation.
pub const UNIT: i64 = 65536;

/// A point or a displacement of the plane, in integer units.
#[derive(Clone, Copy, Debug, PartialEq, Eq, Structural)]
pub struct Vec2 {
    pub x: i64,
    pub y: i64,
}

/// Both coordinates lie within `COORD_LIMIT`.
pub open spec fn in_range(v: Vec2) -> bool {
    -COORD_LIMIT <= v.x <= COORD_LIMIT && -COORD_LIMIT <= v.y <= COORD_LIMIT
}

/// The 2D cross product of two displacements.
pub open spec fn cross_spec(ax: int, ay: int, bx: int, by: int) -> int {
    ax * by - ay * bx
}

/// Cross product of `p1 - p0` and `p2 - p1`: negative for a right turn.
pub open spec fn turn_spec(p0: Vec2, p1: Vec2, p2: Vec2) -> int {
    cross_spec(p1.x - p0.x, p1.y - p0.y, p2.x - p1.x, p2.y - p1.y)
}

pub open spec fn dist2_spec(a: Vec2, b: Vec2) -> int {
    (a.x - b.x) * (a.x - b.x) + (a.y - b.y) * (a.y - b.y)
}

pub open spec fn is_floor_sqrt(n: int, r: int) -> bool {
    0 <= r && r * r <= n < (r + 1) * (r + 1)
}

/// The integer square root of `n`, rounded down.
pub open spec fn floor_sqrt(n: nat) -> nat {
    choose|r: nat| is_floor_sqrt(n as int, r as int)
}

/// The rounded-down square root is unique.
pub proof fn lemma_floor_sqrt_unique(n: int, r1: int, r2: int)
    requires
        is_floor_sqrt(n, r1),
        is_floor_sqrt(n, r2),
    ensures
        r1 == r2,
{
    if r1 < r2 {
        assert((r1 + 1) * (r1 + 1) <= r2 * r2) by (nonlinear_arith)
            requires
                0 <= r1 + 1 <= r2,
        ;
    } else if r2 < r1 {
        assert((r2 + 1) * (r2 + 1) <= r1 * r1) by (nonlinear_arith)
            requires
                0 <= r2 + 1 <= r1,
        ;
    }
}

/// Once some `r` is the rounded-down root of `n`, `floor_sqrt(n)` is that `r`.
pub proof fn lemma_floor_sqrt_is(n: nat, r: nat)
    requires
        is_floor_sqrt(n as int, r as int),
    ensures
        floor_sqrt(n) == r,
{
    let s = floor_sqrt(n);
    assert(is_floor_sqrt(n as int, s as int));
    lemma_floor_sqrt_unique(n as int, r as int, s as int);
}

/// Rounded-down square root by bisection.
pub fn isqrt(n: u128) -> (r: u128)
    ensures
        r as nat == floor_sqrt(n as nat),
        is_floor_sqrt(n as int, r as int),
        r < 0x1_0000_0000_0000_0000u128,
{
    let mut lo: u128 = 0;
    let mut hi: u128 = 0x1_0000_0000_0000_0000;
    assert(hi * hi > n) by (nonlinear_arith)
        requires
            hi == 0x1_0000_0000_0000_0000u128,
            n <= u128::MAX,
    ;
    while hi - lo > 1
        invariant
            lo < hi <= 0x1_0000_0000_0000_0000u128,
            lo * lo <= n,
            n < hi * hi,
        decreases hi - lo,
    {
        let mid: u128 = lo + (hi - lo) / 2;
        assert(mid * mid <= u128::MAX) by (nonlinear_arith)
            requires
                mid < 0x1_0000_0000_0000_0000u128,
        ;
        if mid * mid <= n {
            lo = mid;
        } else {
            hi = mid;
        }
    }
    assert(hi == lo + 1);
    proof {
        lemma_floor_sqrt_is(n as nat, lo as nat);
    }
    lo
}


/// Largest absolute value a component of a free vector (an offset or a
/// difference of two vertices) may take in the products below.
pub const VEC_LIMIT: i64 = 1099511627776;

/// Both components lie within `VEC_LIMIT`.
pub open spec fn small(v: Vec2) -> bool {
    -VEC_LIMIT <= v.x <= VEC_LIMIT && -VEC_LIMIT <= v.y <= VEC_LIMIT
}

/// Integer division rounding toward zero, for a positive divisor.
pub open spec fn div_trunc(a: int, b: int) -> int {
    if a >= 0 {
        a / b
    } else {
        -((-a) / b)
    }
}

pub open spec fn len2_spec(v: Vec2) -> int {
    v.x * v.x + v.y * v.y
}

/// `v` scaled to length `UNIT` (rounded toward zero), or zero for the zero vector.
pub open spec fn norm_spec(v: Vec2) -> Vec2 {
    let l = floor_sqrt((len2_spec(v) * UNIT * UNIT) as nat) as int;
    if l == 0 {
        Vec2 { x: 0, y: 0 }
    } else {
        Vec2 {
            x: div_trunc(v.x * UNIT * UNIT, l) as i64,
            y: div_trunc(v.y * UNIT * UNIT, l) as i64,
        }
    }
}

/// Squared distance between two points.
pub fn distance2(a: Vec2, b: Vec2) -> (r: i128)
    requires
        in_range(a),
        in_range(b),
    ensures
        r == dist2_spec(a, b),
{
    let dx = a.x as i128 - b.x as i128;
    let dy = a.y as i128 - b.y as i128;
    assert(dx * dx <= 0x10_0000_0000_0000_0000i128) by (nonlinear_arith)
        requires
            -0x8000_0000i128 <= dx <= 0x8000_0000i128,
    ;
    assert(dy * dy <= 0x10_0000_0000_0000_0000i128) by (nonlinear_arith)
        requires
            -0x8000_0000i128 <= dy <= 0x8000_0000i128,
    ;
    assert(dx * dx >= 0 && dy * dy >= 0) by (nonlinear_arith);
    dx * dx + dy * dy
}

proof fn lemma_mul_small(a: int, b: int)
    requires
        -VEC_LIMIT <= a <= VEC_LIMIT,
        -VEC_LIMIT <= b <= VEC_LIMIT,
    ensures
        -0x100_0000_0000_0000_0000_0000 <= a * b <= 0x100_0000_0000_0000_0000_0000,
{
    assert(-0x100_0000_0000_0000_0000_0000 <= a * b <= 0x100_0000_0000_0000_0000_0000)
        by (nonlinear_arith)
        requires
            -0x100_0000_0000 <= a <= 0x100_0000_0000,
            -0x100_0000_0000 <= b <= 0x100_0000_0000,
    ;
}

/// Cross product `a.x * b.y - a.y * b.x`.
pub fn cross2(a: Vec2, b: Vec2) -> (r: i128)
    requires
        small(a),
        small(b),
    ensures
        r == cross_spec(a.x as int, a.y as int, b.x as int, b.y as int),
{
    proof {
        lemma_mul_small(a.x as int, b.y as int);
        lemma_mul_small(a.y as int, b.x as int);
    }
    (a.x as i128) * (b.y as i128) - (a.y as i128) * (b.x as i128)
}

/// Dot product `a.x * b.x + a.y * b.y`.
pub fn dot_prod(a: Vec2, b: Vec2) -> (r: i128)
    requires
        small(a),
        small(b),
    ensures
        r == a.x * b.x + a.y * b.y,
{
    proof {
        lemma_mul_small(a.x as int, b.x as int);
        lemma_mul_small(a.y as int, b.y as int);
    }
    (a.x as i128) * (b.x as i128) + (a.y as i128) * (b.y as i128)
}

/// Squared length of a vector.
pub fn vec_len2(v: Vec2) -> (r: i128)
    requires
        small(v),
    ensures
        r == len2_spec(v),
        r >= 0,
{
    proof {
        lemma_mul_small(v.x as int, v.x as int);
        lemma_mul_small(v.y as int, v.y as int);
        assert(v.x * v.x >= 0 && v.y * v.y >= 0) by (nonlinear_arith);
    }
    (v.x as i128) * (v.x as i128) + (v.y as i128) * (v.y as i128)
}

/// The difference `b - a` of two points.
pub fn diff(a: Vec2, b: Vec2) -> (r: Vec2)
    requires
        in_range(a),
        in_range(b),
    ensures
        r.x == b.x - a.x,
        r.y == b.y - a.y,
        small(r),
{
    Vec2 { x: b.x - a.x, y: b.y - a.y }
}

/// Whether the path `p0 -> p1 -> p2` turns right: the cross product of
/// `p1 - p0` and `p2 - p1` is negative.
pub fn is_right_turn(p0: Vec2, p1: Vec2, p2: Vec2) -> (r: bool)
    requires
        in_range(p0),
        in_range(p1),
        in_range(p2),
    ensures
        r == (turn_spec(p0, p1, p2) < 0),
{
    let v0 = diff(p0, p1);
    let v1 = diff(p1, p2);
    cross2(v0, v1) < 0
}

proof fn lemma_scaled_component_le_root(c: int, n: int, l: int)
    requires
        0 <= c,
        c * c <= n,
        is_floor_sqrt(n, l),
    ensures
        c <= l,
{
    if c > l {
        assert((l + 1) * (l + 1) <= c * c) by (nonlinear_arith)
            requires
                0 <= l + 1 <= c,
        ;
    }
}

proof fn lemma_norm_component(v: int, w: int, l: int)
    requires
        -VEC_LIMIT <= v <= VEC_LIMIT,
        -VEC_LIMIT <= w <= VEC_LIMIT,
        l > 0,
        is_floor_sqrt((v * v + w * w) * UNIT * UNIT, l),
    ensures
        -UNIT <= div_trunc(v * UNIT * UNIT, l) <= UNIT,
{
    let a = if v >= 0 { v } else { -v };
    let c = a * UNIT;
    assert(a * a == v * v) by (nonlinear_arith)
        requires
            a == v || a == -v,
    ;
    assert(w * w >= 0) by (nonlinear_arith);
    assert(c * c <= (v * v + w * w) * UNIT * UNIT) by (nonlinear_arith)
        requires
            c == a * UNIT,
            a * a == v * v,
            w * w >= 0,
    ;
    assert(c >= 0) by (nonlinear_arith)
        requires
            c == a * UNIT,
            a >= 0,
    ;
    lemma_scaled_component_le_root(c, (v * v + w * w) * UNIT * UNIT, l);
    assert(a * UNIT * UNIT <= l * UNIT) by (nonlinear_arith)
        requires
            a * UNIT <= l,
    ;
    assert((a * UNIT * UNIT) / l <= UNIT) by (nonlinear_arith)
        requires
            a * UNIT * UNIT <= l * UNIT,
            l > 0,
            a >= 0,
    ;
    assert((a * UNIT * UNIT) / l >= 0) by (nonlinear_arith)
        requires
            l > 0,
            a >= 0,
    ;
    if v < 0 {
        assert(-(v * UNIT * UNIT) == a * UNIT * UNIT) by (nonlinear_arith)
            requires
                a == -v,
        ;
        assert(v * UNIT * UNIT < 0) by (nonlinear_arith)
            requires
                v < 0,
        ;
    } else {
        assert(v * UNIT * UNIT >= 0) by (nonlinear_arith)
            requires
                v >= 0,
        ;
    }
}

/// The vector scaled to length `UNIT`, rounded toward zero; zero stays zero.
pub fn vec_norm(v: Vec2) -> (r: Vec2)
    requires
        small(v),
    ensures
        r == norm_spec(v),
        -UNIT <= r.x <= UNIT,
        -UNIT <= r.y <= UNIT,
{
    let l2 = vec_len2(v);
    assert(l2 <= 0x2_0000_0000_0000_0000_0000) by (nonlinear_arith)
        requires
            l2 == v.x * v.x + v.y * v.y,
            -0x100_0000_0000 <= v.x <= 0x100_0000_0000,
            -0x100_0000_0000 <= v.y <= 0x100_0000_0000,
    ;
    let unit = UNIT as i128;
    let n = l2 * unit * unit;
    assert(n >= 0) by (nonlinear_arith)
        requires
            n == l2 * unit * unit,
            l2 >= 0,
    ;
    let l = isqrt(n as u128) as i128;
    assert(l <= 0x1_0000_0000_0000_0000_0000_0000) by (nonlinear_arith)
        requires
            l * l <= n,
            n <= 0x2_0000_0000_0000_0000_0000 * 0x1_0000_0000,
            l >= 0,
    ;
    if l == 0 {
        return Vec2 { x: 0, y: 0 };
    }
    proof {
        lemma_floor_sqrt_is(n as nat, l as nat);
        lemma_norm_component(v.x as int, v.y as int, l as int);
        lemma_norm_component(v.y as int, v.x as int, l as int);
        assert((v.y * v.y + v.x * v.x) == (v.x * v.x + v.y * v.y));
    }
    let x = (v.x as i128) * unit * unit / l;
    let y = (v.y as i128) * unit * unit / l;
    Vec2 { x: x as i64, y: y as i64 }
}


/// The term of the shoelace sum contributed by the edge from `a` to `b`.
pub open spec fn term_spec(a: Vec2, b: Vec2) -> int {
    (b.x - a.x) * (b.y + a.y)
}

/// The term of edge `i` of the closed polygon `s` (from vertex `i` to the
/// next one, cyclically).
pub open spec fn edge_term(s: Seq<Vec2>, i: int) -> int {
    term_spec(s[i], s[(i + 1) % s.len() as int])
}

/// Sum of the first `k` edge terms.
pub open spec fn shoelace_upto(s: Seq<Vec2>, k: int) -> int
    decreases k,
{
    if k <= 0 {
        0
    } else {
        shoelace_upto(s, k - 1) + edge_term(s, k - 1)
    }
}

/// The signed shoelace sum `sum of (x[i+1] - x[i]) * (y[i+1] + y[i])` of a closed
/// polygon; positive for counter-clockwise order in screen coordinates
/// (y axis pointing down).
pub open spec fn shoelace(s: Seq<Vec2>) -> int {
    shoelace_upto(s, s.len() as int)
}

pub open spec fn all_in_range(s: Seq<Vec2>) -> bool {
    forall|i: int| 0 <= i < s.len() ==> #[trigger] in_range(s[i])
}

/// One term of the shoelace sum.
pub fn shoelace_term(a: Vec2, b: Vec2) -> (r: i128)
    requires
        in_range(a),
        in_range(b),
    ensures
        r == term_spec(a, b),
        -0x4000_0000_0000_0000i128 <= r <= 0x4000_0000_0000_0000i128,
{
    let dx = b.x as i128 - a.x as i128;
    let sy = b.y as i128 + a.y as i128;
    assert(-0x4000_0000_0000_0000i128 <= dx * sy <= 0x4000_0000_0000_0000i128)
        by (nonlinear_arith)
        requires
            -0x8000_0000i128 <= dx <= 0x8000_0000i128,
            -0x8000_0000i128 <= sy <= 0x8000_0000i128,
    ;
    dx * sy
}

/// Whether the closed polygon through `points` is counter-clockwise: its
/// shoelace sum is positive.
pub fn is_ccw(points: &[Vec2]) -> (r: bool)
    requires
        points@.len() >= 1,
        all_in_range(points@),
    ensures
        r == (shoelace(points@) > 0),
{
    let n = points.len();
    let mut sum: i128 = 0;
    let mut i: usize = 0;
    while i + 1 < n
        invariant
            n == points@.len(),
            n >= 1,
            all_in_range(points@),
            i < n,
            sum == shoelace_upto(points@, i as int),
            -(i as int) * 0x4000_0000_0000_0000 <= sum <= (i as int) * 0x4000_0000_0000_0000,
        decreases n - i,
    {
        assert(in_range(points@[i as int]));
        assert(in_range(points@[i + 1]));
        let t = shoelace_term(points[i], points[i + 1]);
        assert((i + 1) % (n as int) == i + 1) by {
            vstd::arithmetic::div_mod::lemma_small_mod((i + 1) as nat, n as nat);
        }
        sum = sum + t;
        i = i + 1;
    }
    assert(in_range(points@[n - 1]));
    assert(in_range(points@[0]));
    let t = shoelace_term(points[n - 1], points[0]);
    assert(((n - 1) + 1) % (n as int) == 0) by {
        vstd::arithmetic::div_mod::lemma_mod_self_0(n as int);
    }
    sum = sum + t;
    sum > 0
}


/// The vector turned a quarter turn: `(-v.y, v.x)`.
pub open spec fn perp_spec(v: Vec2) -> Vec2 {
    Vec2 { x: -v.y as i64, y: v.x as i64 }
}

/// `v` with both components negated.
pub open spec fn neg_spec(v: Vec2) -> Vec2 {
    Vec2 { x: -v.x as i64, y: -v.y as i64 }
}

/// The displacement `b - a`.
pub open spec fn diff_spec(a: Vec2, b: Vec2) -> Vec2 {
    Vec2 { x: (b.x - a.x) as i64, y: (b.y - a.y) as i64 }
}

/// `v` limited to the interval `[-VEC_LIMIT, VEC_LIMIT]`.
pub open spec fn clamp_spec(v: int) -> int {
    if v < -VEC_LIMIT {
        -VEC_LIMIT as int
    } else if v > VEC_LIMIT {
        VEC_LIMIT as int
    } else {
        v
    }
}

/// The miter offset vector at vertex `pos` between the edges `prev -> pos`
/// and `pos -> next`, in units of `1 / UNIT`.
///
/// With `p1`, `p2` the two edge normals (edge vectors turned a quarter turn)
/// of lengths `L1`, `L2`, the miter vector is
/// `(p1 * L2 + p2 * L1) / (L1 * L2 + p1 . p2)`: the sum of the two unit
/// normals divided by `1 + cos(t)`, `t` the angle between the normals; this
/// equals the normalized bisector
/// divided by `sqrt((1 + cos(t)) / 2)`. Moving both edges by `d` along their
/// normals moves their common vertex by `d` times this vector. The lengths
/// are taken as `floor_sqrt(|p|^2 * UNIT^2)`, the result rounded toward zero and
/// limited to `VEC_LIMIT`; a zero-length edge or edges that fold back onto
/// each other give the zero vector.
pub open spec fn miter_spec(prev: Vec2, pos: Vec2, next: Vec2) -> Vec2 {
    let p1 = perp_spec(diff_spec(prev, pos));
    let p2 = perp_spec(diff_spec(pos, next));
    let l1 = floor_sqrt((len2_spec(p1) * UNIT * UNIT) as nat) as int;
    let l2 = floor_sqrt((len2_spec(p2) * UNIT * UNIT) as nat) as int;
    let den = l1 * l2 + (p1.x * p2.x + p1.y * p2.y) * UNIT * UNIT;
    if l1 == 0 || l2 == 0 || den <= 0 {
        Vec2 { x: 0, y: 0 }
    } else {
        Vec2 {
            x: clamp_spec(div_trunc((p1.x * l2 + p2.x * l1) * UNIT * UNIT, den)) as i64,
            y: clamp_spec(div_trunc((p1.y * l2 + p2.y * l1) * UNIT * UNIT, den)) as i64,
        }
    }
}

/// The label direction at `pos`: the unit miter direction, pointing away
/// from the turn (flipped unless the path turns right at `pos`).
pub open spec fn label_dir_spec(prev: Vec2, pos: Vec2, next: Vec2) -> Vec2 {
    let m = miter_spec(prev, pos, next);
    if turn_spec(prev, pos, next) < 0 {
        norm_spec(m)
    } else {
        norm_spec(neg_spec(m))
    }
}

fn clamp(v: i128) -> (r: i64)
    ensures
        r == clamp_spec(v as int),
{
    if v < -(VEC_LIMIT as i128) {
        -VEC_LIMIT
    } else if v > VEC_LIMIT as i128 {
        VEC_LIMIT
    } else {
        v as i64
    }
}

fn scaled_len(p: Vec2) -> (r: i128)
    requires
        -0x8000_0000 <= p.x <= 0x8000_0000,
        -0x8000_0000 <= p.y <= 0x8000_0000,
    ensures
        r == floor_sqrt((len2_spec(p) * UNIT * UNIT) as nat),
        0 <= r <= 0x1_0000_0000_0000,
{
    let l2 = vec_len2(p);
    assert(l2 <= 0x8000_0000_0000_0000) by (nonlinear_arith)
        requires
            l2 == p.x * p.x + p.y * p.y,
            -0x8000_0000 <= p.x <= 0x8000_0000,
            -0x8000_0000 <= p.y <= 0x8000_0000,
    ;
    let unit = UNIT as i128;
    let n = l2 * unit * unit;
    assert(0 <= n <= 0x8000_0000_0000_0000 * 0x1_0000_0000) by (nonlinear_arith)
        requires
            n == l2 * unit * unit,
            0 <= l2 <= 0x8000_0000_0000_0000,
            unit == 0x10000,
    ;
    let l = isqrt(n as u128);
    assert(l <= 0x1_0000_0000_0000) by (nonlinear_arith)
        requires
            l * l <= n,
            n <= 0x8000_0000_0000_0000 * 0x1_0000_0000,
    ;
    l as i128
}

fn mul_len(c: i64, l: i128) -> (r: i128)
    requires
        -0x8000_0000 <= c <= 0x8000_0000,
        0 <= l <= 0x1_0000_0000_0000,
    ensures
        r == c * l,
        -0x8000_0000_0000_0000_0000 <= r <= 0x8000_0000_0000_0000_0000,
{
    assert(-0x8000_0000_0000_0000_0000 <= c * l <= 0x8000_0000_0000_0000_0000) by (nonlinear_arith)
        requires
            -0x8000_0000 <= c <= 0x8000_0000,
            0 <= l <= 0x1_0000_0000_0000,
    ;
    c as i128 * l
}

/// The miter offset vector at `pos`, see `miter_spec`.
pub fn miter_vec(prev: Vec2, pos: Vec2, next: Vec2) -> (r: Vec2)
    requires
        in_range(prev),
        in_range(pos),
        in_range(next),
    ensures
        r == miter_spec(prev, pos, next),
        small(r),
{
    let v01 = diff(prev, pos);
    let v12 = diff(pos, next);
    let p1 = Vec2 { x: -v01.y, y: v01.x };
    let p2 = Vec2 { x: -v12.y, y: v12.x };
    let l1 = scaled_len(p1);
    let l2 = scaled_len(p2);
    let unit = UNIT as i128;
    let dot = dot_prod(p1, p2);
    assert(-0x8000_0000_0000_0000 <= dot <= 0x8000_0000_0000_0000) by (nonlinear_arith)
        requires
            dot == p1.x * p2.x + p1.y * p2.y,
            -0x8000_0000 <= p1.x <= 0x8000_0000,
            -0x8000_0000 <= p1.y <= 0x8000_0000,
            -0x8000_0000 <= p2.x <= 0x8000_0000,
            -0x8000_0000 <= p2.y <= 0x8000_0000,
    ;
    assert(0 <= l1 * l2 <= 0x1_0000_0000_0000 * 0x1_0000_0000_0000) by (nonlinear_arith)
        requires
            0 <= l1 <= 0x1_0000_0000_0000,
            0 <= l2 <= 0x1_0000_0000_0000,
    ;
    let den = l1 * l2 + dot * unit * unit;
    if l1 == 0 || l2 == 0 || den <= 0 {
        return Vec2 { x: 0, y: 0 };
    }
    let nx = (mul_len(p1.x, l2) + mul_len(p2.x, l1)) * unit * unit;
    let ny = (mul_len(p1.y, l2) + mul_len(p2.y, l1)) * unit * unit;
    Vec2 { x: clamp(nx / den), y: clamp(ny / den) }
}

/// Miter vectors are within `VEC_LIMIT`.
pub proof fn lemma_miter_small(prev: Vec2, pos: Vec2, next: Vec2)
    ensures
        small(miter_spec(prev, pos, next)),
{
}

/// The label direction at `pos`, see `label_dir_spec`.
pub fn label_dir(prev: Vec2, pos: Vec2, next: Vec2) -> (r: Vec2)
    requires
        in_range(prev),
        in_range(pos),
        in_range(next),
    ensures
        r == label_dir_spec(prev, pos, next),
{
    let m = miter_vec(prev, pos, next);
    let v01 = diff(prev, pos);
    let v12 = diff(pos, next);
    if cross2(v01, v12) < 0 {
        vec_norm(m)
    } else {
        vec_norm(Vec2 { x: -m.x, y: -m.y })
    }
}


proof fn lemma_reversed_edge_term(s: Seq<Vec2>, k: int)
    requires
        s.len() >= 1,
        0 <= k < s.len() - 1,
    ensures
        edge_term(s.reverse(), k) == -edge_term(s, s.len() - 2 - k),
{
    let n = s.len() as int;
    vstd::arithmetic::div_mod::lemma_small_mod((k + 1) as nat, n as nat);
    vstd::arithmetic::div_mod::lemma_small_mod((n - 1 - k) as nat, n as nat);
    let a = s[n - 1 - k];
    let b = s[n - 2 - k];
    assert((b.x - a.x) * (b.y + a.y) == -((a.x - b.x) * (a.y + b.y))) by (nonlinear_arith);
}

proof fn lemma_reversed_prefix(s: Seq<Vec2>, k: int)
    requires
        s.len() >= 1,
        0 <= k <= s.len() - 1,
    ensures
        shoelace_upto(s.reverse(), k) == -(shoelace_upto(s, s.len() - 1) - shoelace_upto(
            s,
            s.len() - 1 - k,
        )),
    decreases k,
{
    if k > 0 {
        lemma_reversed_prefix(s, k - 1);
        lemma_reversed_edge_term(s, k - 1);
    }
}

/// Reversing the vertex order of a closed polygon negates its shoelace sum.
pub proof fn lemma_shoelace_reverse(s: Seq<Vec2>)
    requires
        s.len() >= 1,
    ensures
        shoelace(s.reverse()) == -shoelace(s),
{
    let n = s.len() as int;
    let r = s.reverse();
    lemma_reversed_prefix(s, n - 1);
    vstd::arithmetic::div_mod::lemma_mod_self_0(n);
    let a = s[n - 1];
    let b = s[0];
    assert(r[n - 1] == b && r[0] == a);
    assert((a.x - b.x) * (a.y + b.y) == -((b.x - a.x) * (b.y + a.y))) by (nonlinear_arith);
    assert(edge_term(r, n - 1) == -edge_term(s, n - 1));
}


/// The truncated average of `n` coordinates within range is within range.
pub proof fn lemma_average_bound(sum: int, n: int)
    requires
        n > 0,
        -n * COORD_LIMIT <= sum <= n * COORD_LIMIT,
    ensures
        -COORD_LIMIT <= div_trunc(sum, n) <= COORD_LIMIT,
{
    if sum >= 0 {
        assert(sum / n <= COORD_LIMIT) by (nonlinear_arith)
            requires
                0 <= sum <= n * COORD_LIMIT,
                n > 0,
        ;
        assert(sum / n >= 0) by (nonlinear_arith)
            requires
                sum >= 0,
                n > 0,
        ;
    } else {
        assert((-sum) / n <= COORD_LIMIT) by (nonlinear_arith)
            requires
                0 <= -sum <= n * COORD_LIMIT,
                n > 0,
        ;
        assert((-sum) / n >= 0) by (nonlinear_arith)
            requires
                -sum >= 0,
                n > 0,
        ;
    }
}

} // verus!
