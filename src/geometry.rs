use vstd::prelude::*;

verus! {

/// A point or a displacement in world space, in millimetres.
#[derive(Clone, Copy, Debug, PartialEq, Eq, Structural)]
pub struct Vec3i {
    pub x: i32,
    pub y: i32,
    pub z: i32,
}

/// Squared Euclidean distance between two points.
pub open spec fn dist_sq(a: Vec3i, b: Vec3i) -> int {
    (a.x - b.x) * (a.x - b.x) + (a.y - b.y) * (a.y - b.y) + (a.z - b.z) * (a.z - b.z)
}

/// Whether two points lie strictly closer than `radius` to each other.
pub open spec fn within(a: Vec3i, b: Vec3i, radius: u32) -> bool {
    dist_sq(a, b) < radius * radius
}

/// The nearest value of `i32` to `v`.
pub open spec fn clamp_i32(v: int) -> i32 {
    if v > i32::MAX {
        i32::MAX
    } else if v < i32::MIN {
        i32::MIN
    } else {
        v as i32
    }
}

impl Vec3i {
    pub fn new(x: i32, y: i32, z: i32) -> (v: Vec3i)
        ensures
            v == (Vec3i { x, y, z }),
    {
        Vec3i { x, y, z }
    }
}

fn square_diff(a: i32, b: i32) -> (r: i128)
    ensures
        r == (a - b) * (a - b),
        0 <= r <= 0x1_0000_0000_0000_0000,
{
    let d = a as i128 - b as i128;
    assert(-0x1_0000_0000 <= d <= 0x1_0000_0000);
    assert(0 <= d * d <= 0x1_0000_0000_0000_0000) by (nonlinear_arith)
        requires
            -0x1_0000_0000 <= d <= 0x1_0000_0000,
    ;
    d * d
}

/// Squared distance between two points.
pub fn distance_sq(a: &Vec3i, b: &Vec3i) -> (r: i128)
    ensures
        r == dist_sq(*a, *b),
{
    square_diff(a.x, b.x) + square_diff(a.y, b.y) + square_diff(a.z, b.z)
}

/// Whether `a` and `b` lie strictly closer than `radius`.
pub fn is_within(a: &Vec3i, b: &Vec3i, radius: u32) -> (r: bool)
    ensures
        r == within(*a, *b, radius),
{
    let r = radius as i128;
    assert(0 <= r * r <= 0x1_0000_0000_0000_0000) by (nonlinear_arith)
        requires
            0 <= r <= u32::MAX,
    ;
    let rr = r * r;
    distance_sq(a, b) < rr
}

/// `v` saturated to the range of `i32`.
pub fn saturate_i32(v: i128) -> (r: i32)
    ensures
        r == clamp_i32(v as int),
{
    if v > i32::MAX as i128 {
        i32::MAX
    } else if v < i32::MIN as i128 {
        i32::MIN
    } else {
        v as i32
    }
}

/// The largest `r` with `r * r <= n`, for `n >= 0`.
pub open spec fn sqrt_floor(n: int) -> int {
    choose|r: int| is_root_floor(n, r)
}

pub open spec fn is_root_floor(n: int, r: int) -> bool {
    0 <= r && r * r <= n < (r + 1) * (r + 1)
}

/// Only one root lies between two consecutive squares.
pub proof fn lemma_sqrt_floor(n: int, r: int)
    requires
        0 <= r,
        r * r <= n < (r + 1) * (r + 1),
    ensures
        sqrt_floor(n) == r,
{
    assert(is_root_floor(n, r));
    let c = sqrt_floor(n);
    assert(0 <= c && c * c <= n < (c + 1) * (c + 1));
    if c < r {
        assert((c + 1) * (c + 1) <= r * r) by (nonlinear_arith)
            requires
                0 <= c + 1 <= r,
        ;
    } else if r < c {
        assert((r + 1) * (r + 1) <= c * c) by (nonlinear_arith)
            requires
                0 <= r + 1 <= c,
        ;
    }
}

/// Integer square root.
pub fn isqrt(n: u128) -> (r: u128)
    ensures
        r == sqrt_floor(n as int),
        r * r <= n < (r + 1) * (r + 1),
        r < 0x1_0000_0000_0000_0000,
{
    let mut lo: u128 = 0;
    let mut hi: u128 = 0x1_0000_0000_0000_0000;
    assert(n < hi * hi) by (nonlinear_arith)
        requires
            hi == 0x1_0000_0000_0000_0000,
            n <= u128::MAX,
    ;
    while hi - lo > 1
        invariant
            lo < hi <= 0x1_0000_0000_0000_0000,
            lo * lo <= n,
            n < hi * hi,
        decreases hi - lo,
    {
        let mid = lo + (hi - lo) / 2;
        assert(mid * mid < 0x1_0000_0000_0000_0000 * 0x1_0000_0000_0000_0000) by (nonlinear_arith)
            requires
                mid < 0x1_0000_0000_0000_0000,
        ;
        if mid * mid <= n {
            lo = mid;
        } else {
            hi = mid;
        }
    }
    assert(hi == lo + 1);
    proof {
        lemma_sqrt_floor(n as int, lo as int);
    }
    lo
}

/// `a / b` rounded toward zero.
pub open spec fn div_trunc(a: int, b: int) -> int {
    if a >= 0 {
        a / b
    } else {
        -((-a) / b)
    }
}

/// `a / b` rounded toward zero, for a positive `b`.
pub fn divide_trunc(a: i128, b: i128) -> (r: i128)
    requires
        b > 0,
        a > i128::MIN,
    ensures
        r == div_trunc(a as int, b as int),
{
    if a >= 0 {
        a / b
    } else {
        let m = -a;
        -(m / b)
    }
}

/// How far a coordinate moves along a direction component `dir` (of a
/// vector scaled to 1000) at `speed` millimetres per second over `dt`
/// milliseconds, rounded toward zero.
pub open spec fn travel(dir: int, speed: int, dt: int) -> int {
    div_trunc(dir * speed * dt, 1_000_000)
}

/// The coordinate `c` moved by `travel(dir, speed, dt)`, kept within `i32`.
pub open spec fn moved(c: i32, dir: int, speed: int, dt: int) -> i32 {
    clamp_i32(c + travel(dir, speed, dt))
}

pub fn move_coord(c: i32, dir: i32, speed: u64, dt: u32) -> (r: i32)
    requires
        -1_000_000 <= dir <= 1_000_000,
        speed <= 0x100_0000_0000,
    ensures
        r == moved(c, dir as int, speed as int, dt as int),
{
    let d = dir as i128;
    let s = speed as i128;
    let t = dt as i128;
    assert(-0x1000_0000_0000_0000 <= d * s <= 0x1000_0000_0000_0000) by (nonlinear_arith)
        requires
            -1_000_000 <= d <= 1_000_000,
            0 <= s <= 0x100_0000_0000,
    ;
    let ds = d * s;
    assert(-0x1000_0000_0000_0000_0000_0000 <= ds * t <= 0x1000_0000_0000_0000_0000_0000)
        by (nonlinear_arith)
        requires
            -0x1000_0000_0000_0000 <= ds <= 0x1000_0000_0000_0000,
            0 <= t <= 0xffff_ffff,
    ;
    let step = divide_trunc(ds * t, 1_000_000);
    saturate_i32(c as i128 + step)
}

/// Point `from` after moving toward `to` at `speed` millimetres per second
/// for `dt` milliseconds, each coordinate rounded toward zero; it stays put
/// when the two points coincide.
pub open spec fn chased(from: Vec3i, to: Vec3i, speed: int, dt: int) -> Vec3i {
    let len = sqrt_floor(dist_sq(to, from));
    if len == 0 {
        from
    } else {
        Vec3i {
            x: clamp_i32(from.x + div_trunc((to.x - from.x) * speed * dt, len * 1000)),
            y: clamp_i32(from.y + div_trunc((to.y - from.y) * speed * dt, len * 1000)),
            z: clamp_i32(from.z + div_trunc((to.z - from.z) * speed * dt, len * 1000)),
        }
    }
}

fn chase_coord(c: i32, target: i32, speed: u32, dt: u32, len: i128) -> (r: i32)
    requires
        len > 0,
        len <= 0x1_0000_0000_0000_0000,
    ensures
        r == clamp_i32(c + div_trunc((target - c) * speed * dt, len * 1000)),
{
    let d = target as i128 - c as i128;
    let s = speed as i128;
    let t = dt as i128;
    assert(-0x10_0000_0000_0000_0000 <= d * s <= 0x10_0000_0000_0000_0000) by (nonlinear_arith)
        requires
            -0x1_0000_0000 <= d <= 0x1_0000_0000,
            0 <= s <= 0xffff_ffff,
    ;
    let ds = d * s;
    assert(-0x10_0000_0000_0000_0000_0000_0000 <= ds * t <= 0x10_0000_0000_0000_0000_0000_0000)
        by (nonlinear_arith)
        requires
            -0x10_0000_0000_0000_0000 <= ds <= 0x10_0000_0000_0000_0000,
            0 <= t <= 0xffff_ffff,
    ;
    let step = divide_trunc(ds * t, len * 1000);
    assert(-0x10_0000_0000_0000_0000_0000_0000 <= step <= 0x10_0000_0000_0000_0000_0000_0000)
        by (nonlinear_arith)
        requires
            -0x10_0000_0000_0000_0000_0000_0000 <= ds * t <= 0x10_0000_0000_0000_0000_0000_0000,
            step == div_trunc(ds * t, len * 1000),
            len * 1000 >= 1,
    ;
    saturate_i32(c as i128 + step)
}

/// Moves `from` toward `to` at `speed` millimetres per second for `dt`
/// milliseconds.
pub fn chase(from: &Vec3i, to: &Vec3i, speed: u32, dt: u32) -> (r: Vec3i)
    ensures
        r == chased(*from, *to, speed as int, dt as int),
{
    let sq = distance_sq(to, from);
    assert(0 <= (to.x - from.x) * (to.x - from.x)) by (nonlinear_arith);
    assert(0 <= (to.y - from.y) * (to.y - from.y)) by (nonlinear_arith);
    assert(0 <= (to.z - from.z) * (to.z - from.z)) by (nonlinear_arith);
    let len = isqrt(sq as u128);
    if len == 0 {
        return *from;
    }
    let l = len as i128;
    Vec3i::new(
        chase_coord(from.x, to.x, speed, dt, l),
        chase_coord(from.y, to.y, speed, dt, l),
        chase_coord(from.z, to.z, speed, dt, l),
    )
}

/// `c` kept within `[-1000, 1000]`, the range of a unit vector's component
/// scaled to 1000.
pub open spec fn clamp_unit(c: i32) -> int {
    if c > 1000 {
        1000
    } else if c < -1000 {
        -1000
    } else {
        c as int
    }
}

pub fn unit_component(c: i32) -> (r: i32)
    ensures
        r == clamp_unit(c),
{
    if c > 1000 {
        1000
    } else if c < -1000 {
        -1000
    } else {
        c
    }
}

/// The horizontal vector `(x, z)` scaled to length 1000 against its length
/// rounded down (each component rounded toward zero); zero when that
/// length is zero.
pub open spec fn flat_unit(x: int, z: int) -> Vec3i {
    let len = sqrt_floor(x * x + z * z);
    if len == 0 {
        Vec3i { x: 0, y: 0, z: 0 }
    } else {
        Vec3i { x: div_trunc(x * 1000, len) as i32, y: 0, z: div_trunc(z * 1000, len) as i32 }
    }
}

/// Scales the horizontal vector `(x, z)`, whose components lie within
/// 4 000 000, to length 1000.
pub fn normalize_flat(x: i64, z: i64) -> (r: Vec3i)
    requires
        -4_000_000 <= x <= 4_000_000,
        -4_000_000 <= z <= 4_000_000,
    ensures
        r == flat_unit(x as int, z as int),
        -2000 <= r.x <= 2000,
        -2000 <= r.z <= 2000,
        r.y == 0,
{
    let xx = x as i128;
    let zz = z as i128;
    assert(0 <= xx * xx <= 16_000_000_000_000) by (nonlinear_arith)
        requires
            -4_000_000 <= xx <= 4_000_000,
    ;
    assert(0 <= zz * zz <= 16_000_000_000_000) by (nonlinear_arith)
        requires
            -4_000_000 <= zz <= 4_000_000,
    ;
    let sq = (xx * xx + zz * zz) as u128;
    let len = isqrt(sq);
    if len == 0 {
        return Vec3i::new(0, 0, 0);
    }
    let l = len as i128;
    assert(sq == xx * xx + zz * zz);
    assert(l <= 6_000_000) by (nonlinear_arith)
        requires
            l * l <= 32_000_000_000_000,
            l >= 0,
    ;
    let nx = divide_trunc(xx * 1000, l);
    let nz = divide_trunc(zz * 1000, l);
    proof {
        lemma_unit_bound(xx as int, zz as int, l as int);
        lemma_unit_bound(zz as int, xx as int, l as int);
    }
    Vec3i::new(nx as i32, 0, nz as i32)
}

proof fn lemma_unit_bound(a: int, b: int, l: int)
    requires
        l > 0,
        l * l <= a * a + b * b < (l + 1) * (l + 1),
    ensures
        -2000 <= div_trunc(a * 1000, l) <= 2000,
{
    let m = if a >= 0 { a } else { -a };
    assert(m * m == a * a) by (nonlinear_arith)
        requires
            m == a || m == -a,
    ;
    assert(b * b >= 0) by (nonlinear_arith);
    assert(m <= l) by (nonlinear_arith)
        requires
            m >= 0,
            m * m <= a * a + b * b,
            a * a + b * b < (l + 1) * (l + 1),
            m == a || m == -a,
            l > 0,
    ;
    assert((m * 1000) / l <= 1000 + 1000) by (nonlinear_arith)
        requires
            0 <= m <= l,
            l > 0,
    ;
    assert((m * 1000) / l >= 0) by (nonlinear_arith)
        requires
            0 <= m,
            l > 0,
    ;
    if a >= 0 {
        assert(div_trunc(a * 1000, l) == (m * 1000) / l);
    } else {
        assert(-(a * 1000) == m * 1000);
    }
}

} // verus!
