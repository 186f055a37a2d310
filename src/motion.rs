//! Fixed-point vectors and the three integration steps: velocity from
//! acceleration, position from velocity, heading from spin.
//!
//! Lengths are in thousandths of a world unit, rates per second, time in
//! microseconds, and angles in thousandths of a degree.
use crate::timer::MICROS_PER_SECOND;
use vstd::arithmetic::div_mod::{lemma_fundamental_div_mod, lemma_fundamental_div_mod_converse};
use vstd::prelude::*;

verus! {

/// A full turn, in thousandths of a degree.
pub const FULL_TURN: u32 = 360_000;

/// Half a turn, in thousandths of a degree.
pub const HALF_TURN: u32 = 180_000;

/// A quarter turn, in thousandths of a degree.
pub const QUARTER_TURN: u32 = 90_000;

/// The length of a unit vector, in thousandths.
pub const UNIT: i64 = 1000;

/// A three-component fixed-point vector.
#[derive(Clone, Copy, Debug, PartialEq, Eq, Structural)]
pub struct Vec3 {
    pub x: i64,
    pub y: i64,
    pub z: i64,
}

/// Every component is at most `UNIT` in size.
pub open spec fn within_unit(v: Vec3) -> bool {
    &&& -UNIT <= v.x <= UNIT
    &&& -UNIT <= v.y <= UNIT
    &&& -UNIT <= v.z <= UNIT
}

/// `x` pinned into the range of `i64`.
pub open spec fn clamp64(x: int) -> int {
    if x < i64::MIN {
        i64::MIN as int
    } else if x > i64::MAX {
        i64::MAX as int
    } else {
        x
    }
}

/// Division that rounds toward zero, as the motion steps do for both signs.
pub open spec fn div_toward_zero(n: int, d: nat) -> int {
    if n >= 0 {
        n / (d as int)
    } else {
        -((-n) / (d as int))
    }
}

/// How far a quantity changing at `rate` per second moves in `dt` microseconds.
pub open spec fn per_elapsed(rate: int, dt: nat) -> int {
    div_toward_zero(rate * dt, MICROS_PER_SECOND as nat)
}

/// One explicit Euler step of a single component, saturating at the range of `i64`.
pub open spec fn stepped(value: int, rate: int, dt: nat) -> int {
    clamp64(value + per_elapsed(rate, dt))
}

impl Vec3 {
    pub open spec fn zero_spec() -> Vec3 {
        Vec3 { x: 0, y: 0, z: 0 }
    }

    /// This vector after `dt` microseconds of change at `rate` per second.
    pub open spec fn stepped_by(self, rate: Vec3, dt: nat) -> Vec3 {
        Vec3 {
            x: stepped(self.x as int, rate.x as int, dt) as i64,
            y: stepped(self.y as int, rate.y as int, dt) as i64,
            z: stepped(self.z as int, rate.z as int, dt) as i64,
        }
    }

    /// The squared length.
    pub open spec fn norm_sq(self) -> nat {
        (self.x * self.x + self.y * self.y + self.z * self.z) as nat
    }

    /// The vector of the same direction and length `UNIT`, each component
    /// rounded toward zero; the zero vector stays zero. The length is taken as
    /// the rounded-down root of the squared length, measured in millionths for a
    /// vector shorter than `UNIT` so that the root keeps enough digits.
    pub open spec fn normalized(self) -> Vec3 {
        let n = self.norm_sq();
        if n == 0 {
            Vec3::zero_spec()
        } else {
            let s = length_scale(n);
            let len = root((n * s * s) as nat);
            Vec3 {
                x: div_toward_zero(self.x * s * UNIT, len) as i64,
                y: div_toward_zero(self.y * s * UNIT, len) as i64,
                z: div_toward_zero(self.z * s * UNIT, len) as i64,
            }
        }
    }

    pub fn zero() -> (r: Vec3)
        ensures
            r == Vec3::zero_spec(),
    {
        Vec3 { x: 0, y: 0, z: 0 }
    }

    pub fn new(x: i64, y: i64, z: i64) -> (r: Vec3)
        ensures
            r == (Vec3 { x, y, z }),
    {
        Vec3 { x, y, z }
    }

    /// This vector after `dt` microseconds of change at `rate` per second.
    pub fn step_by(&self, rate: &Vec3, dt: u64) -> (r: Vec3)
        ensures
            r == self.stepped_by(*rate, dt as nat),
    {
        Vec3 {
            x: step_component(self.x, rate.x, dt),
            y: step_component(self.y, rate.y, dt),
            z: step_component(self.z, rate.z, dt),
        }
    }

    /// The unit vector of this direction (length `UNIT` up to rounding), or zero
    /// for the zero vector.
    pub fn normalize_or_zero(&self) -> (r: Vec3)
        ensures
            r == self.normalized(),
            self.norm_sq() == 0 <==> r == Vec3::zero_spec(),
            self.norm_sq() > 0 ==> (UNIT - 2) * (UNIT - 2) <= r.norm_sq() <= (UNIT + 2) * (
            UNIT + 2),
            within_unit(r),
    {
        let (ax, ay, az) = (magnitude(self.x), magnitude(self.y), magnitude(self.z));
        proof {
            lemma_square_bound(ax);
            lemma_square_bound(ay);
            lemma_square_bound(az);
        }
        let sq: u128 = ax * ax + ay * ay + az * az;
        proof {
            assert(ax * ax == self.x * self.x) by (nonlinear_arith)
                requires
                    ax == self.x || ax == -self.x,
            ;
            assert(ay * ay == self.y * self.y) by (nonlinear_arith)
                requires
                    ay == self.y || ay == -self.y,
            ;
            assert(az * az == self.z * self.z) by (nonlinear_arith)
                requires
                    az == self.z || az == -self.z,
            ;
            lemma_square_nonzero(self.x as int, self.y as int, self.z as int);
            assert(sq == self.norm_sq());
        }
        if sq == 0 {
            return Vec3 { x: 0, y: 0, z: 0 };
        }
        let s: u128 = if sq < 1_000_000 {
            1000
        } else {
            1
        };
        proof {
            if s == 1000 {
                assert(ax <= 1000 && ay <= 1000 && az <= 1000) by (nonlinear_arith)
                    requires
                        ax * ax + ay * ay + az * az < 1_000_000,
                        ax >= 0,
                        ay >= 0,
                        az >= 0,
                ;
            }
            assert(sq * s * s <= u128::MAX) by (nonlinear_arith)
                requires
                    s == 1 || (s == 1000 && sq < 1_000_000),
                    sq <= u128::MAX,
            ;
        }
        let m: u128 = sq * s * s;
        let (bx, by, bz) = (ax * s, ay * s, az * s);
        proof {
            assert(bx * bx + by * by + bz * bz == m) by (nonlinear_arith)
                requires
                    bx == ax * s,
                    by == ay * s,
                    bz == az * s,
                    m == sq * s * s,
                    sq == ax * ax + ay * ay + az * az,
            ;
            assert(bx * bx <= m && by * by <= m && bz * bz <= m) by (nonlinear_arith)
                requires
                    bx * bx + by * by + bz * bz == m,
            ;
            assert(m >= 1_000_000) by (nonlinear_arith)
                requires
                    m == sq * s * s,
                    s == 1 ==> sq >= 1_000_000,
                    s == 1000 ==> sq >= 1,
                    s == 1 || s == 1000,
            ;
        }
        let len = isqrt(m);
        proof {
            assert(len >= 1000) by (nonlinear_arith)
                requires
                    m < (len + 1) * (len + 1),
                    m >= 1_000_000,
                    len >= 0,
            ;
        }
        let r = Vec3 {
            x: unit_component(self.x, s, bx, len, m),
            y: unit_component(self.y, s, by, len, m),
            z: unit_component(self.z, s, bz, len, m),
        };
        proof {
            lemma_unit_length(bx as int, by as int, bz as int, len as int);
            assert(r.x * r.x == (((bx as int) * 1000) / (len as int)) * (((bx as int) * 1000) / (len as int))) by (nonlinear_arith)
                requires
                    r.x == ((bx as int) * 1000) / (len as int) || r.x == -(((bx as int) * 1000) / (len as int)),
            ;
            assert(r.y * r.y == (((by as int) * 1000) / (len as int)) * (((by as int) * 1000) / (len as int))) by (nonlinear_arith)
                requires
                    r.y == ((by as int) * 1000) / (len as int) || r.y == -(((by as int) * 1000) / (len as int)),
            ;
            assert(r.z * r.z == (((bz as int) * 1000) / (len as int)) * (((bz as int) * 1000) / (len as int))) by (nonlinear_arith)
                requires
                    r.z == ((bz as int) * 1000) / (len as int) || r.z == -(((bz as int) * 1000) / (len as int)),
            ;
            let qa = ((bx as int) * 1000) / (len as int);
            let qb = ((by as int) * 1000) / (len as int);
            let qc = ((bz as int) * 1000) / (len as int);
            assert(r.x * r.x + r.y * r.y + r.z * r.z == qa * qa + qb * qb + qc * qc);
            assert(r.norm_sq() == qa * qa + qb * qb + qc * qc);
            assert(998 * 998 <= qa * qa + qb * qb + qc * qc);
            if r == Vec3::zero_spec() {
                assert(r.x == 0 && r.y == 0 && r.z == 0);
                assert(r.x * r.x + r.y * r.y + r.z * r.z == 0) by (nonlinear_arith)
                    requires
                        r.x == 0,
                        r.y == 0,
                        r.z == 0,
                ;
            }
        }
        r
    }
}

proof fn lemma_square_bound(a: u128)
    requires
        a <= 0x8000_0000_0000_0000,
    ensures
        a * a <= 0x4000_0000_0000_0000_0000_0000_0000_0000,
{
    assert(a * a <= 0x8000_0000_0000_0000 * 0x8000_0000_0000_0000) by (nonlinear_arith)
        requires
            a <= 0x8000_0000_0000_0000,
    ;
}

proof fn lemma_square_nonzero(x: int, y: int, z: int)
    ensures
        x * x + y * y + z * z >= 0,
        x * x + y * y + z * z == 0 <==> (x == 0 && y == 0 && z == 0),
{
    assert(x * x >= 0 && y * y >= 0 && z * z >= 0) by (nonlinear_arith);
    assert(x != 0 ==> x * x > 0) by (nonlinear_arith);
    assert(y != 0 ==> y * y > 0) by (nonlinear_arith);
    assert(z != 0 ==> z * z > 0) by (nonlinear_arith);
}

/// The scale a squared length is measured at before its root is taken: a
/// vector shorter than `UNIT` is measured in millionths.
pub open spec fn length_scale(n: nat) -> int {
    if n < UNIT * UNIT {
        UNIT as int
    } else {
        1
    }
}

/// `(q * l)^2` brackets `a^2` from below within `2 * a * l`, where `q` is `a / l`
/// rounded down.
proof fn lemma_floor_square(a: int, l: int)
    requires
        a >= 0,
        l > 0,
    ensures
        (a / l) * l * ((a / l) * l) <= a * a,
        (a / l) * l * ((a / l) * l) >= a * a - 2 * a * l,
        a / l >= 0,
{
    lemma_fundamental_div_mod(a, l);
    let q = a / l;
    let r = a % l;
    assert(q >= 0) by (nonlinear_arith)
        requires
            a == l * q + r,
            0 <= r < l,
            a >= 0,
    ;
    assert(q * l * (q * l) <= a * a) by (nonlinear_arith)
        requires
            a == l * q + r,
            0 <= r,
            q >= 0,
            l > 0,
    ;
    assert(q * l * (q * l) >= a * a - 2 * a * l) by (nonlinear_arith)
        requires
            a == l * q + r,
            0 <= r < l,
            q >= 0,
            l > 0,
    ;
}

/// Scaling three non-negative parts of a vector by `UNIT` and dividing each by
/// the rounded-down root `len` of its squared length gives a vector whose
/// squared length is within rounding of `UNIT * UNIT`.
proof fn lemma_unit_length(a: int, b: int, c: int, len: int)
    requires
        a >= 0,
        b >= 0,
        c >= 0,
        len >= 1000,
        len * len <= a * a + b * b + c * c < (len + 1) * (len + 1),
    ensures
        ({
            let qa = (a * 1000) / len;
            let qb = ((b as int) * 1000) / (len as int);
            let qc = (c * 1000) / len;
            998 * 998 <= qa * qa + qb * qb + qc * qc <= 1002 * 1002
        }),
{
    let (x, y, z) = (a * 1000, b * 1000, c * 1000);
    let (qa, qb, qc) = (x / len, y / len, z / len);
    let m = a * a + b * b + c * c;
    let big = qa * qa + qb * qb + qc * qc;
    lemma_floor_square(x, len);
    lemma_floor_square(y, len);
    lemma_floor_square(z, len);
    assert(x * x + y * y + z * z == 1_000_000 * m) by (nonlinear_arith)
        requires
            x == a * 1000,
            y == b * 1000,
            z == c * 1000,
            m == a * a + b * b + c * c,
    ;
    let sum_sq = qa * len * (qa * len) + qb * len * (qb * len) + qc * len * (qc * len);
    assert(sum_sq == len * len * big) by (nonlinear_arith)
        requires
            sum_sq == qa * len * (qa * len) + qb * len * (qb * len) + qc * len * (qc * len),
            big == qa * qa + qb * qb + qc * qc,
    ;
    // upper bound
    assert(len * len * big < 1_000_000 * ((len + 1) * (len + 1)));
    assert(1_000_000 * ((len + 1) * (len + 1)) <= 1002 * 1002 * (len * len)) by (nonlinear_arith)
        requires
            len >= 1000,
    ;
    assert(big <= 1002 * 1002) by (nonlinear_arith)
        requires
            len * len * big < 1002 * 1002 * (len * len),
            len > 0,
    ;
    // lower bound
    let t = x + y + z;
    assert(t * t <= 3 * (x * x + y * y + z * z)) by (nonlinear_arith)
        requires
            t == x + y + z,
    ;
    assert(3_000_000 * m < 1733 * 1733 * ((len + 1) * (len + 1))) by (nonlinear_arith)
        requires
            m < (len + 1) * (len + 1),
            m >= 0,
    ;
    assert(t < 1733 * (len + 1)) by (nonlinear_arith)
        requires
            t * t < 1733 * 1733 * ((len + 1) * (len + 1)),
            t >= 0,
            len >= 0,
    ;
    assert(len * len * big >= 1_000_000 * m - 2 * t * len) by (nonlinear_arith)
        requires
            len * len * big == qa * len * (qa * len) + qb * len * (qb * len) + qc * len * (qc
                * len),
            qa * len * (qa * len) >= x * x - 2 * x * len,
            qb * len * (qb * len) >= y * y - 2 * y * len,
            qc * len * (qc * len) >= z * z - 2 * z * len,
            x * x + y * y + z * z == 1_000_000 * m,
            t == x + y + z,
    ;
    assert(2 * t * len <= 3466 * (len + 1) * len) by (nonlinear_arith)
        requires
            t < 1733 * (len + 1),
            len >= 0,
    ;
    assert(1_000_000 * m >= 1_000_000 * (len * len));
    assert(len * len * big > 996003 * (len * len)) by (nonlinear_arith)
        requires
            len * len * big >= 1_000_000 * (len * len) - 3466 * (len + 1) * len,
            len >= 1000,
    ;
    assert(big >= 998 * 998) by (nonlinear_arith)
        requires
            len * len * big > 996003 * (len * len),
            len > 0,
    ;
}

/// The absolute value, as an unsigned number.
fn magnitude(x: i64) -> (r: u128)
    ensures
        r == if x >= 0 { x as int } else { -x },
        r <= 0x8000_0000_0000_0000,
{
    if x >= 0 {
        x as u128
    } else {
        (-(x as i128)) as u128
    }
}

/// `x * s * UNIT / len`, rounded toward zero, where `len` is the rounded-down
/// root of a sum of squares that includes `(x * s)^2`.
fn unit_component(x: i64, s: u128, b: u128, len: u128, m: u128) -> (r: i64)
    requires
        b == (if x >= 0 { x as int } else { -x }) * s,
        0 < len,
        len * len <= m < (len + 1) * (len + 1),
        b * b <= m,
    ensures
        r == div_toward_zero(x * s * UNIT, len as nat),
        r == ((b as int) * 1000) / (len as int) || r == -(((b as int) * 1000) / (len as int)),
        -UNIT <= r <= UNIT,
{
    assert(b <= len) by (nonlinear_arith)
        requires
            b * b <= m < (len + 1) * (len + 1),
            b >= 0,
            len >= 0,
    ;
    assert((b as int) * 1000 / (len as int) <= 1000) by (nonlinear_arith)
        requires
            b <= len,
            len > 0,
            b >= 0,
    ;
    assert((b as int) * 1000 / (len as int) >= 0) by (nonlinear_arith)
        requires
            len > 0,
            b >= 0,
    ;
    assert(b <= 0x1_0000_0000_0000_0000) by (nonlinear_arith)
        requires
            b * b <= m,
            m <= u128::MAX,
            b >= 0,
    ;
    let q = (b * 1000) / len;
    let q64 = q as i64;
    if x >= 0 {
        assert(x * s * UNIT == b * 1000);
        q64
    } else {
        assert(x * s * UNIT == -(b * 1000)) by (nonlinear_arith)
            requires
                b == -x * s,
        ;
        -q64
    }
}

/// The rounded-down square root: the `r` with `r * r <= n < (r + 1) * (r + 1)`.
pub open spec fn is_root(n: nat, r: nat) -> bool {
    r * r <= n < (r + 1) * (r + 1)
}

/// The rounded-down square root of `n`.
pub open spec fn root(n: nat) -> nat
    decreases n,
{
    if n == 0 {
        0
    } else {
        let r = root((n - 1) as nat);
        if (r + 1) * (r + 1) <= n {
            r + 1
        } else {
            r
        }
    }
}

proof fn lemma_root_is_root(n: nat)
    ensures
        is_root(n, root(n)),
    decreases n,
{
    if n == 0 {
        assert(root(0) == 0);
        assert(is_root(0, 0)) by (nonlinear_arith);
    } else {
        lemma_root_is_root((n - 1) as nat);
        let r = root((n - 1) as nat);
        if (r + 1) * (r + 1) <= n {
            assert(n < ((r + 1) + 1) * ((r + 1) + 1)) by (nonlinear_arith)
                requires
                    n - 1 < (r + 1) * (r + 1),
                    r >= 0,
            ;
            assert(is_root(n, (r + 1) as nat));
            assert(root(n) == r + 1);
        } else {
            assert(is_root(n, r));
            assert(root(n) == r);
        }
    }
}

proof fn lemma_root_unique(n: nat, r: nat)
    requires
        is_root(n, r),
    ensures
        root(n) == r,
{
    lemma_root_is_root(n);
    let s = root(n);
    assert(s <= r) by (nonlinear_arith)
        requires
            s * s <= n < (r + 1) * (r + 1),
            r >= 0,
            s >= 0,
    ;
    assert(r <= s) by (nonlinear_arith)
        requires
            r * r <= n < (s + 1) * (s + 1),
            r >= 0,
            s >= 0,
    ;
}

/// The rounded-down square root, by bisection.
pub fn isqrt(n: u128) -> (r: u128)
    ensures
        is_root(n as nat, r as nat),
        r == root(n as nat),
{
    let mut lo: u128 = 0;
    let mut hi: u128 = 0x1_0000_0000_0000_0000;
    assert(n < hi * hi) by (nonlinear_arith)
        requires
            hi == 0x1_0000_0000_0000_0000int,
            n <= u128::MAX,
    ;
    while hi - lo > 1
        invariant
            lo < hi <= 0x1_0000_0000_0000_0000,
            lo * lo <= n,
            n < hi * hi,
        decreases hi - lo,
    {
        let mid = lo + (hi - lo) / 2;
        assert(mid * mid < 0x1_0000_0000_0000_0000 * 0x1_0000_0000_0000_0000) by (nonlinear_arith)
            requires
                mid < 0x1_0000_0000_0000_0000int,
        ;
        if mid * mid <= n {
            lo = mid;
        } else {
            hi = mid;
        }
    }
    assert(hi == lo + 1);
    proof {
        lemma_root_unique(n as nat, lo as nat);
    }
    lo
}

/// One Euler step of a single component, saturating at the range of `i64`.
pub fn step_component(value: i64, rate: i64, dt: u64) -> (r: i64)
    ensures
        r == stepped(value as int, rate as int, dt as nat),
{
    let mag = magnitude(rate);
    assert(mag * dt <= 0x8000_0000_0000_0000 * 0xffff_ffff_ffff_ffff) by (nonlinear_arith)
        requires
            mag <= 0x8000_0000_0000_0000int,
            dt <= 0xffff_ffff_ffff_ffffint,
            mag >= 0,
    ;
    let step: u128 = mag * (dt as u128) / (MICROS_PER_SECOND as u128);
    assert(step <= mag * dt) by (nonlinear_arith)
        requires
            step == mag * dt / 1_000_000,
            mag * dt >= 0,
    ;
    let v = value as i128;
    let s = step as i128;
    let sum: i128 = if rate >= 0 {
        v + s
    } else {
        v - s
    };
    proof {
        if rate < 0 {
            assert(rate * dt == -(mag * dt)) by (nonlinear_arith)
                requires
                    mag == -rate,
            ;
        } else {
            assert(rate * dt >= 0) by (nonlinear_arith)
                requires
                    rate >= 0,
                    dt >= 0,
            ;
        }
    }
    if sum > i64::MAX as i128 {
        i64::MAX
    } else if sum < i64::MIN as i128 {
        i64::MIN
    } else {
        sum as i64
    }
}

/// Position and velocity after one step per delta, in order: each step first
/// adds the acceleration to the velocity, then the new velocity to the
/// position (semi-implicit Euler).
pub open spec fn euler(p: Vec3, v: Vec3, a: Vec3, dts: Seq<nat>) -> (Vec3, Vec3)
    decreases dts.len(),
{
    if dts.len() == 0 {
        (p, v)
    } else {
        let (p0, v0) = euler(p, v, a, dts.drop_last());
        let d = dts.last();
        let v1 = v0.stepped_by(a, d);
        (p0.stepped_by(v1, d), v1)
    }
}

/// Velocity of a moving entity, per second.
#[derive(Clone, Copy, Debug, PartialEq, Eq, Structural)]
pub struct Velocity {
    pub value: Vec3,
}

impl Velocity {
    pub fn new(value: Vec3) -> (r: Velocity)
        ensures
            r.value == value,
    {
        Velocity { value }
    }
}

/// Acceleration of a moving entity, per second squared.
#[derive(Clone, Copy, Debug, PartialEq, Eq, Structural)]
pub struct Acceleration {
    pub value: Vec3,
}

impl Acceleration {
    pub fn new(value: Vec3) -> (r: Acceleration)
        ensures
            r.value == value,
    {
        Acceleration { value }
    }
}

/// Placement of an entity: position, heading about the `z` axis, and scale in
/// thousandths.
#[derive(Clone, Copy, Debug, PartialEq, Eq, Structural)]
pub struct Transform {
    pub translation: Vec3,
    /// Thousandths of a degree, below `FULL_TURN`.
    pub heading: u32,
    pub scale: Vec3,
}

impl Transform {
    /// The heading is below a full turn and no scale component is negative.
    pub open spec fn wf(self) -> bool {
        &&& self.heading < FULL_TURN
        &&& self.scale.x >= 0
        &&& self.scale.y >= 0
        &&& self.scale.z >= 0
    }

    /// Placed at `translation`, facing up, at full scale.
    pub fn from_translation(translation: Vec3) -> (r: Transform)
        ensures
            r.wf(),
            r == (Transform {
                translation,
                heading: 0,
                scale: Vec3 { x: UNIT, y: UNIT, z: UNIT },
            }),
    {
        Transform { translation, heading: 0, scale: Vec3 { x: UNIT, y: UNIT, z: UNIT } }
    }

    /// The same placement at another scale.
    pub fn with_scale(self, scale: Vec3) -> (r: Transform)
        ensures
            r == (Transform { scale, ..self }),
    {
        Transform { scale, ..self }
    }

    /// The direction this transform faces: its local up axis.
    pub fn up(&self) -> (r: Vec3)
        requires
            self.wf(),
        ensures
            r == facing(self.heading as int),
            within_unit(r),
    {
        facing_of(self.heading)
    }
}

/// The spin rate a ship turns with at full steering, in thousandths of a degree
/// per second.
pub const TURN_SPEED: u32 = 260_000;

/// Spin about the axis perpendicular to the play plane.
#[derive(Clone, Copy, Debug, PartialEq, Eq, Structural)]
pub struct Rotation {
    /// Thousandths of a degree per second at full steering.
    pub speed: u32,
    /// Steering, in thousandths: 1000 turns left at full speed, -1000 right.
    pub factor: i16,
}

impl Rotation {
    /// A ship's spin: full turning speed, no steering.
    pub fn new() -> (r: Rotation)
        ensures
            r.speed == TURN_SPEED,
            r.factor == 0,
    {
        Rotation { speed: TURN_SPEED, factor: 0 }
    }
}

/// The signed angle turned in `dt` microseconds, in thousandths of a degree.
pub open spec fn turned(rotation: Rotation, dt: nat) -> int {
    div_toward_zero(
        rotation.factor * rotation.speed * dt,
        (UNIT * MICROS_PER_SECOND) as nat,
    )
}

/// A heading after turning, brought back into one full turn.
pub open spec fn turned_heading(heading: nat, rotation: Rotation, dt: nat) -> nat {
    ((heading + turned(rotation, dt)) % (FULL_TURN as int)) as nat
}

/// Turns `heading` (below a full turn) by `rotation` for `dt` microseconds.
pub fn turn_heading(heading: u32, rotation: Rotation, dt: u64) -> (r: u32)
    requires
        heading < FULL_TURN,
    ensures
        r == turned_heading(heading as nat, rotation, dt as nat),
        r < FULL_TURN,
{
    let f: i64 = rotation.factor as i64;
    let fmag: u128 = magnitude(f);
    let speed = rotation.speed as u128;
    assert(fmag * speed <= 0x8000 * 0xffff_ffff) by (nonlinear_arith)
        requires
            fmag <= 0x8000int,
            speed <= 0xffff_ffffint,
            fmag >= 0,
    ;
    let fs = fmag * speed;
    assert(fs * dt <= 0x8000_0000_0000 * 0xffff_ffff_ffff_ffff) by (nonlinear_arith)
        requires
            fs <= 0x8000_0000_0000int,
            dt <= 0xffff_ffff_ffff_ffffint,
            fs >= 0,
    ;
    let amount: u128 = fs * (dt as u128) / 1_000_000_000;
    let m: u128 = amount % (FULL_TURN as u128);
    let full = FULL_TURN as u128;
    let h = heading as u128;
    proof {
        let p = rotation.factor * rotation.speed * dt;
        assert(fs * dt == if f >= 0 { p } else { -p }) by (nonlinear_arith)
            requires
                fs == fmag * speed,
                fmag == if f >= 0 { f as int } else { -f },
                f == rotation.factor,
                speed == rotation.speed,
                p == rotation.factor * rotation.speed * dt,
        ;
        assert(p >= 0 <==> f >= 0 || p == 0) by (nonlinear_arith)
            requires
                p == f * speed * dt,
                speed >= 0,
                dt >= 0,
        ;
    }
    let r: u128 = if f >= 0 {
        (h + m) % full
    } else {
        (h + full - m) % full
    };
    proof {
        let t = turned(rotation, dt as nat);
        lemma_fundamental_div_mod(amount as int, full as int);
        if f >= 0 {
            assert(t == amount);
            lemma_mod_shift(h as int, amount as int, full as int);
        } else {
            assert(t == -(amount as int) || amount == 0);
            if amount == 0 {
                assert(t == 0);
                assert(m == 0);
                lemma_fundamental_div_mod_converse(h + full, full as int, 1, h as int);
                lemma_fundamental_div_mod_converse(h as int, full as int, 0, h as int);
            } else {
                lemma_mod_shift(h as int, -(amount as int), full as int);
            }
        }
    }
    r as u32
}

/// Adding `a` or its remainder modulo `m` lands on the same residue.
proof fn lemma_mod_shift(h: int, a: int, m: int)
    requires
        m > 0,
        0 <= h < m,
    ensures
        a >= 0 ==> (h + a) % m == (h + a % m) % m,
        a < 0 ==> (h + a) % m == (h + m - (-a) % m) % m,
{
    let b = if a >= 0 { a } else { -a };
    lemma_fundamental_div_mod(b, m);
    let q = b / m;
    let r = b % m;
    let base = if a >= 0 { h + r } else { h + m - r };
    lemma_fundamental_div_mod(base, m);
    let q2 = base / m;
    let r2 = base % m;
    if a >= 0 {
        assert(h + a == (q + q2) * m + r2) by (nonlinear_arith)
            requires
                b == m * q + r,
                base == m * q2 + r2,
                base == h + r,
                a == b,
        ;
        lemma_fundamental_div_mod_converse(h + a, m, q + q2, r2);
    } else {
        assert(h + a == (q2 - q - 1) * m + r2) by (nonlinear_arith)
            requires
                b == m * q + r,
                base == m * q2 + r2,
                base == h + m - r,
                a == -b,
        ;
        lemma_fundamental_div_mod_converse(h + a, m, q2 - q - 1, r2);
    }
}

/// The sine of an angle in `[0, HALF_TURN]`, in thousandths, by Bhaskara's
/// rational approximation.
pub open spec fn half_sine(a: int) -> int {
    let p = a * (HALF_TURN - a);
    4000 * p / (40_500_000_000 - p)
}

/// The sine of a heading below a full turn, in thousandths.
pub open spec fn sine(a: int) -> int {
    if a < HALF_TURN {
        half_sine(a)
    } else {
        -half_sine(a - HALF_TURN)
    }
}

/// The cosine of a heading below a full turn, in thousandths.
pub open spec fn cosine(a: int) -> int {
    sine((a + QUARTER_TURN) % (FULL_TURN as int))
}

/// The direction a ship with this heading faces: the unit `y` axis turned by
/// the heading about the `z` axis.
pub open spec fn facing(heading: int) -> Vec3 {
    Vec3 { x: -sine(heading) as i64, y: cosine(heading) as i64, z: 0 }
}

fn half_sine_exec(a: u32) -> (r: i64)
    requires
        a <= HALF_TURN,
    ensures
        r == half_sine(a as int),
        0 <= r <= UNIT,
{
    let a64 = a as i64;
    assert(0 <= a64 * (180_000 - a64) <= 8_100_000_000) by (nonlinear_arith)
        requires
            0 <= a64 <= 180_000,
    ;
    let p: i64 = a64 * (180_000 - a64);
    assert(4000 * p / (40_500_000_000 - p) <= 1000) by (nonlinear_arith)
        requires
            0 <= p <= 8_100_000_000,
    ;
    assert(4000 * p / (40_500_000_000 - p) >= 0) by (nonlinear_arith)
        requires
            0 <= p <= 8_100_000_000,
    ;
    4000 * p / (40_500_000_000 - p)
}

fn sine_exec(a: u32) -> (r: i64)
    requires
        a < FULL_TURN,
    ensures
        r == sine(a as int),
        -UNIT <= r <= UNIT,
{
    if a < HALF_TURN {
        half_sine_exec(a)
    } else {
        -half_sine_exec(a - HALF_TURN)
    }
}

/// The direction a ship with `heading` faces, in thousandths.
pub fn facing_of(heading: u32) -> (r: Vec3)
    requires
        heading < FULL_TURN,
    ensures
        r == facing(heading as int),
        within_unit(r),
{
    let s = sine_exec(heading);
    let shifted = (heading + QUARTER_TURN) % FULL_TURN;
    let c = sine_exec(shifted);
    Vec3 { x: -s, y: c, z: 0 }
}

/// `v` scaled by a whole number.
pub open spec fn scaled(v: Vec3, k: int) -> Vec3 {
    Vec3 { x: (v.x * k) as i64, y: (v.y * k) as i64, z: (v.z * k) as i64 }
}

/// Scales a vector whose components are at most `UNIT` in size.
pub fn scale_unit(v: Vec3, k: i32) -> (r: Vec3)
    requires
        within_unit(v),
    ensures
        r == scaled(v, k as int),
{
    let k64 = k as i64;
    assert(-1000 * 0x8000_0000 <= v.x * k64 <= 1000 * 0x8000_0000) by (nonlinear_arith)
        requires
            -1000 <= v.x <= 1000,
            -0x8000_0000 <= k64 <= 0x8000_0000,
    ;
    assert(-1000 * 0x8000_0000 <= v.y * k64 <= 1000 * 0x8000_0000) by (nonlinear_arith)
        requires
            -1000 <= v.y <= 1000,
            -0x8000_0000 <= k64 <= 0x8000_0000,
    ;
    assert(-1000 * 0x8000_0000 <= v.z * k64 <= 1000 * 0x8000_0000) by (nonlinear_arith)
        requires
            -1000 <= v.z <= 1000,
            -0x8000_0000 <= k64 <= 0x8000_0000,
    ;
    Vec3 { x: v.x * k64, y: v.y * k64, z: v.z * k64 }
}

/// Adds two vectors, saturating at the range of `i64`.
pub open spec fn sum_sat(a: Vec3, b: Vec3) -> Vec3 {
    Vec3 {
        x: clamp64(a.x + b.x) as i64,
        y: clamp64(a.y + b.y) as i64,
        z: clamp64(a.z + b.z) as i64,
    }
}

fn add_sat(a: i64, b: i64) -> (r: i64)
    ensures
        r == clamp64(a + b),
{
    let s = a as i128 + b as i128;
    if s > i64::MAX as i128 {
        i64::MAX
    } else if s < i64::MIN as i128 {
        i64::MIN
    } else {
        s as i64
    }
}

pub fn add_saturating(a: Vec3, b: Vec3) -> (r: Vec3)
    ensures
        r == sum_sat(a, b),
{
    Vec3 { x: add_sat(a.x, b.x), y: add_sat(a.y, b.y), z: add_sat(a.z, b.z) }
}

} // verus!
