//! Coordinates and the five coordinate spaces a world can live in.
//!
//! A space decides which coordinates are legal and which cell a legal
//! coordinate names. The mathematical description is [`Space`]; the five
//! executable policies (`RectSpace`, `TorusSpace`, ...) each implement
//! [`GridConstraints`] against it.

use vstd::prelude::*;

verus! {

/// An integer coordinate pair, used as the key of a grid cell.
#[derive(Clone, Copy, Debug, PartialEq, Eq, Structural, Hash, PartialOrd, Ord)]
pub struct Vec2i {
    pub x: i32,
    pub y: i32,
}

impl Vec2i {
    pub fn new(x: i32, y: i32) -> (r: Vec2i)
        ensures
            r == (Vec2i { x, y }),
    {
        Vec2i { x, y }
    }
}

/// The shape of a coordinate space.
#[derive(Clone, Copy, Debug, PartialEq, Eq, Structural)]
pub enum FieldTopology {
    /// A bounded rectangle: nothing wraps.
    Rect,
    /// Both axes wrap around.
    Torus,
    /// `x` is bounded, `y` wraps around.
    VerticalCylinder,
    /// `x` wraps around, `y` is bounded.
    HorizontalCylinder,
    /// The unbounded plane.
    Infinite,
}

/// The mathematical description of a coordinate space: its shape and, for all
/// shapes but the unbounded plane, its size.
pub struct Space {
    pub kind: FieldTopology,
    pub size: Vec2i,
}

impl Space {
    /// A sized space has a positive extent on both axes.
    pub open spec fn wf(self) -> bool {
        self.kind != FieldTopology::Infinite ==> self.size.x > 0 && self.size.y > 0
    }

    /// Whether the `x` axis wraps around.
    pub open spec fn repeat_x(self) -> bool {
        self.kind == FieldTopology::Torus || self.kind == FieldTopology::HorizontalCylinder
    }

    /// Whether the `y` axis wraps around.
    pub open spec fn repeat_y(self) -> bool {
        self.kind == FieldTopology::Torus || self.kind == FieldTopology::VerticalCylinder
    }

    /// Whether the space has finitely many cells.
    pub open spec fn finite(self) -> bool {
        self.kind != FieldTopology::Infinite
    }

    /// Whether the `x` axis has hard walls at `0` and `size.x`.
    pub open spec fn walled_x(self) -> bool {
        self.kind == FieldTopology::Rect || self.kind == FieldTopology::VerticalCylinder
    }

    /// Whether the `y` axis has hard walls at `0` and `size.y`.
    pub open spec fn walled_y(self) -> bool {
        self.kind == FieldTopology::Rect || self.kind == FieldTopology::HorizontalCylinder
    }

    /// Whether `p` is a legal coordinate: inside the walls on each walled axis.
    pub open spec fn admits(self, p: Vec2i) -> bool {
        &&& self.walled_x() ==> 0 <= p.x < self.size.x
        &&& self.walled_y() ==> 0 <= p.y < self.size.y
    }

    /// The cell that `p` names: on a wrapping axis the representative in
    /// `[0, size)`, elsewhere the coordinate itself.
    pub open spec fn canonical(self, p: Vec2i) -> Vec2i {
        Vec2i {
            x: if self.repeat_x() {
                wrap_to_interval(0, p.x as int, self.size.x as int) as i32
            } else {
                p.x
            },
            y: if self.repeat_y() {
                wrap_to_interval(0, p.y as int, self.size.y as int) as i32
            } else {
                p.y
            },
        }
    }

    /// Whether `p` is the name that `canonical` gives to a legal coordinate,
    /// that is, whether `p` can be the key of a cell.
    pub open spec fn is_cell(self, p: Vec2i) -> bool {
        self.admits(p) && self.canonical(p) == p
    }
}

/// The representative of `value` in the half-open interval `[min, max)`,
/// taking the interval as one period.
pub open spec fn wrap_to_interval(min: int, value: int, max: int) -> int {
    min + (value - min) % (max - min)
}

/// Folds `value` into `[min, max)` by whole periods of length `max - min`.
pub fn rem_repeat_to_interval(min: &i32, value: &i32, max: &i32) -> (r: i32)
    requires
        *min < *max,
    ensures
        r == wrap_to_interval(*min as int, *value as int, *max as int),
        *min <= r < *max,
        *min <= *value < *max ==> r == *value,
{
    let lo: i64 = *min as i64;
    let v: i64 = *value as i64;
    let len: i64 = *max as i64 - lo;
    if v < lo {
        let back: i64 = (lo - v) % len;
        proof {
            lemma_wrap_below(lo as int, v as int, len as int);
        }
        if back == 0 {
            *min
        } else {
            (lo + (len - back)) as i32
        }
    } else if v >= *max as i64 {
        proof {
            lemma_wrap_above(lo as int, v as int, len as int);
        }
        (lo + (v - lo) % len) as i32
    } else {
        proof {
            vstd::arithmetic::div_mod::lemma_small_mod((v - lo) as nat, len as nat);
        }
        *value
    }
}

proof fn lemma_wrap_below(lo: int, v: int, len: int)
    requires
        len > 0,
        v < lo,
    ensures
        (lo - v) % len == 0 ==> (v - lo) % len == 0,
        (lo - v) % len != 0 ==> (v - lo) % len == len - (lo - v) % len,
        0 <= (v - lo) % len < len,
{
    let d = lo - v;
    let q = d / len;
    let r = d % len;
    vstd::arithmetic::div_mod::lemma_fundamental_div_mod(d, len);
    vstd::arithmetic::div_mod::lemma_mod_bound(d, len);
    vstd::arithmetic::div_mod::lemma_mod_bound(-d, len);
    if r == 0 {
        assert(-d == len * (-q)) by (nonlinear_arith)
            requires
                d == len * q + r,
                r == 0,
        ;
        vstd::arithmetic::div_mod::lemma_fundamental_div_mod_converse(-d, len, -q, 0);
    } else {
        assert(-d == len * (-q - 1) + (len - r)) by (nonlinear_arith)
            requires
                d == len * q + r,
        ;
        vstd::arithmetic::div_mod::lemma_fundamental_div_mod_converse(-d, len, -q - 1, len - r);
    }
}

proof fn lemma_wrap_above(lo: int, v: int, len: int)
    requires
        len > 0,
        v >= lo,
    ensures
        0 <= (v - lo) % len < len,
{
    vstd::arithmetic::div_mod::lemma_mod_bound(v - lo, len);
}

/// A coordinate policy: which coordinates are legal and which cell each names.
pub trait GridConstraints: Sized {
    /// The shape of the spaces that this policy implements.
    spec fn kind() -> FieldTopology;

    /// The space that this policy implements.
    spec fn space(&self) -> Space;

    /// Whether `pos` is a legal coordinate.
    fn can(&self, pos: &Vec2i) -> (r: bool)
        requires
            self.space().wf(),
        ensures
            r == self.space().admits(*pos),
    ;

    /// The cell that the legal coordinate `pos` names.
    fn remap(&self, pos: &Vec2i) -> (r: Vec2i)
        requires
            self.space().wf(),
            self.space().admits(*pos),
        ensures
            r == self.space().canonical(*pos),
            self.space().is_cell(r),
    ;

    fn is_repeat_x(&self) -> (r: bool)
        ensures
            r == self.space().repeat_x(),
    ;

    fn is_repeat_y(&self) -> (r: bool)
        ensures
            r == self.space().repeat_y(),
    ;

    fn is_finite(&self) -> (r: bool)
        ensures
            r == self.space().finite(),
    ;
}

/// A policy for a sized space, built from that size.
pub trait CanFitInSize: GridConstraints {
    fn new(size: &Vec2i) -> (r: Self)
        requires
            size.x > 0,
            size.y > 0,
        ensures
            r.space() == (Space { kind: Self::kind(), size: *size }),
            r.space().finite(),
            r.space().wf(),
    ;

    fn get_size(&self) -> (r: Vec2i)
        ensures
            r == self.space().size,
    ;
}

/// The bounded rectangle `[0, size.x) x [0, size.y)`.
pub struct RectSpace {
    size: Vec2i,
}

/// A torus: both axes wrap around.
pub struct TorusSpace {
    size: Vec2i,
}

/// A cylinder whose `y` axis wraps around and whose `x` axis is bounded.
pub struct VerticalCylinderSpace {
    size: Vec2i,
}

/// A cylinder whose `x` axis wraps around and whose `y` axis is bounded.
pub struct HorizontalCylinderSpace {
    size: Vec2i,
}

/// The unbounded plane.
#[derive(Default)]
pub struct InfiniteSpace;

impl CanFitInSize for RectSpace {
    fn new(size: &Vec2i) -> (r: Self) {
        Self { size: *size }
    }

    fn get_size(&self) -> (r: Vec2i) {
        self.size
    }
}

impl CanFitInSize for TorusSpace {
    fn new(size: &Vec2i) -> (r: Self) {
        Self { size: *size }
    }

    fn get_size(&self) -> (r: Vec2i) {
        self.size
    }
}

impl CanFitInSize for VerticalCylinderSpace {
    fn new(size: &Vec2i) -> (r: Self) {
        Self { size: *size }
    }

    fn get_size(&self) -> (r: Vec2i) {
        self.size
    }
}

impl CanFitInSize for HorizontalCylinderSpace {
    fn new(size: &Vec2i) -> (r: Self) {
        Self { size: *size }
    }

    fn get_size(&self) -> (r: Vec2i) {
        self.size
    }
}

impl GridConstraints for RectSpace {
    open spec fn kind() -> FieldTopology {
        FieldTopology::Rect
    }

    closed spec fn space(&self) -> Space {
        Space { kind: FieldTopology::Rect, size: self.size }
    }

    fn can(&self, pos: &Vec2i) -> (r: bool) {
        0 <= pos.x && pos.x < self.size.x && 0 <= pos.y && pos.y < self.size.y
    }

    fn remap(&self, pos: &Vec2i) -> (r: Vec2i) {
        *pos
    }

    fn is_repeat_x(&self) -> (r: bool) {
        false
    }

    fn is_repeat_y(&self) -> (r: bool) {
        false
    }

    fn is_finite(&self) -> (r: bool) {
        true
    }
}

impl GridConstraints for TorusSpace {
    open spec fn kind() -> FieldTopology {
        FieldTopology::Torus
    }

    closed spec fn space(&self) -> Space {
        Space { kind: FieldTopology::Torus, size: self.size }
    }

    fn can(&self, _pos: &Vec2i) -> (r: bool) {
        true
    }

    fn remap(&self, pos: &Vec2i) -> (r: Vec2i) {
        proof {
            lemma_canonical_keeps_admission(self.space(), *pos);
        }
        Vec2i::new(
            rem_repeat_to_interval(&0, &pos.x, &self.size.x),
            rem_repeat_to_interval(&0, &pos.y, &self.size.y),
        )
    }

    fn is_repeat_x(&self) -> (r: bool) {
        true
    }

    fn is_repeat_y(&self) -> (r: bool) {
        true
    }

    fn is_finite(&self) -> (r: bool) {
        true
    }
}

impl GridConstraints for VerticalCylinderSpace {
    open spec fn kind() -> FieldTopology {
        FieldTopology::VerticalCylinder
    }

    closed spec fn space(&self) -> Space {
        Space { kind: FieldTopology::VerticalCylinder, size: self.size }
    }

    fn can(&self, pos: &Vec2i) -> (r: bool) {
        0 <= pos.x && pos.x < self.size.x
    }

    fn remap(&self, pos: &Vec2i) -> (r: Vec2i) {
        proof {
            lemma_canonical_keeps_admission(self.space(), *pos);
        }
        Vec2i::new(pos.x, rem_repeat_to_interval(&0, &pos.y, &self.size.y))
    }

    fn is_repeat_x(&self) -> (r: bool) {
        false
    }

    fn is_repeat_y(&self) -> (r: bool) {
        true
    }

    fn is_finite(&self) -> (r: bool) {
        true
    }
}

impl GridConstraints for HorizontalCylinderSpace {
    open spec fn kind() -> FieldTopology {
        FieldTopology::HorizontalCylinder
    }

    closed spec fn space(&self) -> Space {
        Space { kind: FieldTopology::HorizontalCylinder, size: self.size }
    }

    fn can(&self, pos: &Vec2i) -> (r: bool) {
        0 <= pos.y && pos.y < self.size.y
    }

    fn remap(&self, pos: &Vec2i) -> (r: Vec2i) {
        proof {
            lemma_canonical_keeps_admission(self.space(), *pos);
        }
        Vec2i::new(rem_repeat_to_interval(&0, &pos.x, &self.size.x), pos.y)
    }

    fn is_repeat_x(&self) -> (r: bool) {
        true
    }

    fn is_repeat_y(&self) -> (r: bool) {
        false
    }

    fn is_finite(&self) -> (r: bool) {
        true
    }
}

impl GridConstraints for InfiniteSpace {
    open spec fn kind() -> FieldTopology {
        FieldTopology::Infinite
    }

    open spec fn space(&self) -> Space {
        Space { kind: FieldTopology::Infinite, size: Vec2i { x: 0, y: 0 } }
    }

    fn can(&self, _pos: &Vec2i) -> (r: bool) {
        true
    }

    fn remap(&self, pos: &Vec2i) -> (r: Vec2i) {
        *pos
    }

    fn is_repeat_x(&self) -> (r: bool) {
        false
    }

    fn is_repeat_y(&self) -> (r: bool) {
        false
    }

    fn is_finite(&self) -> (r: bool) {
        false
    }
}

/// Naming a cell twice changes nothing: `canonical` is idempotent, on every
/// coordinate and in every space.
pub proof fn lemma_canonical_idempotent(s: Space, p: Vec2i)
    requires
        s.wf(),
    ensures
        s.canonical(s.canonical(p)) == s.canonical(p),
{
    if s.repeat_x() {
        lemma_wrap_in_range(p.x as int, s.size.x as int);
    }
    if s.repeat_y() {
        lemma_wrap_in_range(p.y as int, s.size.y as int);
    }
}

/// Wrapping keeps a coordinate legal and never makes an illegal one legal:
/// `canonical(p)` is admitted exactly when `p` is.
pub proof fn lemma_canonical_keeps_admission(s: Space, p: Vec2i)
    requires
        s.wf(),
    ensures
        s.admits(s.canonical(p)) == s.admits(p),
        s.admits(p) ==> s.is_cell(s.canonical(p)),
{
    lemma_canonical_idempotent(s, p);
}

/// On a wrapping axis of extent `n`, the coordinate `n` names cell `0`, as
/// does every multiple of `n`, and a step below `0` names cell `n - 1`.
pub proof fn lemma_wrap_boundaries(n: int, k: int)
    requires
        n > 0,
    ensures
        wrap_to_interval(0, n, n) == 0,
        wrap_to_interval(0, k * n, n) == 0,
        wrap_to_interval(0, -1, n) == n - 1,
        wrap_to_interval(0, 0, n) == 0,
{
    vstd::arithmetic::div_mod::lemma_mod_multiples_basic(k, n);
    vstd::arithmetic::div_mod::lemma_mod_multiples_basic(1, n);
    vstd::arithmetic::div_mod::lemma_fundamental_div_mod_converse(-1, n, -1, n - 1);
    vstd::arithmetic::div_mod::lemma_small_mod(0, n as nat);
}

proof fn lemma_wrap_in_range(v: int, n: int)
    requires
        n > 0,
    ensures
        0 <= wrap_to_interval(0, v, n) < n,
        wrap_to_interval(0, wrap_to_interval(0, v, n), n) == wrap_to_interval(0, v, n),
{
    vstd::arithmetic::div_mod::lemma_mod_bound(v, n);
    vstd::arithmetic::div_mod::lemma_small_mod((v % n) as nat, n as nat);
}

/// The integer that keys the cell `p`: both coordinates shifted to be
/// non-negative, `x` in the high half and `y` in the low half.
pub open spec fn key_of(p: Vec2i) -> u64 {
    ((p.x - i32::MIN) * 0x1_0000_0000 + (p.y - i32::MIN)) as u64
}

/// The cell that the integer `k` keys.
pub open spec fn cell_of(k: u64) -> Vec2i {
    Vec2i {
        x: (k / 0x1_0000_0000 + i32::MIN) as i32,
        y: (k % 0x1_0000_0000 + i32::MIN) as i32,
    }
}

/// Keys and cells correspond one to one.
pub proof fn lemma_key_roundtrip(p: Vec2i, k: u64)
    ensures
        cell_of(key_of(p)) == p,
        key_of(cell_of(k)) == k,
{
    let hi = p.x - i32::MIN;
    let lo = p.y - i32::MIN;
    vstd::arithmetic::div_mod::lemma_fundamental_div_mod_converse(
        hi * 0x1_0000_0000 + lo,
        0x1_0000_0000,
        hi,
        lo,
    );
    assert(0 <= hi * 0x1_0000_0000 + lo <= u64::MAX) by (nonlinear_arith)
        requires
            0 <= hi < 0x1_0000_0000,
            0 <= lo < 0x1_0000_0000,
    ;
    vstd::arithmetic::div_mod::lemma_fundamental_div_mod(k as int, 0x1_0000_0000);
    assert(0 <= k as int / 0x1_0000_0000 < 0x1_0000_0000) by (nonlinear_arith)
        requires
            0 <= k <= u64::MAX,
    ;
}

impl Vec2i {
    /// The integer that keys this cell.
    pub fn key(&self) -> (k: u64)
        ensures
            k == key_of(*self),
    {
        let hi: u64 = (self.x as i64 - i32::MIN as i64) as u64;
        let lo: u64 = (self.y as i64 - i32::MIN as i64) as u64;
        assert(hi * 0x1_0000_0000 + lo <= u64::MAX) by (nonlinear_arith)
            requires
                0 <= hi < 0x1_0000_0000,
                0 <= lo < 0x1_0000_0000,
        ;
        hi * 0x1_0000_0000 + lo
    }

    /// The cell that the integer `k` keys.
    pub fn from_key(k: u64) -> (p: Vec2i)
        ensures
            p == cell_of(k),
    {
        let hi: u64 = k / 0x1_0000_0000;
        let lo: u64 = k % 0x1_0000_0000;
        assert(hi < 0x1_0000_0000) by (nonlinear_arith)
            requires
                hi == k / 0x1_0000_0000,
                0 <= k <= u64::MAX,
        ;
        Vec2i { x: (hi as i64 + i32::MIN as i64) as i32, y: (lo as i64 + i32::MIN as i64) as i32 }
    }
}

/// Keys order cells by `x` first and by `y` second.
pub proof fn lemma_key_order(p: Vec2i, q: Vec2i)
    ensures
        key_of(p) < key_of(q) <==> p.x < q.x || (p.x == q.x && p.y < q.y),
        key_of(p) == key_of(q) <==> p == q,
{
    let (a, b) = (p.x - i32::MIN, p.y - i32::MIN);
    let (c, d) = (q.x - i32::MIN, q.y - i32::MIN);
    assert(0 <= a * 0x1_0000_0000 + b <= u64::MAX && 0 <= c * 0x1_0000_0000 + d <= u64::MAX)
        by (nonlinear_arith)
        requires
            0 <= a < 0x1_0000_0000,
            0 <= b < 0x1_0000_0000,
            0 <= c < 0x1_0000_0000,
            0 <= d < 0x1_0000_0000,
    ;
}


} // verus!
