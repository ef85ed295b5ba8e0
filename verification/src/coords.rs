//! Axial and cubic coordinates on a hex grid, with the exact hex-grid
//! distance metric, vector arithmetic, and edge wraparound on a bounded
//! hexagonal map.
//!
//! The grid uses a horizontal-layout axial coordinate system: `alpha` is the
//! column axis and `beta` the diagonal row axis. The cubic form adds the
//! redundant `gamma = -alpha - beta` coordinate, which makes the hex metric a
//! scaled Manhattan distance.

use vstd::prelude::*;
use vstd::math::abs;
use vstd::arithmetic::div_mod::lemma_div_is_ordered;
use crate::directions::HexDirection;
use crate::directions::offset_spec;

verus! {

/// Radius of the playable map: every in-bounds tile lies within this hex
/// distance of the origin.
pub const MAP_SIZE: isize = 10;

/// Bound on coordinates accepted by the geometry functions; keeps every
/// intermediate sum and product comfortably inside `isize` on any
/// architecture.
pub const COORD_LIMIT: isize = 30000;

/// A position on the hex grid in axial coordinates.
#[derive(Debug, Clone, Copy, PartialEq, Eq, Hash, Structural)]
pub struct Position {
    pub alpha: isize,
    pub beta: isize,
}

/// A position on the hex grid in cubic coordinates.
///
/// Always satisfies `alpha + beta + gamma == 0`; the third axis is redundant
/// but makes distance computation symmetric in all three directions.
#[derive(Debug, Clone, Copy, PartialEq, Eq, Structural)]
pub struct CubePosition {
    pub alpha: isize,
    pub beta: isize,
    pub gamma: isize,
}

/// Is every coordinate of `p` within `m` in magnitude?
pub open spec fn within(p: Position, m: int) -> bool {
    &&& -m <= p.alpha <= m
    &&& -m <= p.beta <= m
}

/// Is every coordinate of `p` within the limit the library accepts?
pub open spec fn bounded(p: Position) -> bool {
    within(p, COORD_LIMIT as int)
}

/// Componentwise sum of two axial positions.
pub open spec fn add_spec(a: Position, b: Position) -> Position {
    Position { alpha: (a.alpha + b.alpha) as isize, beta: (a.beta + b.beta) as isize }
}

/// Componentwise difference of two axial positions.
pub open spec fn subtract_spec(a: Position, b: Position) -> Position {
    Position { alpha: (a.alpha - b.alpha) as isize, beta: (a.beta - b.beta) as isize }
}

/// An axial position scaled by an integer factor.
pub open spec fn scale_spec(a: Position, c: int) -> Position {
    Position { alpha: (a.alpha * c) as isize, beta: (a.beta * c) as isize }
}

/// The exact hex-grid distance between two axial positions: half the
/// Manhattan distance of their cubic forms.
pub open spec fn dist_spec(a: Position, b: Position) -> int {
    (abs(a.alpha - b.alpha) + abs(a.beta - b.beta)
        + abs((a.alpha + a.beta) - (b.alpha + b.beta))) as int / 2
}

impl CubePosition {
    /// Drops the redundant `gamma` coordinate.
    pub fn to_axial(self) -> (r: Position)
        ensures
            r.alpha == self.alpha,
            r.beta == self.beta,
    {
        Position { alpha: self.alpha, beta: self.beta }
    }
}

impl Position {
    /// Lifts an axial position to cubic coordinates by computing the third
    /// axis from the invariant `alpha + beta + gamma == 0`.
    pub fn to_cubic(self) -> (r: CubePosition)
        requires
            within(self, 4 * COORD_LIMIT as int),
        ensures
            r.alpha == self.alpha,
            r.beta == self.beta,
            r.gamma == -self.alpha - self.beta,
            r.alpha + r.beta + r.gamma == 0,
    {
        CubePosition { alpha: self.alpha, beta: self.beta, gamma: -self.alpha - self.beta }
    }

    /// Componentwise vector sum.
    pub fn add(self, b: Position) -> (r: Position)
        requires
            within(self, 4 * COORD_LIMIT as int),
            within(b, 4 * COORD_LIMIT as int),
        ensures
            r == add_spec(self, b),
    {
        Position { alpha: self.alpha + b.alpha, beta: self.beta + b.beta }
    }

    /// Componentwise vector difference.
    pub fn subtract(self, b: Position) -> (r: Position)
        requires
            within(self, 4 * COORD_LIMIT as int),
            within(b, 4 * COORD_LIMIT as int),
        ensures
            r == subtract_spec(self, b),
    {
        Position { alpha: self.alpha - b.alpha, beta: self.beta - b.beta }
    }

    /// Vector scaled by an integer factor.
    pub fn scale(self, c: isize) -> (r: Position)
        requires
            bounded(self),
            -COORD_LIMIT <= c <= COORD_LIMIT,
        ensures
            r == scale_spec(self, c as int),
    {
        proof {
            let a = self.alpha as int;
            let b = self.beta as int;
            let m = c as int;
            assert(-900000000 <= a * m <= 900000000 && -900000000 <= b * m <= 900000000)
                by (nonlinear_arith)
                requires
                    -30000 <= a <= 30000,
                    -30000 <= b <= 30000,
                    -30000 <= m <= 30000,
            ;
        }
        Position { alpha: self.alpha * c, beta: self.beta * c }
    }

    /// The exact hex-grid distance to `b`: both positions are taken to cubic
    /// form and the result is half the sum of the absolute coordinate
    /// differences.
    pub fn dist(self, b: Position) -> (r: isize)
        requires
            within(self, 4 * COORD_LIMIT as int),
            within(b, 4 * COORD_LIMIT as int),
        ensures
            r as int == dist_spec(self, b),
            r >= 0,
    {
        let a = self.to_cubic();
        let bc = b.to_cubic();
        let da = abs_isize(a.alpha - bc.alpha);
        let db = abs_isize(a.beta - bc.beta);
        let dg = abs_isize(a.gamma - bc.gamma);
        (da + db + dg) / 2
    }
}

/// Absolute value of a small `isize`.
fn abs_isize(x: isize) -> (r: isize)
    requires
        -16 * COORD_LIMIT <= x <= 16 * COORD_LIMIT,
    ensures
        r as int == abs(x as int),
{
    if x < 0 {
        -x
    } else {
        x
    }
}

/// The hex distance of six neighbouring mirrored copies of the map: mirror
/// centers sit at this distance from the origin, so that the copies tile the
/// plane seamlessly around the canonical map.
pub const MIRROR_DISTANCE: isize = 2 * MAP_SIZE + 1;

/// The center of the `i`-th mirrored copy of the map. The first center lies
/// beyond the map's East edge and the rest are its five successive 60-degree
/// rotations; each is at hex distance `MIRROR_DISTANCE` from the origin.
pub open spec fn mirror_center_spec(i: int) -> Position {
    if i == 0 {
        Position { alpha: MIRROR_DISTANCE, beta: (-MAP_SIZE) as isize }
    } else if i == 1 {
        Position { alpha: (MAP_SIZE + 1) as isize, beta: (-MIRROR_DISTANCE) as isize }
    } else if i == 2 {
        Position { alpha: (-MAP_SIZE) as isize, beta: (-MAP_SIZE - 1) as isize }
    } else if i == 3 {
        Position { alpha: (-MIRROR_DISTANCE) as isize, beta: MAP_SIZE }
    } else if i == 4 {
        Position { alpha: (-MAP_SIZE - 1) as isize, beta: MIRROR_DISTANCE }
    } else {
        Position { alpha: MAP_SIZE, beta: (MAP_SIZE + 1) as isize }
    }
}

/// The canonical map position of `p`: `p` itself when it already lies within
/// `MAP_SIZE` of the origin; otherwise `p` folded back by the offset of the
/// first mirrored map copy that contains it; and `p` unchanged when no copy
/// does.
pub open spec fn wrap_spec(p: Position) -> Position {
    let origin = Position { alpha: 0, beta: 0 };
    if dist_spec(p, origin) <= MAP_SIZE {
        p
    } else if dist_spec(p, mirror_center_spec(0)) <= MAP_SIZE {
        subtract_spec(p, mirror_center_spec(0))
    } else if dist_spec(p, mirror_center_spec(1)) <= MAP_SIZE {
        subtract_spec(p, mirror_center_spec(1))
    } else if dist_spec(p, mirror_center_spec(2)) <= MAP_SIZE {
        subtract_spec(p, mirror_center_spec(2))
    } else if dist_spec(p, mirror_center_spec(3)) <= MAP_SIZE {
        subtract_spec(p, mirror_center_spec(3))
    } else if dist_spec(p, mirror_center_spec(4)) <= MAP_SIZE {
        subtract_spec(p, mirror_center_spec(4))
    } else if dist_spec(p, mirror_center_spec(5)) <= MAP_SIZE {
        subtract_spec(p, mirror_center_spec(5))
    } else {
        p
    }
}

/// The position reached from `p` after `n` unit steps in direction `d`,
/// with no bounds check or wraparound.
pub open spec fn translated_spec(p: Position, d: HexDirection, n: int) -> Position {
    add_spec(p, scale_spec(offset_spec(d), n))
}

/// The center of the `i`-th mirrored copy of the map.
pub fn mirror_center(i: usize) -> (r: Position)
    requires
        i < 6,
    ensures
        r == mirror_center_spec(i as int),
{
    if i == 0 {
        Position { alpha: MIRROR_DISTANCE, beta: -MAP_SIZE }
    } else if i == 1 {
        Position { alpha: MAP_SIZE + 1, beta: -MIRROR_DISTANCE }
    } else if i == 2 {
        Position { alpha: -MAP_SIZE, beta: -MAP_SIZE - 1 }
    } else if i == 3 {
        Position { alpha: -MIRROR_DISTANCE, beta: MAP_SIZE }
    } else if i == 4 {
        Position { alpha: -MAP_SIZE - 1, beta: MIRROR_DISTANCE }
    } else {
        Position { alpha: MAP_SIZE, beta: MAP_SIZE + 1 }
    }
}

/// A direction's unit offset scaled by `n` stays within `n` in magnitude.
proof fn lemma_unit_scale_bound(d: HexDirection, n: int)
    requires
        -COORD_LIMIT <= n <= COORD_LIMIT,
    ensures
        within(scale_spec(offset_spec(d), n), COORD_LIMIT as int),
{
    let u = offset_spec(d);
    assert(-1 <= u.alpha <= 1 && -1 <= u.beta <= 1);
    let a = u.alpha as int;
    let b = u.beta as int;
    assert(-30000 <= a * n <= 30000 && -30000 <= b * n <= 30000) by (nonlinear_arith)
        requires
            -1 <= a <= 1,
            -1 <= b <= 1,
            -30000 <= n <= 30000,
    ;
}

impl Position {
    /// Folds a position that spilled past the map edge back into the
    /// canonical map, by testing it against the six mirrored map copies.
    /// A position no mirror copy contains is returned unchanged; a single
    /// bounded translation step cannot produce one.
    fn wrap(self) -> (r: Position)
        requires
            within(self, 2 * COORD_LIMIT as int),
        ensures
            r == wrap_spec(self),
    {
        let origin = Position { alpha: 0, beta: 0 };
        let d = self.dist(origin);

        if d <= MAP_SIZE {
            return self;
        }

        let mut i: usize = 0;
        while i < 6
            invariant
                i <= 6,
                within(self, 2 * COORD_LIMIT as int),
                dist_spec(self, Position { alpha: 0, beta: 0 }) > MAP_SIZE,
                forall|j: int|
                    0 <= j < i ==> dist_spec(self, #[trigger] mirror_center_spec(j)) > MAP_SIZE,
            decreases 6 - i,
        {
            let center = mirror_center(i);
            if self.dist(center) <= MAP_SIZE {
                return self.subtract(center);
            }
            i = i + 1;
        }

        self
    }

    /// Moves `distance` unit steps in `direction` and folds the result back
    /// into the map through the edge wraparound.
    pub fn translate(self, direction: &HexDirection, distance: isize) -> (r: Position)
        requires
            bounded(self),
            -COORD_LIMIT <= distance <= COORD_LIMIT,
        ensures
            r == wrap_spec(translated_spec(self, *direction, distance as int)),
    {
        let proposed_position = self.translate_unchecked(direction, distance);
        proof {
            lemma_unit_scale_bound(*direction, distance as int);
        }
        proposed_position.wrap()
    }

    /// Moves `distance` unit steps in `direction` as pure vector arithmetic,
    /// with no bounds check.
    pub fn translate_unchecked(self, direction: &HexDirection, distance: isize) -> (r: Position)
        requires
            within(self, 3 * COORD_LIMIT as int),
            -COORD_LIMIT <= distance <= COORD_LIMIT,
        ensures
            r == translated_spec(self, *direction, distance as int),
    {
        proof {
            lemma_unit_scale_bound(*direction, distance as int);
        }
        self.add(direction.offset().scale(distance))
    }
}

/// A position is at distance zero from itself.
pub proof fn lemma_dist_self_zero(p: Position)
    ensures
        dist_spec(p, p) == 0,
{
}

/// The hex distance is symmetric in its two arguments.
pub proof fn lemma_dist_symmetric(a: Position, b: Position)
    ensures
        dist_spec(a, b) == dist_spec(b, a),
{
}

/// The hex distance separates points: it is zero exactly on equal positions.
pub proof fn lemma_dist_zero_iff_equal(a: Position, b: Position)
    ensures
        dist_spec(a, b) == 0 <==> a == b,
{
}

/// The hex distance satisfies the triangle inequality.
pub proof fn lemma_dist_triangle(a: Position, b: Position, c: Position)
    ensures
        dist_spec(a, c) <= dist_spec(a, b) + dist_spec(b, c),
{
    let s1 = (abs(a.alpha - b.alpha) + abs(a.beta - b.beta) + abs(
        (a.alpha + a.beta) - (b.alpha + b.beta),
    )) as int;
    let s2 = (abs(b.alpha - c.alpha) + abs(b.beta - c.beta) + abs(
        (b.alpha + b.beta) - (c.alpha + c.beta),
    )) as int;
    let s = (abs(a.alpha - c.alpha) + abs(a.beta - c.beta) + abs(
        (a.alpha + a.beta) - (c.alpha + c.beta),
    )) as int;
    assert(s <= s1 + s2);
    assert(s1 % 2 == 0);
    assert(s2 % 2 == 0);
    lemma_div_is_ordered(s, s1 + s2, 2);
    assert((s1 + s2) / 2 == s1 / 2 + s2 / 2);
}


/// A position exactly one step beyond the map edge always lies inside one
/// of the six mirrored map copies, so folding it brings it back onto the
/// map.
proof fn lemma_boundary_ring_wraps(q: Position)
    requires
        dist_spec(q, Position { alpha: 0, beta: 0 }) == MAP_SIZE + 1,
    ensures
        dist_spec(wrap_spec(q), Position { alpha: 0, beta: 0 }) <= MAP_SIZE,
{
    let x = q.alpha as int;
    let y = q.beta as int;
    let z = -x - y;
    assert(abs(x) + abs(y) + abs(z) == 2 * (MAP_SIZE + 1));
    if x == MIRROR_DISTANCE - MAP_SIZE {
        if y >= -MAP_SIZE {
            assert(dist_spec(q, mirror_center_spec(0)) <= MAP_SIZE);
        } else {
            assert(dist_spec(q, mirror_center_spec(1)) <= MAP_SIZE);
        }
    } else if x == -(MIRROR_DISTANCE - MAP_SIZE) {
        if y <= MAP_SIZE {
            assert(dist_spec(q, mirror_center_spec(3)) <= MAP_SIZE);
        } else {
            assert(dist_spec(q, mirror_center_spec(4)) <= MAP_SIZE);
        }
    } else if y == -(MIRROR_DISTANCE - MAP_SIZE) {
        if x >= 1 {
            assert(dist_spec(q, mirror_center_spec(1)) <= MAP_SIZE);
        } else {
            assert(dist_spec(q, mirror_center_spec(2)) <= MAP_SIZE);
        }
    } else if y == MIRROR_DISTANCE - MAP_SIZE {
        if x <= -1 {
            assert(dist_spec(q, mirror_center_spec(4)) <= MAP_SIZE);
        } else {
            assert(dist_spec(q, mirror_center_spec(5)) <= MAP_SIZE);
        }
    } else if z == -(MIRROR_DISTANCE - MAP_SIZE) {
        assert(dist_spec(q, mirror_center_spec(5)) <= MAP_SIZE);
    } else {
        assert(z == MIRROR_DISTANCE - MAP_SIZE);
        assert(dist_spec(q, mirror_center_spec(2)) <= MAP_SIZE);
    }
}

/// One wrapped unit step from a map tile lands on a map tile: the mirror
/// centers tile the plane seamlessly around the canonical map.
pub proof fn lemma_translate_stays_in_map(p: Position, d: HexDirection)
    requires
        dist_spec(p, Position { alpha: 0, beta: 0 }) <= MAP_SIZE,
    ensures
        dist_spec(
            wrap_spec(translated_spec(p, d, 1)),
            Position { alpha: 0, beta: 0 },
        ) <= MAP_SIZE,
{
    let origin = Position { alpha: 0, beta: 0 };
    let u = offset_spec(d);
    assert(abs(u.alpha as int) <= 1 && abs(u.beta as int) <= 1 && abs(u.alpha + u.beta) <= 1);
    let ua = u.alpha as int;
    let ub = u.beta as int;
    assert(ua * 1 == ua && ub * 1 == ub) by (nonlinear_arith);
    let q = translated_spec(p, d, 1);
    assert(dist_spec(q, origin) <= MAP_SIZE + 1);
    if dist_spec(q, origin) > MAP_SIZE {
        lemma_boundary_ring_wraps(q);
    }
}

} // verus!
