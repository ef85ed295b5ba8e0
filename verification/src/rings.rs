//! Enumeration of rings and filled hexagons of tiles around a center.
//!
//! A ring of radius `r` is walked clockwise: it starts at the center
//! translated East by `r` steps, and follows six edges of `r` steps each,
//! turning 60 degrees clockwise after each edge, starting Southwest. Ring
//! enumeration is local vector arithmetic: it does not apply the map
//! wraparound.

use vstd::prelude::*;
use crate::coords::COORD_LIMIT;
use crate::coords::Position;
use crate::coords::add_spec;
use crate::coords::bounded;
use crate::coords::dist_spec;
use crate::coords::scale_spec;
use crate::coords::within;
use crate::directions::HexDirection;
use crate::directions::from_index;
use crate::directions::offset_spec;

verus! {

/// The `j`-th position on edge `e` of the radius-`r` ring around `c`: the
/// corner in direction `e` of the cycle, advanced `j` steps along the edge
/// walk direction, which is the corner direction turned two steps clockwise.
pub open spec fn ring_elem(c: Position, r: int, e: int, j: int) -> Position {
    add_spec(
        c,
        add_spec(
            scale_spec(offset_spec(from_index(e)), r),
            scale_spec(offset_spec(from_index(e + 2)), j),
        ),
    )
}

/// Edge `e` of the radius-`r` ring around `c`, as the ordered sequence of
/// its `r` positions.
pub open spec fn edge_seq(c: Position, r: int, e: int) -> Seq<Position> {
    Seq::new(r as nat, |j: int| ring_elem(c, r, e, j))
}

/// The first `e` edges of the radius-`r` ring around `c`, concatenated in
/// walk order.
pub open spec fn edges_prefix(c: Position, r: int, e: int) -> Seq<Position>
    decreases e,
{
    if e <= 0 {
        Seq::empty()
    } else {
        edges_prefix(c, r, e - 1) + edge_seq(c, r, e - 1)
    }
}

/// The radius-`r` ring around `c` in clockwise walk order; the ring of
/// radius zero is the center alone.
pub open spec fn ring_seq(c: Position, r: int) -> Seq<Position> {
    if r <= 0 {
        seq![c]
    } else {
        edges_prefix(c, r, 6)
    }
}

/// The filled hexagon of radius `r` around `c`: the concatenation of the
/// rings of radius `0` through `r`.
pub open spec fn hexagon_seq(c: Position, r: int) -> Seq<Position>
    decreases r + 1,
{
    if r < 0 {
        Seq::empty()
    } else {
        hexagon_seq(c, r - 1) + ring_seq(c, r)
    }
}

/// Every position of a ring stays within three coordinate limits of the
/// origin when the center is bounded.
proof fn lemma_ring_elem_bounds(c: Position, r: int, e: int, j: int)
    requires
        bounded(c),
        0 <= r <= COORD_LIMIT,
        0 <= j <= r,
    ensures
        within(ring_elem(c, r, e, j), 3 * COORD_LIMIT as int),
{
    let u = offset_spec(from_index(e));
    let w = offset_spec(from_index(e + 2));
    let ua = u.alpha as int;
    let ub = u.beta as int;
    let wa = w.alpha as int;
    let wb = w.beta as int;
    assert(-30000 <= ua * r <= 30000 && -30000 <= ub * r <= 30000 && -30000 <= wa * j <= 30000
        && -30000 <= wb * j <= 30000) by (nonlinear_arith)
        requires
            -1 <= ua <= 1,
            -1 <= ub <= 1,
            -1 <= wa <= 1,
            -1 <= wb <= 1,
            0 <= j <= r <= 30000,
    ;
}

/// Advancing one step along an edge's walk direction moves from the `j`-th
/// to the `j+1`-th position of that edge.
proof fn lemma_ring_elem_step(c: Position, r: int, e: int, j: int)
    requires
        bounded(c),
        0 <= r <= COORD_LIMIT,
        0 <= j < r,
    ensures
        add_spec(ring_elem(c, r, e, j), offset_spec(from_index(e + 2))) == ring_elem(
            c,
            r,
            e,
            j + 1,
        ),
{
    let u = offset_spec(from_index(e));
    let w = offset_spec(from_index(e + 2));
    let ua = u.alpha as int;
    let ub = u.beta as int;
    let wa = w.alpha as int;
    let wb = w.beta as int;
    assert(wa * (j + 1) == wa * j + wa && wb * (j + 1) == wb * j + wb && -30000 <= wa * (j + 1)
        <= 30000 && -30000 <= wb * (j + 1) <= 30000 && -30000 <= wa * j <= 30000 && -30000 <= wb
        * j <= 30000 && -30000 <= ua * r <= 30000 && -30000 <= ub * r <= 30000)
        by (nonlinear_arith)
        requires
            -1 <= ua <= 1,
            -1 <= ub <= 1,
            -1 <= wa <= 1,
            -1 <= wb <= 1,
            0 <= j < r <= 30000,
    ;
}

/// Walking to the end of edge `e` lands on the starting corner of edge
/// `e + 1`.
proof fn lemma_ring_edge_close(c: Position, r: int, e: int)
    requires
        bounded(c),
        0 <= r <= COORD_LIMIT,
        0 <= e < 6,
    ensures
        ring_elem(c, r, e, r) == ring_elem(c, r, e + 1, 0),
{
    let u = offset_spec(from_index(e));
    let w = offset_spec(from_index(e + 2));
    let u2 = offset_spec(from_index(e + 1));
    let w2 = offset_spec(from_index(e + 3));
    if e == 0 {
        assert(u.alpha + w.alpha == u2.alpha && u.beta + w.beta == u2.beta);
    } else if e == 1 {
        assert(u.alpha + w.alpha == u2.alpha && u.beta + w.beta == u2.beta);
    } else if e == 2 {
        assert(u.alpha + w.alpha == u2.alpha && u.beta + w.beta == u2.beta);
    } else if e == 3 {
        assert(u.alpha + w.alpha == u2.alpha && u.beta + w.beta == u2.beta);
    } else if e == 4 {
        assert(u.alpha + w.alpha == u2.alpha && u.beta + w.beta == u2.beta);
    } else {
        assert(u.alpha + w.alpha == u2.alpha && u.beta + w.beta == u2.beta);
    }
    let ua = u.alpha as int;
    let ub = u.beta as int;
    let wa = w.alpha as int;
    let wb = w.beta as int;
    let u2a = u2.alpha as int;
    let u2b = u2.beta as int;
    let w2a = w2.alpha as int;
    let w2b = w2.beta as int;
    assert(ua * r + wa * r == u2a * r && ub * r + wb * r == u2b * r && w2a * 0 == 0 && w2b * 0
        == 0 && -30000 <= ua * r <= 30000 && -30000 <= wa * r <= 30000 && -30000 <= ub * r
        <= 30000 && -30000 <= wb * r <= 30000 && -30000 <= u2a * r <= 30000 && -30000 <= u2b * r
        <= 30000) by (nonlinear_arith)
        requires
            ua + wa == u2a,
            ub + wb == u2b,
            -1 <= ua <= 1,
            -1 <= ub <= 1,
            -1 <= wa <= 1,
            -1 <= wb <= 1,
            -1 <= u2a <= 1,
            -1 <= u2b <= 1,
            0 <= r <= 30000,
    ;
}

impl Position {
    /// The ordered clockwise ring of positions at hex distance `radius`
    /// around `self`; radius zero yields the center alone, and a positive
    /// radius yields exactly `6 * radius` positions.
    pub fn ring(self, radius: isize) -> (v: Vec<Position>)
        requires
            bounded(self),
            0 <= radius <= COORD_LIMIT,
        ensures
            v@ == ring_seq(self, radius as int),
            radius == 0 ==> v@ == seq![self],
            radius > 0 ==> v@.len() == 6 * radius as int,
    {
        let ghost r = radius as int;
        let mut positions: Vec<Position> = Vec::new();

        if radius == 0 {
            positions.push(self);
            assert(positions@ =~= seq![self]);
            return positions;
        }

        let mut current_position = self.translate_unchecked(&HexDirection::East, radius);
        assert(current_position == ring_elem(self, r, 0, 0));

        let mut current_direction = HexDirection::Southwest;
        let mut e: usize = 0;
        proof {
            assert(0int * r == 0) by (nonlinear_arith);
        }

        while e < 6
            invariant
                0 <= e <= 6,
                1 <= radius <= COORD_LIMIT,
                bounded(self),
                r == radius as int,
                current_direction == from_index(2 + e as int),
                current_position == ring_elem(self, r, e as int, 0),
                positions@ == edges_prefix(self, r, e as int),
                positions@.len() == (e as int) * r,
            decreases 6 - e,
        {
            let ghost ee = e as int;
            let mut j: isize = 0;
            while j < radius
                invariant
                    0 <= j <= radius,
                    1 <= radius <= COORD_LIMIT,
                    0 <= ee < 6,
                    bounded(self),
                    r == radius as int,
                    current_direction == from_index(2 + ee),
                    current_position == ring_elem(self, r, ee, j as int),
                    positions@ == edges_prefix(self, r, ee) + edge_seq(self, r, ee).take(j as int),
                    positions@.len() == ee * r + j as int,
                decreases radius - j,
            {
                proof {
                    lemma_ring_elem_bounds(self, r, ee, j as int);
                }
                positions.push(current_position);
                proof {
                    lemma_ring_elem_step(self, r, ee, j as int);
                    assert(edges_prefix(self, r, ee) + edge_seq(self, r, ee).take(j as int + 1)
                        =~= (edges_prefix(self, r, ee) + edge_seq(self, r, ee).take(
                        j as int,
                    )).push(ring_elem(self, r, ee, j as int)));
                }
                current_position = current_position.translate_unchecked(&current_direction, 1);
                j = j + 1;
            }
            proof {
                assert(edge_seq(self, r, ee).take(r) =~= edge_seq(self, r, ee));
                lemma_ring_edge_close(self, r, ee);
                assert((ee + 1) * r == ee * r + r) by (nonlinear_arith);
            }
            current_direction = current_direction.rotate(1);
            e = e + 1;
        }

        proof {
            lemma_ring_len(self, r);
        }
        positions
    }
}

impl Position {
    /// The filled hexagon of positions within hex distance `radius` of
    /// `self`, as the concatenation of the rings of radius `0` through
    /// `radius`; rings at different radii never overlap, so the result holds
    /// exactly `1 + 3 * radius * (radius + 1)` positions.
    pub fn hexagon(self, radius: isize) -> (v: Vec<Position>)
        requires
            bounded(self),
            0 <= radius <= COORD_LIMIT,
        ensures
            v@ == hexagon_seq(self, radius as int),
            v@.len() == 1 + 3 * (radius as int) * (radius as int + 1),
    {
        let mut positions: Vec<Position> = Vec::new();
        let mut i: isize = 0;

        assert(positions@ =~= hexagon_seq(self, -1));
        while i <= radius
            invariant
                0 <= i <= radius + 1,
                0 <= radius <= COORD_LIMIT,
                bounded(self),
                positions@ == hexagon_seq(self, i as int - 1),
            decreases radius + 1 - i,
        {
            let mut ring_positions = self.ring(i);
            positions.append(&mut ring_positions);
            i = i + 1;
        }

        proof {
            lemma_hexagon_len(self, radius as int);
        }
        positions
    }
}

/// The length of a ring: one position at radius zero, `6 * r` positions at
/// positive radius `r`.
pub proof fn lemma_ring_len(c: Position, r: int)
    requires
        r >= 0,
    ensures
        ring_seq(c, r).len() == if r == 0 {
            1int
        } else {
            6 * r
        },
{
    if r > 0 {
        reveal_with_fuel(edges_prefix, 7);
    }
}


/// The length of a filled hexagon: the closed-form count of hex cells
/// within radius `r`.
pub proof fn lemma_hexagon_len(c: Position, r: int)
    requires
        r >= 0,
    ensures
        hexagon_seq(c, r).len() == 1 + 3 * r * (r + 1),
    decreases r,
{
    lemma_ring_len(c, r);
    if r == 0 {
        assert(hexagon_seq(c, -1) =~= Seq::<Position>::empty());
    } else {
        lemma_hexagon_len(c, r - 1);
        assert(1 + 3 * (r - 1) * r + 6 * r == 1 + 3 * r * (r + 1)) by (nonlinear_arith);
    }
}

/// Every position on the radius-`r` ring around `c` lies at hex distance
/// exactly `r` from `c`.
pub proof fn lemma_ring_distance(c: Position, r: int)
    requires
        bounded(c),
        0 <= r <= COORD_LIMIT,
    ensures
        forall|k: int|
            0 <= k < ring_seq(c, r).len() ==> dist_spec(c, #[trigger] ring_seq(c, r)[k]) == r,
{
    if r == 0 {
        assert(ring_seq(c, 0)[0] == c);
    } else {
        assert forall|k: int| 0 <= k < ring_seq(c, r).len() implies dist_spec(
            c,
            #[trigger] ring_seq(c, r)[k],
        ) == r by {
            reveal_with_fuel(edges_prefix, 7);
            lemma_ring_len(c, r);
            if k < r {
                lemma_ring_elem_dist(c, r, 0, k);
            } else if k < 2 * r {
                lemma_ring_elem_dist(c, r, 1, k - r);
            } else if k < 3 * r {
                lemma_ring_elem_dist(c, r, 2, k - 2 * r);
            } else if k < 4 * r {
                lemma_ring_elem_dist(c, r, 3, k - 3 * r);
            } else if k < 5 * r {
                lemma_ring_elem_dist(c, r, 4, k - 4 * r);
            } else {
                lemma_ring_elem_dist(c, r, 5, k - 5 * r);
            }
        }
    }
}

/// The `j`-th position of edge `e` lies at hex distance exactly `r` from the
/// ring's center.
proof fn lemma_ring_elem_dist(c: Position, r: int, e: int, j: int)
    requires
        bounded(c),
        1 <= r <= COORD_LIMIT,
        0 <= e < 6,
        0 <= j < r,
    ensures
        dist_spec(c, ring_elem(c, r, e, j)) == r,
{
    let u = offset_spec(from_index(e));
    let w = offset_spec(from_index(e + 2));
    let ua = u.alpha as int;
    let ub = u.beta as int;
    let wa = w.alpha as int;
    let wb = w.beta as int;
    lemma_ring_elem_bounds(c, r, e, j);
    let p = ring_elem(c, r, e, j);
    assert(p.alpha == c.alpha + ua * r + wa * j && p.beta == c.beta + ub * r + wb * j)
        by (nonlinear_arith)
        requires
            p == ring_elem(c, r, e, j),
            u == offset_spec(from_index(e)),
            w == offset_spec(from_index(e + 2)),
            ua == u.alpha as int,
            ub == u.beta as int,
            wa == w.alpha as int,
            wb == w.beta as int,
            bounded(c),
            -1 <= ua <= 1,
            -1 <= ub <= 1,
            -1 <= wa <= 1,
            -1 <= wb <= 1,
            0 <= j < r <= 30000,
    ;
    let da = p.alpha - c.alpha;
    let db = p.beta - c.beta;
    if e == 0 {
        assert(da == r && db == -j) by (nonlinear_arith)
            requires
                da == ua * r + wa * j,
                db == ub * r + wb * j,
                ua == 1 && ub == 0 && wa == 0 && wb == -1,
                0 <= j < r,
        ;
    } else if e == 1 {
        assert(da == r - j && db == -r) by (nonlinear_arith)
            requires
                da == ua * r + wa * j,
                db == ub * r + wb * j,
                ua == 1 && ub == -1 && wa == -1 && wb == 0,
                0 <= j < r,
        ;
    } else if e == 2 {
        assert(da == -j && db == -r + j) by (nonlinear_arith)
            requires
                da == ua * r + wa * j,
                db == ub * r + wb * j,
                ua == 0 && ub == -1 && wa == -1 && wb == 1,
                0 <= j < r,
        ;
    } else if e == 3 {
        assert(da == -r && db == j) by (nonlinear_arith)
            requires
                da == ua * r + wa * j,
                db == ub * r + wb * j,
                ua == -1 && ub == 0 && wa == 0 && wb == 1,
                0 <= j < r,
        ;
    } else if e == 4 {
        assert(da == -r + j && db == r) by (nonlinear_arith)
            requires
                da == ua * r + wa * j,
                db == ub * r + wb * j,
                ua == -1 && ub == 1 && wa == 1 && wb == 0,
                0 <= j < r,
        ;
    } else {
        assert(da == j && db == r - j) by (nonlinear_arith)
            requires
                da == ua * r + wa * j,
                db == ub * r + wb * j,
                ua == 0 && ub == 1 && wa == 1 && wb == -1,
                0 <= j < r,
        ;
    }
}

} // verus!
