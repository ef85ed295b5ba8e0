//! Straight hex lines: the ordered sequence of tiles crossed when walking
//! from one position to another, one tile per unit step.
//!
//! Each point of the line is found by linear interpolation in cubic
//! coordinates followed by rounding to the nearest hex cell: every axis is
//! rounded to the nearest integer and the axis with the largest rounding
//! error is then recomputed from the other two, restoring the cubic
//! invariant. All arithmetic is exact: the interpolated coordinates are kept
//! as integer numerators over the line length as a common denominator.

use vstd::prelude::*;
use vstd::math::abs;
use vstd::arithmetic::div_mod::lemma_fundamental_div_mod;
use vstd::arithmetic::div_mod::lemma_mod_division_less_than_divisor;
use crate::coords::Position;
use crate::coords::dist_spec;
use crate::coords::within;

verus! {

/// Bound on coordinates accepted by the line functions; tighter than the
/// general geometry limit because interpolation multiplies coordinates by
/// the line length.
pub const LINE_RANGE: isize = 1000;

/// The numerator `n` over the positive denominator `d`, rounded to the
/// nearest integer; halves round away from zero.
pub open spec fn round_div_spec(n: int, d: int) -> int {
    if n >= 0 {
        (2 * n + d) / (2 * d)
    } else {
        -((2 * (-n) + d) / (2 * d))
    }
}

/// The hex cell nearest to the exact cubic point `(nx/den, ny/den,
/// nz/den)`: each axis is rounded to the nearest integer, and the axis with
/// the largest rounding error is recomputed from the other two so that the
/// cubic coordinates again sum to zero. The result is returned in axial
/// form.
pub open spec fn cube_round_spec(nx: int, ny: int, nz: int, den: int) -> Position {
    let rx = round_div_spec(nx, den);
    let ry = round_div_spec(ny, den);
    let rz = round_div_spec(nz, den);
    let ex = abs(rx * den - nx);
    let ey = abs(ry * den - ny);
    let ez = abs(rz * den - nz);
    if ex > ey && ex > ez {
        Position { alpha: (-ry - rz) as isize, beta: ry as isize }
    } else if ey > ez {
        Position { alpha: rx as isize, beta: (-rx - rz) as isize }
    } else {
        Position { alpha: rx as isize, beta: ry as isize }
    }
}

/// The `i`-th tile on the straight hex line from `a` to `b`: the cubic
/// interpolation of the endpoints at parameter `i` over the line length,
/// rounded to the nearest hex cell.
pub open spec fn line_point(a: Position, b: Position, i: int) -> Position {
    let n = dist_spec(a, b);
    if n == 0 {
        a
    } else {
        let nx = a.alpha * (n - i) + b.alpha * i;
        let ny = a.beta * (n - i) + b.beta * i;
        let nz = (-a.alpha - a.beta) * (n - i) + (-b.alpha - b.beta) * i;
        cube_round_spec(nx, ny, nz, n)
    }
}

/// The straight hex line from `a` to `b`, one tile per unit step:
/// `dist(a, b) + 1` tiles from `a`'s cell to `b`'s cell.
pub open spec fn line_seq(a: Position, b: Position) -> Seq<Position> {
    Seq::new((dist_spec(a, b) + 1) as nat, |i: int| line_point(a, b, i))
}

/// Rounding a quotient to the nearest integer leaves an error of at most
/// half the denominator: `round_div_spec(n, d) * d` is within `d / 2` of
/// `n`.
proof fn lemma_round_div_close(n: int, d: int)
    requires
        0 < d,
    ensures
        2 * abs(round_div_spec(n, d) * d - n) <= d,
{
    if n >= 0 {
        let q = (2 * n + d) / (2 * d);
        lemma_fundamental_div_mod(2 * n + d, 2 * d);
        lemma_mod_division_less_than_divisor(2 * n + d, 2 * d);
        assert((2 * d) * q == 2 * (q * d)) by (nonlinear_arith);
    } else {
        let q = (2 * (-n) + d) / (2 * d);
        lemma_fundamental_div_mod(2 * (-n) + d, 2 * d);
        lemma_mod_division_less_than_divisor(2 * (-n) + d, 2 * d);
        assert((2 * d) * q == 2 * (q * d)) by (nonlinear_arith);
        assert((-q) * d == -(q * d)) by (nonlinear_arith);
    }
}

/// The numerator `n` over the positive denominator `d`, rounded to the
/// nearest integer; halves round away from zero.
fn round_div(n: isize, d: isize) -> (r: isize)
    requires
        0 < d <= 8000,
        -10000000 <= n <= 10000000,
    ensures
        r as int == round_div_spec(n as int, d as int),
        2 * abs(r as int * d as int - n as int) <= d as int,
{
    proof {
        lemma_round_div_close(n as int, d as int);
    }
    if n >= 0 {
        (2 * n + d) / (2 * d)
    } else {
        -((2 * (-n) + d) / (2 * d))
    }
}

/// The hex cell nearest to the exact cubic point `(nx/den, ny/den,
/// nz/den)`, in axial form.
fn cube_round(nx: isize, ny: isize, nz: isize, den: isize) -> (p: Position)
    requires
        0 < den <= 4000,
        -2000 * den as int <= nx as int <= 2000 * den as int,
        -2000 * den as int <= ny as int <= 2000 * den as int,
        -2000 * den as int <= nz as int <= 2000 * den as int,
    ensures
        p == cube_round_spec(nx as int, ny as int, nz as int, den as int),
{
    let rx = round_div(nx, den);
    let ry = round_div(ny, den);
    let rz = round_div(nz, den);
    proof {
        let dd = den as int;
        assert((-2001 * dd <= rx as int * dd <= 2001 * dd ==> -2001 <= rx as int <= 2001) && (
        -2001 * dd <= ry as int * dd <= 2001 * dd ==> -2001 <= ry as int <= 2001) && (-2001 * dd
            <= rz as int * dd <= 2001 * dd ==> -2001 <= rz as int <= 2001)) by (nonlinear_arith)
            requires
                dd > 0,
        ;
    }
    let ex = abs_small(rx * den - nx);
    let ey = abs_small(ry * den - ny);
    let ez = abs_small(rz * den - nz);
    if ex > ey && ex > ez {
        Position { alpha: -ry - rz, beta: ry }
    } else if ey > ez {
        Position { alpha: rx, beta: -rx - rz }
    } else {
        Position { alpha: rx, beta: ry }
    }
}

/// Absolute value of a small `isize`.
fn abs_small(x: isize) -> (r: isize)
    requires
        -100000 <= x <= 100000,
    ensures
        r as int == abs(x as int),
{
    if x < 0 {
        -x
    } else {
        x
    }
}

impl Position {
    /// The straight hex line from `self` to `b` in walk order, one tile per
    /// unit step: exactly `dist(self, b) + 1` tiles.
    pub fn line_to(self, b: Position) -> (v: Vec<Position>)
        requires
            within(self, LINE_RANGE as int),
            within(b, LINE_RANGE as int),
        ensures
            v@ == line_seq(self, b),
            v@.len() == dist_spec(self, b) + 1,
    {
        let n = self.dist(b);
        let ghost nn = n as int;
        let mut v: Vec<Position> = Vec::new();

        if n == 0 {
            v.push(self);
            assert(v@ =~= line_seq(self, b));
            return v;
        }

        let mut i: isize = 0;
        while i <= n
            invariant
                0 <= i <= nn + 1,
                1 <= nn <= 4000,
                n as int == nn,
                within(self, LINE_RANGE as int),
                within(b, LINE_RANGE as int),
                nn == dist_spec(self, b),
                v@ == line_seq(self, b).take(i as int),
            decreases nn + 1 - i,
        {
            proof {
                let aa = self.alpha as int;
                let ab = self.beta as int;
                let ba = b.alpha as int;
                let bb = b.beta as int;
                let ii = i as int;
                assert(-2000 * nn <= aa * (nn - ii) + ba * ii <= 2000 * nn && -2000 * nn <= ab * (
                nn - ii) + bb * ii <= 2000 * nn && -2000 * nn <= (-aa - ab) * (nn - ii) + (-ba
                    - bb) * ii <= 2000 * nn && -4000000 <= aa * (nn - ii) <= 4000000 && -4000000
                    <= ba * ii <= 4000000 && -4000000 <= ab * (nn - ii) <= 4000000 && -4000000
                    <= bb * ii <= 4000000 && -8000000 <= (-aa - ab) * (nn - ii) <= 8000000
                    && -8000000 <= (-ba - bb) * ii <= 8000000) by (nonlinear_arith)
                    requires
                        -1000 <= aa <= 1000,
                        -1000 <= ab <= 1000,
                        -1000 <= ba <= 1000,
                        -1000 <= bb <= 1000,
                        0 <= ii <= nn,
                        1 <= nn <= 4000,
                ;
            }
            let nx = self.alpha * (n - i) + b.alpha * i;
            let ny = self.beta * (n - i) + b.beta * i;
            let nz = (-self.alpha - self.beta) * (n - i) + (-b.alpha - b.beta) * i;
            let p = cube_round(nx, ny, nz, n);
            v.push(p);
            proof {
                assert(line_seq(self, b).take(i as int + 1) =~= line_seq(self, b).take(
                    i as int,
                ).push(line_point(self, b, i as int)));
            }
            i = i + 1;
        }

        proof {
            assert(line_seq(self, b).take(nn + 1) =~= line_seq(self, b));
        }
        v
    }
}

/// A hex line starts at its first endpoint and ends at its second: the
/// interpolation at the extreme parameters rounds back to the endpoints
/// themselves.
pub proof fn lemma_line_endpoints(a: Position, b: Position)
    requires
        within(a, LINE_RANGE as int),
        within(b, LINE_RANGE as int),
    ensures
        line_seq(a, b)[0] == a,
        line_seq(a, b)[dist_spec(a, b)] == b,
{
    let n = dist_spec(a, b);
    if n == 0 {
        assert(abs(a.alpha - b.alpha) == 0 && abs(a.beta - b.beta) == 0);
        assert(a == b);
    } else {
        lemma_exact_round(a.alpha as int, n);
        lemma_exact_round(a.beta as int, n);
        lemma_exact_round(-a.alpha - a.beta, n);
        lemma_exact_round(b.alpha as int, n);
        lemma_exact_round(b.beta as int, n);
        lemma_exact_round(-b.alpha - b.beta, n);
        assert(a.alpha * (n - 0) + b.alpha * 0 == a.alpha * n && a.beta * (n - 0) + b.beta * 0
            == a.beta * n && (-a.alpha - a.beta) * (n - 0) + (-b.alpha - b.beta) * 0 == (-a.alpha
            - a.beta) * n) by (nonlinear_arith);
        assert(a.alpha * (n - n) + b.alpha * n == b.alpha * n && a.beta * (n - n) + b.beta * n
            == b.beta * n && (-a.alpha - a.beta) * (n - n) + (-b.alpha - b.beta) * n == (-b.alpha
            - b.beta) * n) by (nonlinear_arith);
    }
}

/// Rounding an exact multiple `c * d` over `d` recovers `c`, with zero
/// rounding error.
proof fn lemma_exact_round(c: int, d: int)
    requires
        0 < d,
    ensures
        round_div_spec(c * d, d) == c,
        abs(round_div_spec(c * d, d) * d - c * d) == 0,
{
    lemma_round_div_close(c * d, d);
    let r = round_div_spec(c * d, d);
    assert(2 * abs(r * d - c * d) <= d);
    assert(r == c) by (nonlinear_arith)
        requires
            0 < d,
            2 * abs(r * d - c * d) <= d,
    ;
}


/// Every tile of a hex line between bounded endpoints is itself bounded:
/// interpolation never strays far beyond the endpoints.
pub proof fn lemma_line_point_bounds(a: Position, b: Position, i: int)
    requires
        within(a, LINE_RANGE as int),
        within(b, LINE_RANGE as int),
        0 <= i <= dist_spec(a, b),
    ensures
        within(line_point(a, b, i), 6 * LINE_RANGE as int),
{
    let n = dist_spec(a, b);
    if n != 0 {
        let aa = a.alpha as int;
        let ab = a.beta as int;
        let ba = b.alpha as int;
        let bb = b.beta as int;
        let nx = aa * (n - i) + ba * i;
        let ny = ab * (n - i) + bb * i;
        let nz = (-aa - ab) * (n - i) + (-ba - bb) * i;
        assert(-1000 * (n - i) <= aa * (n - i) <= 1000 * (n - i)) by (nonlinear_arith)
            requires
                -1000 <= aa <= 1000,
                0 <= n - i,
        ;
        assert(-1000 * (n - i) <= ab * (n - i) <= 1000 * (n - i)) by (nonlinear_arith)
            requires
                -1000 <= ab <= 1000,
                0 <= n - i,
        ;
        assert(-2000 * (n - i) <= (-aa - ab) * (n - i) <= 2000 * (n - i)) by (nonlinear_arith)
            requires
                -2000 <= -aa - ab <= 2000,
                0 <= n - i,
        ;
        assert(-1000 * i <= ba * i <= 1000 * i) by (nonlinear_arith)
            requires
                -1000 <= ba <= 1000,
                0 <= i,
        ;
        assert(-1000 * i <= bb * i <= 1000 * i) by (nonlinear_arith)
            requires
                -1000 <= bb <= 1000,
                0 <= i,
        ;
        assert(-2000 * i <= (-ba - bb) * i <= 2000 * i) by (nonlinear_arith)
            requires
                -2000 <= -ba - bb <= 2000,
                0 <= i,
        ;
        assert(-1000 * n <= nx <= 1000 * n);
        assert(-1000 * n <= ny <= 1000 * n);
        assert(-2000 * n <= nz <= 2000 * n);
        lemma_round_div_close(nx, n);
        lemma_round_div_close(ny, n);
        lemma_round_div_close(nz, n);
        let rx = round_div_spec(nx, n);
        let ry = round_div_spec(ny, n);
        let rz = round_div_spec(nz, n);
        assert(-1001 <= rx <= 1001 && -1001 <= ry <= 1001 && -2001 <= rz <= 2001)
            by (nonlinear_arith)
            requires
                1 <= n,
                -1000 * n <= nx <= 1000 * n,
                -1000 * n <= ny <= 1000 * n,
                -2000 * n <= nz <= 2000 * n,
                2 * abs(rx * n - nx) <= n,
                2 * abs(ry * n - ny) <= n,
                2 * abs(rz * n - nz) <= n,
        ;
    }
}

} // verus!
