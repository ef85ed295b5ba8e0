//! Tests for the coordinate system, directions, rings and lines.

use hex_substrate::coords::MAP_SIZE;
use hex_substrate::HexDirection::East;
use hex_substrate::HexDirection::Northeast;
use hex_substrate::HexDirection::Northwest;
use hex_substrate::HexDirection::Southeast;
use hex_substrate::HexDirection::Southwest;
use hex_substrate::HexDirection::West;
use hex_substrate::CubePosition;
use hex_substrate::HexDirection;
use hex_substrate::Position;

fn pos(alpha: isize, beta: isize) -> Position {
    Position { alpha, beta }
}

#[test]
fn cubic_coordinates_sum_to_zero() {
    let samples = [pos(0, 0), pos(3, -7), pos(-5, 2), pos(11, 11), pos(-4, -9)];
    for p in samples {
        let c = p.to_cubic();
        assert_eq!(c.alpha + c.beta + c.gamma, 0);
        assert_eq!(c.alpha, p.alpha);
        assert_eq!(c.beta, p.beta);
    }
}

#[test]
fn cubic_round_trips_to_axial() {
    let c = CubePosition { alpha: 4, beta: -1, gamma: -3 };
    let p = c.to_axial();
    assert_eq!(p.alpha, 4);
    assert_eq!(p.beta, -1);
}

#[test]
fn distance_concrete_values() {
    let origin = pos(0, 0);
    assert_eq!(origin.dist(pos(1, 0)), 1);
    assert_eq!(origin.dist(pos(1, -1)), 1);
    assert_eq!(origin.dist(pos(2, -1)), 2);
    assert_eq!(origin.dist(pos(3, 2)), 5);
    assert_eq!(pos(-2, 1).dist(pos(3, -4)), 5);
}

#[test]
fn distance_is_zero_on_self_and_symmetric() {
    let samples = [pos(0, 0), pos(3, -7), pos(-5, 2), pos(8, 8)];
    for a in samples {
        assert_eq!(a.dist(a), 0);
        for b in samples {
            assert_eq!(a.dist(b), b.dist(a));
        }
    }
}

#[test]
fn vector_arithmetic() {
    let a = pos(2, -3);
    let b = pos(-1, 5);
    let sum = a.add(b);
    assert_eq!(sum.alpha, 1);
    assert_eq!(sum.beta, 2);
    let diff = a.subtract(b);
    assert_eq!(diff.alpha, 3);
    assert_eq!(diff.beta, -8);
    let scaled = a.scale(-4);
    assert_eq!(scaled.alpha, -8);
    assert_eq!(scaled.beta, 12);
}

#[test]
fn direction_offsets_are_units() {
    let expected = [
        (East, (1, 0)),
        (Southeast, (1, -1)),
        (Southwest, (0, -1)),
        (West, (-1, 0)),
        (Northwest, (-1, 1)),
        (Northeast, (0, 1)),
    ];
    for (d, (a, b)) in expected {
        let o = d.offset();
        assert_eq!((o.alpha, o.beta), (a, b));
    }
}

#[test]
fn opposite_directions_have_opposite_offsets() {
    for d in [East, Southeast, Southwest, West, Northwest, Northeast] {
        let o = d.offset();
        let opp = d.rotate(3).offset();
        assert_eq!(o.alpha, -opp.alpha);
        assert_eq!(o.beta, -opp.beta);
    }
}

#[test]
fn rotate_full_turn_is_identity() {
    for d in [East, Southeast, Southwest, West, Northwest, Northeast] {
        assert_eq!(d.rotate(6), d);
        assert_eq!(d.rotate(0), d);
        assert_eq!(d.rotate(-6), d);
    }
}

#[test]
fn rotate_composes_additively() {
    for d in [East, Southeast, Southwest, West, Northwest, Northeast] {
        for a in [-7isize, -1, 0, 2, 5, 13] {
            for b in [-5isize, 0, 1, 4, 11] {
                assert_eq!(d.rotate(a).rotate(b), d.rotate(a + b));
            }
        }
    }
}

#[test]
fn from_int_reduces_modulo_six() {
    assert_eq!(HexDirection::from_int(0), East);
    assert_eq!(HexDirection::from_int(1), Southeast);
    assert_eq!(HexDirection::from_int(5), Northeast);
    assert_eq!(HexDirection::from_int(6), East);
    assert_eq!(HexDirection::from_int(-1), Northeast);
    assert_eq!(HexDirection::from_int(-6), East);
}

#[test]
fn ring_of_radius_zero_is_center() {
    let c = pos(4, -2);
    let ring = c.ring(0);
    assert_eq!(ring.len(), 1);
    assert_eq!(ring[0], c);
}

#[test]
fn ring_has_six_r_positions_each_at_distance_r() {
    let c = pos(2, 1);
    for r in 1..6isize {
        let ring = c.ring(r);
        assert_eq!(ring.len(), (6 * r) as usize);
        for p in &ring {
            assert_eq!(c.dist(*p), r);
        }
    }
}

#[test]
fn ring_positions_are_distinct() {
    let c = pos(0, 0);
    let ring = c.ring(4);
    for i in 0..ring.len() {
        for j in 0..i {
            assert_ne!(ring[i], ring[j]);
        }
    }
}

#[test]
fn ring_starts_east_and_walks_clockwise() {
    let ring = pos(0, 0).ring(2);
    assert_eq!(ring[0], pos(2, 0));
    assert_eq!(ring[1], pos(2, -1));
    assert_eq!(ring[2], pos(2, -2));
    assert_eq!(ring[3], pos(1, -2));
    assert_eq!(ring[4], pos(0, -2));
}

#[test]
fn hexagon_has_closed_form_count() {
    let c = pos(-3, 5);
    for r in 0..6isize {
        let hexagon = c.hexagon(r);
        assert_eq!(hexagon.len(), (1 + 3 * r * (r + 1)) as usize);
        for p in &hexagon {
            assert!(c.dist(*p) <= r);
        }
    }
}

#[test]
fn translate_within_map_is_plain_arithmetic() {
    let p = pos(2, -1);
    let q = p.translate(&HexDirection::East, 3);
    assert_eq!(q, pos(5, -1));
    let w = p.translate(&HexDirection::Northwest, 2);
    assert_eq!(w, pos(0, 1));
}

#[test]
fn translate_wraps_past_the_east_edge() {
    let p = pos(MAP_SIZE, 0);
    let q = p.translate(&HexDirection::East, 1);
    assert_eq!(q, pos(-MAP_SIZE, MAP_SIZE));
}

#[test]
fn translate_from_any_map_tile_stays_on_the_map() {
    let origin = pos(0, 0);
    for alpha in -(2 * MAP_SIZE)..=(2 * MAP_SIZE) {
        for beta in -(2 * MAP_SIZE)..=(2 * MAP_SIZE) {
            let p = pos(alpha, beta);
            if p.dist(origin) <= MAP_SIZE {
                for d in [East, Southeast, Southwest, West, Northwest, Northeast] {
                    let q = p.translate(&d, 1);
                    assert!(
                        q.dist(origin) <= MAP_SIZE,
                        "stepping {:?} from {:?} left the map at {:?}",
                        d,
                        p,
                        q
                    );
                }
            }
        }
    }
}

#[test]
fn line_covers_one_tile_per_unit_step() {
    let a = pos(0, 0);
    let b = pos(3, -2);
    let line = a.line_to(b);
    assert_eq!(line.len(), (a.dist(b) + 1) as usize);
    assert_eq!(line[0], a);
    assert_eq!(line[line.len() - 1], b);
    for w in line.windows(2) {
        assert_eq!(w[0].dist(w[1]), 1);
    }
}

#[test]
fn line_to_self_is_single_tile() {
    let a = pos(-2, 7);
    let line = a.line_to(a);
    assert_eq!(line, vec![a]);
}

#[test]
fn straight_east_line_is_exact() {
    let line = pos(0, 0).line_to(pos(4, 0));
    assert_eq!(line, vec![pos(0, 0), pos(1, 0), pos(2, 0), pos(3, 0), pos(4, 0)]);
}
