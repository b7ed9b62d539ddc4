use orbtiama_core::deserialize::chart::math::{
    Clockwise, determine_clockwise, get_circular_distance_with_direction,
    get_nearest_circular_distance, move_circular,
};
use orbtiama_core::deserialize::element::notes::{Location, LocationSector};

#[test]
fn gcdad_test_1() {
    assert_eq!(get_nearest_circular_distance(1, 8, 8), (1, Clockwise::Ccw));
}

#[test]
fn gcdad_test_2() {
    assert_eq!(get_nearest_circular_distance(8, 1, 8), (1, Clockwise::Cw));
}

#[test]
fn gcdad_test_3() {
    assert_eq!(get_nearest_circular_distance(3, 8, 8), (3, Clockwise::Ccw));
}

#[test]
fn gcdad_test_4() {
    assert_eq!(get_nearest_circular_distance(8, 3, 8), (3, Clockwise::Cw));
}

#[test]
fn gcdad_test_5() {
    assert_eq!(get_nearest_circular_distance(8, 4, 8), (4, Clockwise::Cw));
}

#[test]
fn gcd_test_1() {
    assert_eq!(get_circular_distance_with_direction(8, 4, 8, Clockwise::Cw), 4);
}

#[test]
fn gcd_test_2() {
    assert_eq!(get_circular_distance_with_direction(1, 8, 8, Clockwise::Cw), 7);
}

#[test]
fn gcd_test_3() {
    assert_eq!(get_circular_distance_with_direction(8, 1, 8, Clockwise::Ccw), 7);
}

#[test]
fn gcd_test_4() {
    assert_eq!(get_circular_distance_with_direction(1, 1, 8, Clockwise::Ccw), 8);
}

#[test]
fn gcd_test_5() {
    assert_eq!(get_circular_distance_with_direction(4, 5, 8, Clockwise::Ccw), 7);
}

#[test]
fn off_ring_positions_give_zero() {
    assert_eq!(get_circular_distance_with_direction(0, 3, 8, Clockwise::Cw), 0);
    assert_eq!(get_circular_distance_with_direction(3, 9, 8, Clockwise::Ccw), 0);
    assert_eq!(get_nearest_circular_distance(9, 1, 8), (0, Clockwise::Cw));
    assert_eq!(get_nearest_circular_distance(5, 5, 8), (0, Clockwise::Cw));
}

#[test]
fn directions_add_up_to_a_full_turn() {
    for a in 1..=8u8 {
        for b in 1..=8u8 {
            if a != b {
                let cw = get_circular_distance_with_direction(a, b, 8, Clockwise::Cw);
                let ccw = get_circular_distance_with_direction(a, b, 8, Clockwise::Ccw);
                assert_eq!(cw + ccw, 8);
            }
        }
    }
}

#[test]
fn move_circular_wraps() {
    assert_eq!(move_circular(8, 1, 8, Clockwise::Cw), 1);
    assert_eq!(move_circular(1, 1, 8, Clockwise::Ccw), 8);
    assert_eq!(move_circular(3, 10, 8, Clockwise::Cw), 5);
    assert_eq!(move_circular(5, 0, 8, Clockwise::Cw), 5);
}

#[test]
fn move_circular_past_a_turn_counter_clockwise_follows_signed_remainder() {
    // (1 - 9 + 7) % 8 == -1 in Rust, so the position reached is 0.
    assert_eq!(move_circular(1, 9, 8, Clockwise::Ccw), 0);
    // (1 - 10 + 7) % 8 == -2; -2 + 1 as a byte is 255.
    assert_eq!(move_circular(1, 10, 8, Clockwise::Ccw), 255);
}

#[test]
fn move_then_measure_and_back() {
    for a in 1..=8u8 {
        for d in 1..=8u8 {
            for c in [Clockwise::Cw, Clockwise::Ccw] {
                let m = move_circular(a, d, 8, c);
                assert_eq!(get_circular_distance_with_direction(a, m, 8, c), d);
                assert_eq!(move_circular(m, d, 8, c.reversed()), a);
            }
        }
    }
}

#[test]
fn nearest_is_shortest_and_symmetric() {
    for a in 1..=8u8 {
        for b in 1..=8u8 {
            let (d, c) = get_nearest_circular_distance(a, b, 8);
            let (d2, _) = get_nearest_circular_distance(b, a, 8);
            assert_eq!(d, d2);
            if a != b {
                assert_eq!(get_circular_distance_with_direction(a, b, 8, c), d);
                assert!(d <= get_circular_distance_with_direction(a, b, 8, c.reversed()));
                assert!(2 * d <= 8);
            }
        }
    }
}

#[test]
fn reversed_and_bool() {
    assert_eq!(Clockwise::Cw.reversed(), Clockwise::Ccw);
    assert_eq!(Clockwise::Ccw.reversed().reversed(), Clockwise::Ccw);
    assert!(bool::from(Clockwise::Cw));
    assert!(!bool::from(Clockwise::Ccw));
    assert_eq!(Clockwise::from(true), Clockwise::Cw);
    assert_eq!(Clockwise::from(false), Clockwise::Ccw);
}

#[test]
fn determine_clockwise_by_half() {
    let at = |index| Location { sector: LocationSector::Tap, index };
    assert_eq!(determine_clockwise(&at(7), true), Clockwise::Cw);
    assert_eq!(determine_clockwise(&at(2), true), Clockwise::Cw);
    assert_eq!(determine_clockwise(&at(3), true), Clockwise::Ccw);
    assert_eq!(determine_clockwise(&at(8), false), Clockwise::Ccw);
    assert_eq!(determine_clockwise(&at(5), false), Clockwise::Cw);
}
