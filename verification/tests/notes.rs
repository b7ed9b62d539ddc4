use orbtiama_core::deserialize::chart::math::Clockwise;
use orbtiama_core::deserialize::element::notes::{
    DecorationFlag, Location, LocationSector, Note, NoteCommon, NoteDecoration, NoteHold, NoteTap,
    SlideLocator,
};

fn tap(index: u8) -> Location {
    Location { sector: LocationSector::Tap, index }
}

#[test]
fn sector_from_char() {
    assert_eq!(LocationSector::from('A'), LocationSector::A);
    assert_eq!(LocationSector::from('E'), LocationSector::E);
    assert_eq!(LocationSector::from('3'), LocationSector::Tap);
    assert_eq!(LocationSector::from('F'), LocationSector::Tap);
}

#[test]
fn location_from_str() {
    assert_eq!(Location::try_from("3"), Ok(tap(3)));
    assert_eq!(
        Location::try_from("B5"),
        Ok(Location { sector: LocationSector::B, index: 5 })
    );
    assert_eq!(
        Location::try_from("C"),
        Ok(Location { sector: LocationSector::C, index: 0 })
    );
    assert_eq!(
        Location::try_from("C1"),
        Ok(Location { sector: LocationSector::C, index: 1 })
    );
    assert_eq!(Location::try_from("8xyz"), Ok(tap(8)));
}

#[test]
fn location_from_str_errors() {
    assert_eq!(Location::try_from(""), Err("string is empty"));
    assert_eq!(Location::try_from("x"), Err(" not a valid number"));
    assert_eq!(Location::try_from("0"), Err("not a valid number"));
    assert_eq!(Location::try_from("9"), Err("not a valid number"));
    assert_eq!(Location::try_from("Bx"), Err(" not a valid number"));
    assert_eq!(Location::try_from("D"), Err("no index specified"));
}

#[test]
fn sensor_and_distances() {
    assert!(!tap(1).is_sensor());
    assert!(Location { sector: LocationSector::E, index: 1 }.is_sensor());
    assert_eq!(tap(2).tap_distance_to(&tap(7)), (3, Clockwise::Ccw));
    assert_eq!(tap(2).tap_distance_to_with_clockwise(&tap(7), Clockwise::Cw), 5);
}

#[test]
fn rotate_locations() {
    assert_eq!(tap(8).rotate(1, Clockwise::Cw), tap(1));
    assert_eq!(tap(1).rotate(1, Clockwise::Ccw), tap(8));
    let c = Location { sector: LocationSector::C, index: 1 };
    assert_eq!(c.rotate(3, Clockwise::Cw), Location { sector: LocationSector::C, index: 0 });
    let b = Location { sector: LocationSector::B, index: 2 };
    assert_eq!(b.rotate(2, Clockwise::Ccw), Location { sector: LocationSector::B, index: 8 });
}

#[test]
fn decoration_flags() {
    let mut d = NoteDecoration::default();
    assert_eq!(d.bits(), 0);
    d.insert(DecorationFlag::Break);
    d.insert(DecorationFlag::Each);
    assert_eq!(d.bits(), 0b100_0001);
    assert!(d.contains(DecorationFlag::Each));
    assert!(!d.contains(DecorationFlag::Ex));
    d.remove(DecorationFlag::Break);
    assert!(!d.contains(DecorationFlag::Break));
    assert_eq!(d.bits(), 1 << 6);
    let e = d.with(DecorationFlag::DoubleStar);
    assert_eq!(e.bits(), (1 << 6) | (1 << 13));
    assert_eq!(NoteDecoration::from_bits_retain(0x8000).bits(), 0x8000);
    assert_eq!(DecorationFlag::ForceNormal.bit(), 512);
}

#[test]
fn slide_end_location() {
    assert_eq!(SlideLocator::Straight(tap(4)).get_end_location(), tap(4));
    assert_eq!(SlideLocator::GrandVShape(tap(2), tap(6)).get_end_location(), tap(6));
    assert_eq!(SlideLocator::FanShape(tap(5)).get_end_location(), tap(5));
}

#[test]
fn note_common_and_decoration() {
    let mut n: Note<f32, ()> = Note::Hold(NoteHold {
        common: NoteCommon { location: tap(3), decoration: NoteDecoration::none() },
        duration: 1.5,
    });
    n.insert_decoration(DecorationFlag::Ex);
    assert!(n.common().decoration.contains(DecorationFlag::Ex));
    assert_eq!(n.common().location, tap(3));
    let t: Note<f32, ()> = Note::Tap(NoteTap { common: NoteCommon::default() });
    assert_eq!(t.common().location, tap(0));
}

#[test]
fn rotate_back_and_measure() {
    for start in 1..=8u8 {
        for d in 1..=8u8 {
            for cw in [Clockwise::Cw, Clockwise::Ccw] {
                let there = tap(start).rotate(d, cw);
                assert_eq!(there.rotate(d, cw.reversed()), tap(start));
                assert_eq!(tap(start).tap_distance_to_with_clockwise(&there, cw), d);
            }
        }
    }
    let e = Location { sector: LocationSector::E, index: 7 };
    assert_eq!(e.rotate(5, Clockwise::Cw), Location { sector: LocationSector::E, index: 4 });
    assert_eq!(e.rotate(5, Clockwise::Cw).rotate(5, Clockwise::Ccw), e);
    assert_eq!(tap(3).tap_distance_to_with_clockwise(&tap(5), Clockwise::Cw), 2);
}
