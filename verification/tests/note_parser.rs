use orbtiama_core::deserialize::element::notes::{
    DecorationFlag, Location, LocationSector, Note, NoteCommon, NoteDecoration, NoteHold,
    NoteSlide, NoteTap, SlideBranch, SlideLocator, SlidePart, SlidePartRaw,
};
use orbtiama_core::deserialize::parser::note_parser::{
    process_each, process_slide_branch_each, process_slide_branch_wifi, process_slide_each,
    process_slide_parts_break, SlideBranchRaw,
};

fn tap(index: u8) -> Location {
    Location { sector: LocationSector::Tap, index }
}

fn raw(location: SlideLocator, flags: &[DecorationFlag]) -> SlidePartRaw {
    let mut decoration = NoteDecoration::none();
    for f in flags {
        decoration.insert(*f);
    }
    SlidePartRaw { location, decoration }
}

#[test]
fn fan_slide_splits_into_three() {
    let fan = SlideBranchRaw {
        start_location: tap(1),
        slide_parts: vec![(
            raw(SlideLocator::FanShape(tap(5)), &[DecorationFlag::WifiSlide, DecorationFlag::Break]),
            Some((1.0f32, 0.5f32)),
        )],
    };
    let plain = SlideBranchRaw {
        start_location: tap(2),
        slide_parts: vec![(raw(SlideLocator::Straight(tap(6)), &[]), None)],
    };
    let out = process_slide_branch_wifi(vec![fan, plain]);
    assert_eq!(out.len(), 4);
    assert!(matches!(out[0].slide_parts[0].0.location, SlideLocator::FanShape(_)));
    assert_eq!(out[1].start_location, tap(1));
    assert_eq!(out[1].slide_parts.len(), 1);
    assert_eq!(out[1].slide_parts[0].0.location, SlideLocator::Straight(tap(6)));
    assert_eq!(out[2].slide_parts[0].0.location, SlideLocator::Straight(tap(4)));
    for b in &out[1..3] {
        assert!(!b.slide_parts[0].0.decoration.contains(DecorationFlag::WifiSlide));
        assert!(b.slide_parts[0].0.decoration.contains(DecorationFlag::Break));
        assert_eq!(b.slide_parts[0].1, Some((1.0, 0.5)));
    }
    assert_eq!(out[3].start_location, tap(2));
}

#[test]
fn fan_at_the_ring_edge_wraps() {
    let fan = SlideBranchRaw {
        start_location: tap(4),
        slide_parts: vec![(raw(SlideLocator::FanShape(tap(8)), &[]), 7u8)],
    };
    let out = process_slide_branch_wifi(vec![fan]);
    assert_eq!(out[1].slide_parts[0].0.location, SlideLocator::Straight(tap(1)));
    assert_eq!(out[2].slide_parts[0].0.location, SlideLocator::Straight(tap(7)));
}

#[test]
fn branch_each_only_with_two_branches() {
    let mut one = vec![SlideBranchRaw {
        start_location: tap(1),
        slide_parts: vec![(raw(SlideLocator::Straight(tap(5)), &[]), ())],
    }];
    process_slide_branch_each(&mut one);
    assert_eq!(one[0].slide_parts[0].0.decoration.bits(), 0);
    let mut two = vec![
        SlideBranchRaw {
            start_location: tap(1),
            slide_parts: vec![
                (raw(SlideLocator::Straight(tap(5)), &[]), ()),
                (raw(SlideLocator::VShape(tap(3)), &[DecorationFlag::Ex]), ()),
            ],
        },
        SlideBranchRaw {
            start_location: tap(1),
            slide_parts: vec![(raw(SlideLocator::ShortArc(tap(3)), &[]), ())],
        },
    ];
    process_slide_branch_each(&mut two);
    for b in &two {
        for p in &b.slide_parts {
            assert!(p.0.decoration.contains(DecorationFlag::Each));
            assert!(p.0.decoration.contains(DecorationFlag::TailEach));
        }
    }
    assert!(two[0].slide_parts[1].0.decoration.contains(DecorationFlag::Ex));
}

fn part(flags: &[DecorationFlag], body: u32) -> SlidePart<u32> {
    let mut decoration = NoteDecoration::none();
    for f in flags {
        decoration.insert(*f);
    }
    SlidePart { decoration, body }
}

#[test]
fn break_spreads_over_parts() {
    let mut parts = vec![part(&[], 1), part(&[DecorationFlag::Break], 2), part(&[], 3)];
    process_slide_parts_break(&mut parts);
    for (i, p) in parts.iter().enumerate() {
        assert!(p.decoration.contains(DecorationFlag::Break));
        assert!(p.decoration.contains(DecorationFlag::TailBreak));
        assert_eq!(p.body, i as u32 + 1);
    }
    let mut plain = vec![part(&[DecorationFlag::Ex], 1), part(&[], 2)];
    process_slide_parts_break(&mut plain);
    assert_eq!(plain[0].decoration.bits(), 1 << 1);
    assert_eq!(plain[1].decoration.bits(), 0);
}

fn tap_note(index: u8) -> Note<f32, u32> {
    Note::Tap(NoteTap { common: NoteCommon { location: tap(index), decoration: NoteDecoration::none() } })
}

fn slide_note(index: u8) -> Note<f32, u32> {
    Note::Slide(NoteSlide {
        common: NoteCommon { location: tap(index), decoration: NoteDecoration::none() },
        slide_branches: vec![SlideBranch { start_location: tap(index), slide_parts: vec![part(&[], 9)] }],
    })
}

#[test]
fn each_dividers_join_neighbours() {
    let mut notes = vec![tap_note(1), tap_note(2), tap_note(3), tap_note(4)];
    process_each(&mut notes, &[false, true, false]);
    let each: Vec<bool> =
        notes.iter().map(|n| n.common().decoration.contains(DecorationFlag::Each)).collect();
    assert_eq!(each, vec![false, true, true, false]);
}

#[test]
fn two_slides_are_each() {
    let mut notes = vec![slide_note(1), tap_note(2), slide_note(5)];
    process_each(&mut notes, &[]);
    assert!(notes[0].common().decoration.contains(DecorationFlag::Each));
    assert!(!notes[1].common().decoration.contains(DecorationFlag::Each));
    if let Note::Slide(s) = &notes[2] {
        assert!(s.common.decoration.contains(DecorationFlag::Each));
        let d = s.slide_branches[0].slide_parts[0].decoration;
        assert!(d.contains(DecorationFlag::Each) && d.contains(DecorationFlag::TailEach));
        assert_eq!(s.slide_branches[0].slide_parts[0].body, 9);
    } else {
        panic!("slide expected");
    }
}

#[test]
fn one_slide_is_not_each() {
    let mut notes = vec![slide_note(1), tap_note(2)];
    process_slide_each(&mut notes);
    assert_eq!(notes[0].common().decoration.bits(), 0);
    let mut hold: Vec<Note<f32, u32>> = vec![Note::Hold(NoteHold {
        common: NoteCommon { location: tap(3), decoration: NoteDecoration::none() },
        duration: 2.0,
    })];
    process_slide_each(&mut hold);
    assert_eq!(hold[0].common().decoration.bits(), 0);
}
