use orbtiama_core::deserialize::element::notes::{
    DecorationFlag, Location, LocationSector, Note, NoteCommon, NoteDecoration, NoteHold, NoteTap,
    NoteTouch,
};
use orbtiama_core::statistics::note_statistics::NoteStatisticsPart;

fn common(sector: LocationSector, flags: &[DecorationFlag]) -> NoteCommon {
    let mut decoration = NoteDecoration::none();
    for f in flags {
        decoration.insert(*f);
    }
    NoteCommon { location: Location { sector, index: 1 }, decoration }
}

#[test]
fn counting_by_kind() {
    let notes: Vec<Note<f32, ()>> = vec![
        Note::Tap(NoteTap { common: common(LocationSector::Tap, &[]) }),
        Note::Tap(NoteTap { common: common(LocationSector::Tap, &[DecorationFlag::Break]) }),
        Note::Tap(NoteTap {
            common: common(LocationSector::Tap, &[DecorationFlag::Break, DecorationFlag::Each]),
        }),
        Note::Touch(NoteTouch { common: common(LocationSector::B, &[]) }),
        Note::Hold(NoteHold { common: common(LocationSector::Tap, &[]), duration: 1.0 }),
        Note::Hold(NoteHold { common: common(LocationSector::C, &[]), duration: 1.0 }),
    ];
    let mut s = NoteStatisticsPart::default();
    for n in &notes {
        s.append_count(n);
    }
    assert_eq!(
        s,
        NoteStatisticsPart { tap: 1, touch: 1, hold: 1, slide: 0, touch_hold: 1, each: 1, breaks: 1 }
    );
}
