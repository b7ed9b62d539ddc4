//! Counting notes by kind.
use crate::deserialize::element::notes::{
    common_of, has_flag, is_sensor_location, DecorationFlag, Note,
};
use vstd::prelude::*;

verus! {

/// How many notes of each kind a stretch of a chart holds. A note marked `Each` counts
/// only as `each`; otherwise a break counts only as `breaks`; any other note counts by its
/// kind, a hold on a touch sensor as `touch_hold`.
#[derive(Debug, Clone, Copy, PartialEq, Eq, Structural)]
pub struct NoteStatisticsPart {
    pub tap: u32,
    pub touch: u32,
    pub hold: u32,
    pub slide: u32,
    pub touch_hold: u32,
    pub each: u32,
    pub breaks: u32,
}

impl Default for NoteStatisticsPart {
    fn default() -> (r: NoteStatisticsPart)
        ensures
            r == (NoteStatisticsPart {
                tap: 0,
                touch: 0,
                hold: 0,
                slide: 0,
                touch_hold: 0,
                each: 0,
                breaks: 0,
            }),
    {
        NoteStatisticsPart { tap: 0, touch: 0, hold: 0, slide: 0, touch_hold: 0, each: 0, breaks: 0 }
    }
}

/// The counters after one more note is counted.
pub open spec fn counted<D, P>(s: NoteStatisticsPart, n: Note<D, P>) -> NoteStatisticsPart {
    let d = common_of(n).decoration@;
    if has_flag(d, DecorationFlag::Each) {
        NoteStatisticsPart { each: (s.each + 1) as u32, ..s }
    } else if has_flag(d, DecorationFlag::Break) {
        NoteStatisticsPart { breaks: (s.breaks + 1) as u32, ..s }
    } else {
        match n {
            Note::Tap(_) => NoteStatisticsPart { tap: (s.tap + 1) as u32, ..s },
            Note::Touch(_) => NoteStatisticsPart { touch: (s.touch + 1) as u32, ..s },
            Note::Hold(h) => if is_sensor_location(h.common.location) {
                NoteStatisticsPart { touch_hold: (s.touch_hold + 1) as u32, ..s }
            } else {
                NoteStatisticsPart { hold: (s.hold + 1) as u32, ..s }
            },
            Note::Slide(_) => NoteStatisticsPart { slide: (s.slide + 1) as u32, ..s },
        }
    }
}

/// Whether no counter is at its largest value, so that counting one more cannot overflow.
pub open spec fn room_to_count(s: NoteStatisticsPart) -> bool {
    &&& s.tap < u32::MAX
    &&& s.touch < u32::MAX
    &&& s.hold < u32::MAX
    &&& s.slide < u32::MAX
    &&& s.touch_hold < u32::MAX
    &&& s.each < u32::MAX
    &&& s.breaks < u32::MAX
}

/// The total of all counters.
pub open spec fn total(s: NoteStatisticsPart) -> int {
    s.tap + s.touch + s.hold + s.slide + s.touch_hold + s.each + s.breaks
}

impl NoteStatisticsPart {
    /// Counts one note.
    pub fn append_count<D, P>(&mut self, note: &Note<D, P>)
        requires
            room_to_count(*old(self)),
        ensures
            *final(self) == counted(*old(self), *note),
    {
        let decoration = note.common().decoration;
        if decoration.contains(DecorationFlag::Each) {
            self.each = self.each + 1;
            return;
        }
        if decoration.contains(DecorationFlag::Break) {
            self.breaks = self.breaks + 1;
            return;
        }
        match note {
            Note::Tap(_) => {
                self.tap = self.tap + 1;
            },
            Note::Touch(_) => {
                self.touch = self.touch + 1;
            },
            Note::Hold(h) => {
                if h.common.location.is_sensor() {
                    self.touch_hold = self.touch_hold + 1;
                } else {
                    self.hold = self.hold + 1;
                }
            },
            Note::Slide(_) => {
                self.slide = self.slide + 1;
            },
        }
    }
}

/// Counting a note adds exactly one to exactly one counter.
pub proof fn law_count_adds_one<D, P>(s: NoteStatisticsPart, n: Note<D, P>)
    requires
        room_to_count(s),
    ensures
        total(counted(s, n)) == total(s) + 1,
{
}

/// Whether `n` is `s` with one more in the counter that `pick` names (0 tap, 1 touch,
/// 2 hold, 3 slide, 4 touch hold, 5 each, 6 breaks) and every other counter unchanged.
pub open spec fn one_more(s: NoteStatisticsPart, n: NoteStatisticsPart, pick: int) -> bool {
    &&& n.tap == s.tap + if pick == 0 { 1int } else { 0int }
    &&& n.touch == s.touch + if pick == 1 { 1int } else { 0int }
    &&& n.hold == s.hold + if pick == 2 { 1int } else { 0int }
    &&& n.slide == s.slide + if pick == 3 { 1int } else { 0int }
    &&& n.touch_hold == s.touch_hold + if pick == 4 { 1int } else { 0int }
    &&& n.each == s.each + if pick == 5 { 1int } else { 0int }
    &&& n.breaks == s.breaks + if pick == 6 { 1int } else { 0int }
}

/// Which counter a note goes to: a note marked `Each` to `each`; otherwise a break to
/// `breaks`; otherwise a tap to `tap`, a touch to `touch`, a hold to `hold` on a button and
/// to `touch_hold` on a sensor, and a slide to `slide`. That counter grows by one and no
/// other changes.
pub proof fn law_count_by_kind<D, P>(s: NoteStatisticsPart, n: Note<D, P>)
    requires
        room_to_count(s),
    ensures
        has_flag(common_of(n).decoration@, DecorationFlag::Each) ==> one_more(s, counted(s, n), 5),
        !has_flag(common_of(n).decoration@, DecorationFlag::Each) && has_flag(
            common_of(n).decoration@,
            DecorationFlag::Break,
        ) ==> one_more(s, counted(s, n), 6),
        !has_flag(common_of(n).decoration@, DecorationFlag::Each) && !has_flag(
            common_of(n).decoration@,
            DecorationFlag::Break,
        ) ==> {
            &&& n is Tap ==> one_more(s, counted(s, n), 0)
            &&& n is Touch ==> one_more(s, counted(s, n), 1)
            &&& n is Hold && !is_sensor_location(common_of(n).location) ==> one_more(
                s,
                counted(s, n),
                2,
            )
            &&& n is Slide ==> one_more(s, counted(s, n), 3)
            &&& n is Hold && is_sensor_location(common_of(n).location) ==> one_more(
                s,
                counted(s, n),
                4,
            )
        },
{
}

} // verus!
