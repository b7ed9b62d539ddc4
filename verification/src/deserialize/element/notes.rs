//! Notes of a chart: where they are, how they are decorated, and the shape of slides.
use crate::deserialize::chart::math::{
    clockwise_of, directed_distance, directed_distance_defined,
    get_circular_distance_with_direction, get_nearest_circular_distance, is_cw,
    law_move_round_trip, law_move_then_measure, move_circular, move_defined, moved,
    nearest_distance, on_ring, Clockwise,
};
use vstd::prelude::*;
use vstd::string::*;

verus! {

// ---------------------------------------------------------------------------
// Locations
// ---------------------------------------------------------------------------

/// The area a location lies in: one of the touch-sensor rings `A` to `E`, or the ring
/// of eight tap buttons.
#[derive(PartialEq, Eq, Clone, Copy, Debug, Structural)]
pub enum LocationSector {
    A,
    B,
    C,
    D,
    E,
    Tap,
}

/// The sector that a letter names; every other character names the tap ring.
pub open spec fn sector_of(c: char) -> LocationSector {
    if c == 'A' {
        LocationSector::A
    } else if c == 'B' {
        LocationSector::B
    } else if c == 'C' {
        LocationSector::C
    } else if c == 'D' {
        LocationSector::D
    } else if c == 'E' {
        LocationSector::E
    } else {
        LocationSector::Tap
    }
}

impl LocationSector {
    /// The sector that the character `value` names.
    pub fn from_char(value: char) -> (r: LocationSector)
        ensures
            r == sector_of(value),
    {
        if value == 'A' {
            LocationSector::A
        } else if value == 'B' {
            LocationSector::B
        } else if value == 'C' {
            LocationSector::C
        } else if value == 'D' {
            LocationSector::D
        } else if value == 'E' {
            LocationSector::E
        } else {
            LocationSector::Tap
        }
    }
}

impl From<char> for LocationSector {
    fn from(value: char) -> (r: LocationSector) {
        LocationSector::from_char(value)
    }
}

impl vstd::std_specs::convert::FromSpecImpl<char> for LocationSector {
    open spec fn obeys_from_spec() -> bool {
        true
    }

    open spec fn from_spec(v: char) -> LocationSector {
        sector_of(v)
    }
}

impl Default for LocationSector {
    fn default() -> (r: LocationSector)
        ensures
            r == LocationSector::Tap,
    {
        LocationSector::Tap
    }
}

/// A place on the play field: a tap button (`index` 1 to 8) or a sensor of a sensor ring.
#[derive(Clone, Copy, Debug, PartialEq, Eq, Structural)]
pub struct Location {
    pub sector: LocationSector,
    pub index: u8,
}

impl Default for Location {
    fn default() -> (r: Location)
        ensures
            r == (Location { sector: LocationSector::Tap, index: 0 }),
    {
        Location { sector: LocationSector::Tap, index: 0 }
    }
}

/// The number of tap buttons on the ring.
pub open spec fn ring_size() -> u8 {
    8
}

/// Whether a location is a touch sensor rather than a tap button.
pub open spec fn is_sensor_location(l: Location) -> bool {
    l.sector != LocationSector::Tap
}

/// Where [`Location::rotate`] moves a location.
pub open spec fn rotated(l: Location, offset: u8, clockwise: Clockwise) -> Location {
    Location {
        sector: l.sector,
        index: if l.sector == LocationSector::C {
            0
        } else {
            moved(l.index, offset, ring_size(), clockwise)
        },
    }
}

/// The locations that [`Location::rotate`] can move without overflow.
pub open spec fn rotate_defined(l: Location, offset: u8, clockwise: Clockwise) -> bool {
    l.sector != LocationSector::C ==> move_defined(l.index, offset, ring_size(), clockwise)
}

/// The value of a decimal digit character.
pub open spec fn digit_value(c: char) -> Option<u32> {
    if '0' <= c <= '9' {
        Some((c as u32 - '0' as u32) as u32)
    } else {
        None
    }
}

/// What [`Location::parse`] gives for a string of characters `s`: a tap button is a digit
/// `1` to `8`; a sensor is a sector letter followed by a digit, or `C` alone. Characters
/// after the first two are not read.
pub open spec fn parse_location(s: Seq<char>) -> Result<Location, &'static str> {
    if s.len() == 0 {
        Err("string is empty")
    } else {
        let sector = sector_of(s[0]);
        if sector == LocationSector::Tap {
            match digit_value(s[0]) {
                None => Err(" not a valid number"),
                Some(d) => if d == 0 || d > 8 {
                    Err("not a valid number")
                } else {
                    Ok(Location { sector, index: d as u8 })
                },
            }
        } else if s.len() >= 2 {
            match digit_value(s[1]) {
                None => Err(" not a valid number"),
                Some(d) => Ok(Location { sector, index: d as u8 }),
            }
        } else if sector == LocationSector::C {
            Ok(Location { sector, index: 0 })
        } else {
            Err("no index specified")
        }
    }
}

fn to_digit(c: char) -> (r: Option<u32>)
    ensures
        r == digit_value(c),
{
    if '0' <= c && c <= '9' {
        Some(c as u32 - '0' as u32)
    } else {
        None
    }
}

impl Location {
    /// Whether this location is a touch sensor rather than a tap button.
    pub fn is_sensor(&self) -> (r: bool)
        ensures
            r == is_sensor_location(*self),
    {
        self.sector != LocationSector::Tap
    }

    /// The shorter way around the tap ring from this button to `another`: its number of
    /// steps and its direction.
    pub fn tap_distance_to(&self, another: &Location) -> (r: (u8, Clockwise))
        requires
            !is_sensor_location(*self),
            !is_sensor_location(*another),
        ensures
            r == nearest_distance(self.index, another.index, ring_size()),
    {
        get_nearest_circular_distance(self.index, another.index, 8)
    }

    /// The number of steps around the tap ring from this button to `another` in the given
    /// direction.
    pub fn tap_distance_to_with_clockwise(&self, another: &Location, clockwise: Clockwise) -> (r:
        u8)
        requires
            !is_sensor_location(*self),
            !is_sensor_location(*another),
        ensures
            r == directed_distance(self.index, another.index, ring_size(), clockwise),
    {
        proof {
            assert(directed_distance_defined(self.index, another.index, 8, clockwise));
        }
        get_circular_distance_with_direction(self.index, another.index, 8, clockwise)
    }

    /// This location moved `offset` places around its ring; the centre sensor `C` has
    /// index 0 and does not move.
    pub fn rotate(&self, offset: u8, clockwise: Clockwise) -> (r: Location)
        requires
            rotate_defined(*self, offset, clockwise),
        ensures
            r == rotated(*self, offset, clockwise),
    {
        Location {
            sector: self.sector,
            index: if self.sector == LocationSector::C {
                0
            } else {
                move_circular(self.index, offset, 8, clockwise)
            },
        }
    }

    /// Reads a location from its written form, such as `"3"`, `"B5"` or `"C"`.
    pub fn parse(value: &str) -> (r: Result<Location, &'static str>)
        ensures
            r == parse_location(value@),
    {
        let len = value.unicode_len();
        if len == 0 {
            return Err("string is empty");
        }
        let first_char = value.get_char(0);
        let location_sector = LocationSector::from_char(first_char);
        if location_sector == LocationSector::Tap {
            match to_digit(first_char) {
                None => Err(" not a valid number"),
                Some(index) => {
                    if index == 0 || index > 8 {
                        Err("not a valid number")
                    } else {
                        Ok(Location { sector: location_sector, index: index as u8 })
                    }
                },
            }
        } else if len >= 2 {
            let second_char = value.get_char(1);
            match to_digit(second_char) {
                None => Err(" not a valid number"),
                Some(index) => Ok(Location { sector: location_sector, index: index as u8 }),
            }
        } else if location_sector == LocationSector::C {
            Ok(Location { sector: location_sector, index: 0 })
        } else {
            Err("no index specified")
        }
    }
}

impl<'a> TryFrom<&'a str> for Location {
    type Error = &'static str;

    fn try_from(value: &'a str) -> (r: Result<Location, &'static str>) {
        Location::parse(value)
    }
}

impl<'a> vstd::std_specs::convert::TryFromSpecImpl<&'a str> for Location {
    open spec fn obeys_try_from_spec() -> bool {
        true
    }

    open spec fn try_from_spec(v: &'a str) -> Result<Location, &'static str> {
        parse_location(v@)
    }
}

/// A sensor or button rotated `d` places one way and then `d` places back is where it
/// started.
pub proof fn law_rotate_round_trip(l: Location, d: u8, clockwise: Clockwise)
    requires
        l.sector == LocationSector::C ==> l.index == 0,
        l.sector != LocationSector::C ==> on_ring(l.index, ring_size()),
        d <= ring_size(),
    ensures
        rotate_defined(l, d, clockwise),
        rotate_defined(rotated(l, d, clockwise), d, clockwise_of(!is_cw(clockwise))),
        rotated(rotated(l, d, clockwise), d, clockwise_of(!is_cw(clockwise))) == l,
{
    if l.sector != LocationSector::C {
        law_move_round_trip(l.index, d, ring_size(), clockwise);
    }
}

/// Rotating a tap button `d` places (`1 <= d <= 8`) and measuring the way from the button
/// to where it went, in the same direction, gives `d`.
pub proof fn law_rotate_then_distance(l: Location, d: u8, clockwise: Clockwise)
    requires
        !is_sensor_location(l),
        on_ring(l.index, ring_size()),
        1 <= d <= ring_size(),
    ensures
        rotate_defined(l, d, clockwise),
        !is_sensor_location(rotated(l, d, clockwise)),
        directed_distance(l.index, rotated(l, d, clockwise).index, ring_size(), clockwise) == d,
{
    law_move_then_measure(l.index, d, ring_size(), clockwise);
}

/// Each sector letter names its own sector; every other character names the tap ring.
pub proof fn law_sector_letters(c: char)
    ensures
        sector_of('A') == LocationSector::A,
        sector_of('B') == LocationSector::B,
        sector_of('C') == LocationSector::C,
        sector_of('D') == LocationSector::D,
        sector_of('E') == LocationSector::E,
        (c != 'A' && c != 'B' && c != 'C' && c != 'D' && c != 'E') ==> sector_of(c)
            == LocationSector::Tap,
{
}

/// The decimal digit written for `d` (0 to 9).
pub open spec fn digit_char(d: u8) -> char {
    if d == 0 {
        '0'
    } else if d == 1 {
        '1'
    } else if d == 2 {
        '2'
    } else if d == 3 {
        '3'
    } else if d == 4 {
        '4'
    } else if d == 5 {
        '5'
    } else if d == 6 {
        '6'
    } else if d == 7 {
        '7'
    } else if d == 8 {
        '8'
    } else {
        '9'
    }
}

/// How a location is written in a chart: a tap button by its number (`"3"`), the centre
/// sensor as `"C"`, any other sensor by its sector's letter and its number (`"D3"`).
pub open spec fn location_text(l: Location) -> Seq<char> {
    match l.sector {
        LocationSector::Tap => seq![digit_char(l.index)],
        LocationSector::C => seq!['C'],
        LocationSector::A => seq!['A', digit_char(l.index)],
        LocationSector::B => seq!['B', digit_char(l.index)],
        LocationSector::D => seq!['D', digit_char(l.index)],
        LocationSector::E => seq!['E', digit_char(l.index)],
    }
}

/// The locations that have a written form: buttons 1 to 8, the centre sensor with index 0,
/// and the other sensors with a one-digit number.
pub open spec fn location_writable(l: Location) -> bool {
    match l.sector {
        LocationSector::Tap => 1 <= l.index <= 8,
        LocationSector::C => l.index == 0,
        _ => l.index <= 9,
    }
}

/// Reading the written form of a location gives that location back.
pub proof fn law_parse_written_location(l: Location)
    requires
        location_writable(l),
    ensures
        parse_location(location_text(l)) == Ok::<Location, &'static str>(l),
{
    let t = location_text(l);
    assert(digit_value(digit_char(l.index)) == Some(l.index as u32));
    if l.sector == LocationSector::Tap {
        assert(sector_of(t[0]) == LocationSector::Tap);
    } else {
        assert(sector_of(t[0]) == l.sector);
    }
}

// ---------------------------------------------------------------------------
// Decorations
// ---------------------------------------------------------------------------

/// One decoration of a note or of a part of a slide.
#[derive(Clone, Copy, Debug, PartialEq, Eq, Structural)]
pub enum DecorationFlag {
    Break,
    Ex,
    Fireworks,
    Mine,
    SuddenIn,
    FadeOut,
    Each,
    ForceStar,
    Spinning,
    ForceNormal,
    WifiSlide,
    TailEach,
    TailBreak,
    DoubleStar,
}

/// The position of a flag's bit in a [`NoteDecoration`].
pub open spec fn flag_shift(f: DecorationFlag) -> u16 {
    match f {
        DecorationFlag::Break => 0,
        DecorationFlag::Ex => 1,
        DecorationFlag::Fireworks => 2,
        DecorationFlag::Mine => 3,
        DecorationFlag::SuddenIn => 4,
        DecorationFlag::FadeOut => 5,
        DecorationFlag::Each => 6,
        DecorationFlag::ForceStar => 7,
        DecorationFlag::Spinning => 8,
        DecorationFlag::ForceNormal => 9,
        DecorationFlag::WifiSlide => 10,
        DecorationFlag::TailEach => 11,
        DecorationFlag::TailBreak => 12,
        DecorationFlag::DoubleStar => 13,
    }
}

/// The bit that a flag sets in a [`NoteDecoration`].
pub open spec fn flag_bit(f: DecorationFlag) -> u16 {
    (1u16 << flag_shift(f)) as u16
}

impl DecorationFlag {
    /// The bit that this flag sets.
    pub fn bit(self) -> (r: u16)
        ensures
            r == flag_bit(self),
    {
        match self {
            DecorationFlag::Break => 1u16 << 0u16,
            DecorationFlag::Ex => 1u16 << 1u16,
            DecorationFlag::Fireworks => 1u16 << 2u16,
            DecorationFlag::Mine => 1u16 << 3u16,
            DecorationFlag::SuddenIn => 1u16 << 4u16,
            DecorationFlag::FadeOut => 1u16 << 5u16,
            DecorationFlag::Each => 1u16 << 6u16,
            DecorationFlag::ForceStar => 1u16 << 7u16,
            DecorationFlag::Spinning => 1u16 << 8u16,
            DecorationFlag::ForceNormal => 1u16 << 9u16,
            DecorationFlag::WifiSlide => 1u16 << 10u16,
            DecorationFlag::TailEach => 1u16 << 11u16,
            DecorationFlag::TailBreak => 1u16 << 12u16,
            DecorationFlag::DoubleStar => 1u16 << 13u16,
        }
    }
}

/// A set of [`DecorationFlag`]s, stored as bits of a `u16`.
#[derive(Clone, Copy, Debug, PartialEq, Eq, Structural)]
pub struct NoteDecoration {
    bits: u16,
}

impl View for NoteDecoration {
    type V = u16;

    closed spec fn view(&self) -> u16 {
        self.bits
    }
}

/// Whether the bits `d` hold the flag `f`.
pub open spec fn has_flag(d: u16, f: DecorationFlag) -> bool {
    d & flag_bit(f) == flag_bit(f)
}

/// The bits `d` with the flag `f` added.
pub open spec fn with_flag(d: u16, f: DecorationFlag) -> u16 {
    d | flag_bit(f)
}

/// The bits `d` with the flag `f` taken away.
pub open spec fn without_flag(d: u16, f: DecorationFlag) -> u16 {
    d & !flag_bit(f)
}

impl NoteDecoration {
    /// The empty set of decorations.
    pub fn none() -> (r: NoteDecoration)
        ensures
            r@ == 0,
    {
        NoteDecoration { bits: 0 }
    }

    /// The set whose bits are `bits`, unknown bits included.
    pub fn from_bits_retain(bits: u16) -> (r: NoteDecoration)
        ensures
            r@ == bits,
    {
        NoteDecoration { bits }
    }

    /// The bits of this set.
    pub fn bits(&self) -> (r: u16)
        ensures
            r == self@,
    {
        self.bits
    }

    /// Whether this set holds `flag`.
    pub fn contains(&self, flag: DecorationFlag) -> (r: bool)
        ensures
            r == has_flag(self@, flag),
    {
        let b = flag.bit();
        self.bits & b == b
    }

    /// Adds `flag` to this set.
    pub fn insert(&mut self, flag: DecorationFlag)
        ensures
            final(self)@ == with_flag(old(self)@, flag),
    {
        self.bits = self.bits | flag.bit();
    }

    /// Takes `flag` out of this set.
    pub fn remove(&mut self, flag: DecorationFlag)
        ensures
            final(self)@ == without_flag(old(self)@, flag),
    {
        self.bits = self.bits & !flag.bit();
    }

    /// This set with `flag` added.
    pub fn with(self, flag: DecorationFlag) -> (r: NoteDecoration)
        ensures
            r@ == with_flag(self@, flag),
    {
        NoteDecoration { bits: self.bits | flag.bit() }
    }
}

impl Default for NoteDecoration {
    fn default() -> (r: NoteDecoration)
        ensures
            r@ == 0,
    {
        NoteDecoration::none()
    }
}

/// After a flag is added it is held; the other flags are held exactly as before.
pub proof fn law_with_flag(d: u16, f: DecorationFlag, g: DecorationFlag)
    ensures
        has_flag(with_flag(d, f), f),
        f != g ==> has_flag(with_flag(d, f), g) == has_flag(d, g),
{
    let sf = flag_shift(f);
    let sg = flag_shift(g);
    assert(sf < 16 && sg < 16);
    assert(((d | (1u16 << sf)) & (1u16 << sf)) == (1u16 << sf)) by (bit_vector)
        requires
            sf < 16,
    ;
    if f != g {
        assert(sf != sg);
        assert((((d | (1u16 << sf)) & (1u16 << sg)) == (1u16 << sg)) == ((d & (1u16 << sg)) == (
        1u16 << sg))) by (bit_vector)
            requires
                sf < 16,
                sg < 16,
                sf != sg,
        ;
    }
}

/// After a flag is taken away it is not held; the other flags are held exactly as before.
pub proof fn law_without_flag(d: u16, f: DecorationFlag, g: DecorationFlag)
    ensures
        !has_flag(without_flag(d, f), f),
        f != g ==> has_flag(without_flag(d, f), g) == has_flag(d, g),
{
    let sf = flag_shift(f);
    let sg = flag_shift(g);
    assert(sf < 16 && sg < 16);
    assert(((d & !(1u16 << sf)) & (1u16 << sf)) != (1u16 << sf)) by (bit_vector)
        requires
            sf < 16,
    ;
    if f != g {
        assert(sf != sg);
        assert((((d & !(1u16 << sf)) & (1u16 << sg)) == (1u16 << sg)) == ((d & (1u16 << sg)) == (
        1u16 << sg))) by (bit_vector)
            requires
                sf < 16,
                sg < 16,
                sf != sg,
        ;
    }
}

/// Adding a flag that is already held changes nothing.
pub proof fn law_with_flag_idempotent(d: u16, f: DecorationFlag)
    ensures
        has_flag(d, f) ==> with_flag(d, f) == d,
        with_flag(with_flag(d, f), f) == with_flag(d, f),
{
    let sf = flag_shift(f);
    assert(sf < 16);
    assert((d & (1u16 << sf)) == (1u16 << sf) ==> (d | (1u16 << sf)) == d) by (bit_vector)
        requires
            sf < 16,
    ;
    assert(((d | (1u16 << sf)) | (1u16 << sf)) == (d | (1u16 << sf))) by (bit_vector);
}

/// The bit of each flag: `Break` is bit 0, then `Ex`, `Fireworks`, `Mine`, `SuddenIn`,
/// `FadeOut`, `Each`, `ForceStar`, `Spinning`, `ForceNormal`, `WifiSlide`, `TailEach`,
/// `TailBreak` and `DoubleStar`, each one bit higher.
pub proof fn law_flag_bits()
    ensures
        flag_bit(DecorationFlag::Break) == 1,
        flag_bit(DecorationFlag::Ex) == 2,
        flag_bit(DecorationFlag::Fireworks) == 4,
        flag_bit(DecorationFlag::Mine) == 8,
        flag_bit(DecorationFlag::SuddenIn) == 16,
        flag_bit(DecorationFlag::FadeOut) == 32,
        flag_bit(DecorationFlag::Each) == 64,
        flag_bit(DecorationFlag::ForceStar) == 128,
        flag_bit(DecorationFlag::Spinning) == 256,
        flag_bit(DecorationFlag::ForceNormal) == 512,
        flag_bit(DecorationFlag::WifiSlide) == 1024,
        flag_bit(DecorationFlag::TailEach) == 2048,
        flag_bit(DecorationFlag::TailBreak) == 4096,
        flag_bit(DecorationFlag::DoubleStar) == 8192,
{
    assert((1u16 << 0u16) == 1 && (1u16 << 1u16) == 2 && (1u16 << 2u16) == 4 && (1u16 << 3u16)
        == 8 && (1u16 << 4u16) == 16 && (1u16 << 5u16) == 32 && (1u16 << 6u16) == 64 && (1u16
        << 7u16) == 128 && (1u16 << 8u16) == 256 && (1u16 << 9u16) == 512 && (1u16 << 10u16)
        == 1024 && (1u16 << 11u16) == 2048 && (1u16 << 12u16) == 4096 && (1u16 << 13u16)
        == 8192) by (bit_vector);
}

// ---------------------------------------------------------------------------
// Notes
// ---------------------------------------------------------------------------

/// The kinds of notes.
#[derive(Clone, Copy, Debug, PartialEq, Eq, Structural)]
pub enum NoteType {
    Tap,
    Touch,
    Hold,
    Slide,
}

impl Default for NoteType {
    fn default() -> (r: NoteType)
        ensures
            r == NoteType::Tap,
    {
        NoteType::Tap
    }
}

/// What every note has: where it is and how it is decorated.
#[derive(Clone, Copy, Debug)]
pub struct NoteCommon {
    pub location: Location,
    pub decoration: NoteDecoration,
}

impl Default for NoteCommon {
    fn default() -> (r: NoteCommon)
        ensures
            r.location == (Location { sector: LocationSector::Tap, index: 0 }),
            r.decoration@ == 0,
    {
        NoteCommon { location: Location::default(), decoration: NoteDecoration::none() }
    }
}

#[derive(Clone, Copy, Debug)]
pub struct NoteTap {
    pub common: NoteCommon,
}

#[derive(Clone, Copy, Debug)]
pub struct NoteTouch {
    pub common: NoteCommon,
}

/// A hold note; `D` is how its duration is measured.
#[derive(Debug)]
pub struct NoteHold<D> {
    pub common: NoteCommon,
    pub duration: D,
}

/// A slide note: a star at its location and the branches that leave it; `P` is what each
/// part of a slide carries besides its decoration (its path and timing).
#[derive(Debug)]
pub struct NoteSlide<P> {
    pub common: NoteCommon,
    pub slide_branches: Vec<SlideBranch<P>>,
}

/// One way a slide takes from its start, as a chain of parts.
#[derive(Debug)]
pub struct SlideBranch<P> {
    pub start_location: Location,
    pub slide_parts: Vec<SlidePart<P>>,
}

/// One part of a slide branch: its decoration and what else it carries.
#[derive(Debug)]
pub struct SlidePart<P> {
    pub decoration: NoteDecoration,
    pub body: P,
}

/// A note of a chart.
#[derive(Debug)]
pub enum Note<D, P> {
    Tap(NoteTap),
    Touch(NoteTouch),
    Hold(NoteHold<D>),
    Slide(NoteSlide<P>),
}

/// The part that every kind of note has.
pub open spec fn common_of<D, P>(n: Note<D, P>) -> NoteCommon {
    match n {
        Note::Tap(t) => t.common,
        Note::Touch(t) => t.common,
        Note::Hold(h) => h.common,
        Note::Slide(s) => s.common,
    }
}

impl<D, P> Note<D, P> {
    /// The location and decoration of this note.
    pub fn common(&self) -> (r: &NoteCommon)
        ensures
            *r == common_of(*self),
    {
        match self {
            Note::Tap(n) => &n.common,
            Note::Touch(n) => &n.common,
            Note::Hold(n) => &n.common,
            Note::Slide(n) => &n.common,
        }
    }

    /// Adds `flag` to the decoration of this note.
    pub fn insert_decoration(&mut self, flag: DecorationFlag)
        ensures
            same_note_but_decoration(*old(self), *final(self)),
            common_of(*final(self)).decoration@ == with_flag(
                common_of(*old(self)).decoration@,
                flag,
            ),
    {
        match self {
            Note::Tap(n) => n.common.decoration.insert(flag),
            Note::Touch(n) => n.common.decoration.insert(flag),
            Note::Hold(n) => n.common.decoration.insert(flag),
            Note::Slide(n) => n.common.decoration.insert(flag),
        }
    }
}

/// Two notes of the same kind that agree in everything but the note's own decoration.
pub open spec fn same_note_but_decoration<D, P>(a: Note<D, P>, b: Note<D, P>) -> bool {
    &&& common_of(a).location == common_of(b).location
    &&& match (a, b) {
        (Note::Tap(_), Note::Tap(_)) => true,
        (Note::Touch(_), Note::Touch(_)) => true,
        (Note::Hold(x), Note::Hold(y)) => x.duration == y.duration,
        (Note::Slide(x), Note::Slide(y)) => x.slide_branches == y.slide_branches,
        _ => false,
    }
}

// ---------------------------------------------------------------------------
// Slide shapes
// ---------------------------------------------------------------------------

/// The shape of one part of a slide and where it ends.
#[derive(Clone, Copy, Debug, PartialEq, Eq, Structural)]
pub enum SlideLocator {
    Invalid,
    Straight(Location),
    ClockwiseArc(Location),
    AntiClockwiseArc(Location),
    ShortArc(Location),
    VShape(Location),
    GrandVShape(Location, Location),
    ThunderboltS(Location),
    ThunderboltZ(Location),
    PShape(Location),
    QShape(Location),
    GrandPShape(Location),
    GrandQShape(Location),
    FanShape(Location),
}

impl Default for SlideLocator {
    fn default() -> (r: SlideLocator)
        ensures
            r == SlideLocator::Invalid,
    {
        SlideLocator::Invalid
    }
}

/// Where a slide part of the given shape ends.
pub open spec fn end_location(s: SlideLocator) -> Location
    recommends
        !(s is Invalid),
{
    match s {
        SlideLocator::Invalid => Location { sector: LocationSector::Tap, index: 0 },
        SlideLocator::Straight(l) => l,
        SlideLocator::ClockwiseArc(l) => l,
        SlideLocator::AntiClockwiseArc(l) => l,
        SlideLocator::ShortArc(l) => l,
        SlideLocator::VShape(l) => l,
        SlideLocator::GrandVShape(_, l) => l,
        SlideLocator::ThunderboltS(l) => l,
        SlideLocator::ThunderboltZ(l) => l,
        SlideLocator::PShape(l) => l,
        SlideLocator::QShape(l) => l,
        SlideLocator::GrandPShape(l) => l,
        SlideLocator::GrandQShape(l) => l,
        SlideLocator::FanShape(l) => l,
    }
}

impl SlideLocator {
    /// Where this slide part ends; for a grand V, the second of its two locations.
    pub fn get_end_location(&self) -> (r: Location)
        requires
            !(*self is Invalid),
        ensures
            r == end_location(*self),
    {
        match self {
            SlideLocator::Invalid => Location { sector: LocationSector::Tap, index: 0 },
            SlideLocator::Straight(location)
            | SlideLocator::ClockwiseArc(location)
            | SlideLocator::AntiClockwiseArc(location)
            | SlideLocator::ShortArc(location)
            | SlideLocator::VShape(location)
            | SlideLocator::ThunderboltS(location)
            | SlideLocator::ThunderboltZ(location)
            | SlideLocator::PShape(location)
            | SlideLocator::QShape(location)
            | SlideLocator::GrandPShape(location)
            | SlideLocator::GrandQShape(location)
            | SlideLocator::FanShape(location)
            | SlideLocator::GrandVShape(_, location) => *location,
        }
    }
}

/// A slide part ends at the location its shape names; a grand V ends at the second of its
/// two locations.
pub proof fn law_end_location(a: Location, b: Location)
    ensures
        end_location(SlideLocator::Straight(b)) == b,
        end_location(SlideLocator::ClockwiseArc(b)) == b,
        end_location(SlideLocator::AntiClockwiseArc(b)) == b,
        end_location(SlideLocator::ShortArc(b)) == b,
        end_location(SlideLocator::VShape(b)) == b,
        end_location(SlideLocator::GrandVShape(a, b)) == b,
        end_location(SlideLocator::ThunderboltS(b)) == b,
        end_location(SlideLocator::ThunderboltZ(b)) == b,
        end_location(SlideLocator::PShape(b)) == b,
        end_location(SlideLocator::QShape(b)) == b,
        end_location(SlideLocator::GrandPShape(b)) == b,
        end_location(SlideLocator::GrandQShape(b)) == b,
        end_location(SlideLocator::FanShape(b)) == b,
{
}

/// A slide part as read, before its path is drawn: its shape and decoration.
#[derive(Clone, Copy, Debug)]
pub struct SlidePartRaw {
    pub location: SlideLocator,
    pub decoration: NoteDecoration,
}

impl Default for SlidePartRaw {
    fn default() -> (r: SlidePartRaw)
        ensures
            r.location == SlideLocator::Invalid,
            r.decoration@ == 0,
    {
        SlidePartRaw { location: SlideLocator::Invalid, decoration: NoteDecoration::none() }
    }
}

} // verus!
