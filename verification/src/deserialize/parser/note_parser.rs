//! What the note reader decides after the notes of a collection are read: which notes
//! sound together (`each`), how fan slides split into branches, and how a break or an
//! `each` on one part of a slide spreads over the others.
use crate::deserialize::chart::lexer::{Rule, Token};
use crate::deserialize::chart::math::Clockwise;
use crate::deserialize::element::notes::{
    common_of, end_location, flag_bit, has_flag, law_with_flag, law_with_flag_idempotent,
    parse_location, same_note_but_decoration,
    NoteCommon, NoteTap, NoteTouch, rotate_defined, rotated, with_flag, without_flag, DecorationFlag,
    Location, Note, NoteDecoration, SlideBranch, SlideLocator, SlidePart, SlidePartRaw,
};
use vstd::prelude::*;

verus! {

/// A slide branch as read: its start and its parts, each with the timing `T` that was
/// written for it.
#[derive(Debug)]
pub struct SlideBranchRaw<T> {
    pub start_location: Location,
    pub slide_parts: Vec<(SlidePartRaw, T)>,
}

/// A read slide part as plain values: its shape, its decoration bits and its timing.
pub type RawPartView<T> = ((SlideLocator, u16), T);

/// A read slide branch as plain values.
pub type RawBranchView<T> = (Location, Seq<RawPartView<T>>);

pub open spec fn raw_part_view<T>(p: (SlidePartRaw, T)) -> RawPartView<T> {
    ((p.0.location, p.0.decoration@), p.1)
}

pub open spec fn raw_branch_view<T>(b: SlideBranchRaw<T>) -> RawBranchView<T> {
    (b.start_location, b.slide_parts@.map_values(|p: (SlidePartRaw, T)| raw_part_view(p)))
}

pub open spec fn raw_branches_view<T>(bs: Seq<SlideBranchRaw<T>>) -> Seq<RawBranchView<T>> {
    bs.map_values(|b: SlideBranchRaw<T>| raw_branch_view(b))
}

// ---------------------------------------------------------------------------
// Reading notes from tokens
// ---------------------------------------------------------------------------

/// Whether a token's text is a well-formed location.
pub open spec fn location_token_ok(t: Token) -> bool {
    parse_location(t.text@) is Ok
}

/// The location that a token's text names.
pub open spec fn location_of_token(t: Token) -> Location {
    parse_location(t.text@)->Ok_0
}

/// Reads the location that a token's text names.
pub fn read_location(pair: &Token) -> (r: Location)
    requires
        location_token_ok(*pair),
    ensures
        r == location_of_token(*pair),
{
    match Location::parse(pair.text.as_str()) {
        Ok(location) => location,
        Err(_) => {
            proof {
                assert(false);
            }
            Location::default()
        },
    }
}

/// The decoration bits `d` after a token of rule `rule`, if `rule` is a decoration.
pub open spec fn decoration_rule_bits(rule: Rule, d: u16) -> Option<u16> {
    match rule {
        Rule::decoration_break => Some(with_flag(d, DecorationFlag::Break)),
        Rule::decoration_ex => Some(with_flag(d, DecorationFlag::Ex)),
        Rule::decoration_firework => Some(with_flag(d, DecorationFlag::Fireworks)),
        Rule::decoration_fade_out => Some(with_flag(d, DecorationFlag::FadeOut)),
        Rule::decoration_sudden_in => Some(with_flag(d, DecorationFlag::SuddenIn)),
        Rule::decoration_spinning_star => Some(
            with_flag(with_flag(d, DecorationFlag::ForceStar), DecorationFlag::Spinning),
        ),
        Rule::decoration_star => Some(with_flag(d, DecorationFlag::ForceStar)),
        Rule::decoration_force_normal => Some(with_flag(d, DecorationFlag::ForceNormal)),
        _ => None,
    }
}

/// Adds the decoration that a decoration token stands for; `false`, changing nothing, for
/// a token of any other rule.
pub fn read_common_decoration(pair: &Token, decoration: &mut NoteDecoration) -> (r: bool)
    ensures
        r == decoration_rule_bits(pair.rule, old(decoration)@) is Some,
        final(decoration)@ == match decoration_rule_bits(pair.rule, old(decoration)@) {
            Some(b) => b,
            None => old(decoration)@,
        },
{
    match pair.rule {
        Rule::decoration_break => decoration.insert(DecorationFlag::Break),
        Rule::decoration_ex => decoration.insert(DecorationFlag::Ex),
        Rule::decoration_firework => decoration.insert(DecorationFlag::Fireworks),
        Rule::decoration_fade_out => decoration.insert(DecorationFlag::FadeOut),
        Rule::decoration_sudden_in => decoration.insert(DecorationFlag::SuddenIn),
        Rule::decoration_spinning_star => {
            decoration.insert(DecorationFlag::ForceStar);
            decoration.insert(DecorationFlag::Spinning);
        },
        Rule::decoration_star => decoration.insert(DecorationFlag::ForceStar),
        Rule::decoration_force_normal => decoration.insert(DecorationFlag::ForceNormal),
        _ => {
            return false;
        },
    };
    true
}

/// A note's location and decoration bits as plain values.
pub open spec fn common_view(c: NoteCommon) -> (Location, u16) {
    (c.location, c.decoration@)
}

/// A note's location and decoration after one more token, if it is a location or a
/// decoration: a location replaces the location, a decoration is added.
pub open spec fn common_single(t: Token, c: (Location, u16)) -> Option<(Location, u16)> {
    if t.rule == Rule::location {
        Some((location_of_token(t), c.1))
    } else {
        match decoration_rule_bits(t.rule, c.1) {
            Some(b) => Some((c.0, b)),
            None => None,
        }
    }
}

/// Whether a token of `rule` is one that [`read_common_single`] takes.
pub open spec fn is_common_rule(rule: Rule) -> bool {
    rule == Rule::location || decoration_rule_bits(rule, 0) is Some
}

/// Applies a location or decoration token to a note's common part; `false`, changing
/// nothing, for a token of any other rule.
pub fn read_common_single(pair: &Token, common: &mut NoteCommon) -> (r: bool)
    requires
        pair.rule == Rule::location ==> location_token_ok(*pair),
    ensures
        r == common_single(*pair, common_view(*old(common))) is Some,
        common_view(*final(common)) == match common_single(*pair, common_view(*old(common))) {
            Some(c) => c,
            None => common_view(*old(common)),
        },
{
    if pair.rule == Rule::location {
        common.location = read_location(pair);
        return true;
    }
    read_common_decoration(pair, &mut common.decoration)
}

/// A note's location and decoration after its first `k` inner tokens: the first names the
/// location, the others are applied in order.
pub open spec fn common_fold(cs: Seq<Token>, k: int) -> (Location, u16)
    decreases k,
{
    if k <= 1 {
        (location_of_token(cs[0]), 0)
    } else {
        let c = common_fold(cs, k - 1);
        match common_single(cs[k - 1], c) {
            Some(n) => n,
            None => c,
        }
    }
}

/// Whether a note token can be read by [`read_common`]: it has a first inner token that
/// names a location, and every other inner token is a well-formed location or a decoration.
pub open spec fn common_token_ok(t: Token) -> bool {
    &&& t.children@.len() >= 1
    &&& location_token_ok(t.children@[0])
    &&& forall|i: int|
        1 <= i < t.children@.len() ==> is_common_rule(#[trigger] t.children@[i].rule) && (
        t.children@[i].rule == Rule::location ==> location_token_ok(t.children@[i]))
}

/// What [`read_common`] reads from a note token.
pub open spec fn common_of_token(t: Token) -> (Location, u16) {
    common_fold(t.children@, t.children@.len() as int)
}

/// Reads the location and decorations of a tap or touch note.
pub fn read_common(pair: &Token) -> (r: NoteCommon)
    requires
        common_token_ok(*pair),
    ensures
        common_view(r) == common_of_token(*pair),
{
    let cs = &pair.children;
    let mut common = NoteCommon {
        location: read_location(&cs[0]),
        decoration: NoteDecoration::none(),
    };
    let mut i: usize = 1;
    while i < cs.len()
        invariant
            common_token_ok(*pair),
            cs@ == pair.children@,
            1 <= i <= cs@.len(),
            common_view(common) == common_fold(cs@, i as int),
        decreases cs@.len() - i,
    {
        let accepted = read_common_single(&cs[i], &mut common);
        proof {
            assert(accepted);
            assert(is_common_rule(cs@[i as int].rule));
            assert(decoration_rule_bits(cs@[i as int].rule, 0) is Some ==> decoration_rule_bits(
                cs@[i as int].rule,
                common_fold(cs@, i as int).1,
            ) is Some);
        }
        i = i + 1;
    }
    common
}

/// Reads a tap note.
pub fn read_tap_note<D, P>(pair: &Token) -> (r: Note<D, P>)
    requires
        common_token_ok(*pair),
    ensures
        r is Tap,
        common_view(common_of(r)) == common_of_token(*pair),
{
    Note::Tap(NoteTap { common: read_common(pair) })
}

/// Reads a touch note.
pub fn read_touch_note<D, P>(pair: &Token) -> (r: Note<D, P>)
    requires
        common_token_ok(*pair),
    ensures
        r is Touch,
        common_view(common_of(r)) == common_of_token(*pair),
{
    Note::Touch(NoteTouch { common: read_common(pair) })
}

/// Whether `rule` names the shape of a slide part that ends at one location.
pub open spec fn is_locator_rule(rule: Rule) -> bool {
    ||| rule == Rule::slide_locator_straight
    ||| rule == Rule::slide_locator_clockwise_arc
    ||| rule == Rule::slide_locator_anti_clockwise_arc
    ||| rule == Rule::slide_locator_short_arc
    ||| rule == Rule::slide_locator_v
    ||| rule == Rule::slide_locator_thunderbolt_s
    ||| rule == Rule::slide_locator_thunderbolt_z
    ||| rule == Rule::slide_locator_q
    ||| rule == Rule::slide_locator_p
    ||| rule == Rule::slide_locator_grand_p
    ||| rule == Rule::slide_locator_grand_q
    ||| rule == Rule::slide_locator_fan
}

/// The slide part of the shape that `rule` names, ending at `l`.
pub open spec fn locator_of(rule: Rule, l: Location) -> SlideLocator {
    match rule {
        Rule::slide_locator_straight => SlideLocator::Straight(l),
        Rule::slide_locator_clockwise_arc => SlideLocator::ClockwiseArc(l),
        Rule::slide_locator_anti_clockwise_arc => SlideLocator::AntiClockwiseArc(l),
        Rule::slide_locator_short_arc => SlideLocator::ShortArc(l),
        Rule::slide_locator_v => SlideLocator::VShape(l),
        Rule::slide_locator_thunderbolt_s => SlideLocator::ThunderboltS(l),
        Rule::slide_locator_thunderbolt_z => SlideLocator::ThunderboltZ(l),
        Rule::slide_locator_q => SlideLocator::QShape(l),
        Rule::slide_locator_p => SlideLocator::PShape(l),
        Rule::slide_locator_grand_p => SlideLocator::GrandPShape(l),
        Rule::slide_locator_grand_q => SlideLocator::GrandQShape(l),
        Rule::slide_locator_fan => SlideLocator::FanShape(l),
        _ => SlideLocator::Invalid,
    }
}

/// The slide part of the shape that a locator token names, ending at `location`.
pub fn read_slide_locator(pair: &Token, location: Location) -> (r: SlideLocator)
    requires
        is_locator_rule(pair.rule),
    ensures
        r == locator_of(pair.rule, location),
{
    match pair.rule {
        Rule::slide_locator_straight => SlideLocator::Straight(location),
        Rule::slide_locator_clockwise_arc => SlideLocator::ClockwiseArc(location),
        Rule::slide_locator_anti_clockwise_arc => SlideLocator::AntiClockwiseArc(location),
        Rule::slide_locator_short_arc => SlideLocator::ShortArc(location),
        Rule::slide_locator_v => SlideLocator::VShape(location),
        Rule::slide_locator_thunderbolt_s => SlideLocator::ThunderboltS(location),
        Rule::slide_locator_thunderbolt_z => SlideLocator::ThunderboltZ(location),
        Rule::slide_locator_q => SlideLocator::QShape(location),
        Rule::slide_locator_p => SlideLocator::PShape(location),
        Rule::slide_locator_grand_p => SlideLocator::GrandPShape(location),
        Rule::slide_locator_grand_q => SlideLocator::GrandQShape(location),
        Rule::slide_locator_fan => SlideLocator::FanShape(location),
        _ => SlideLocator::Invalid,
    }
}

/// Each locator rule reads as the shape of the same name, ending where the part ends; no
/// other rule names a one-location shape.
pub proof fn law_locator_shapes(rule: Rule, l: Location)
    ensures
        locator_of(Rule::slide_locator_straight, l) == SlideLocator::Straight(l),
        locator_of(Rule::slide_locator_clockwise_arc, l) == SlideLocator::ClockwiseArc(l),
        locator_of(Rule::slide_locator_anti_clockwise_arc, l) == SlideLocator::AntiClockwiseArc(
            l,
        ),
        locator_of(Rule::slide_locator_short_arc, l) == SlideLocator::ShortArc(l),
        locator_of(Rule::slide_locator_v, l) == SlideLocator::VShape(l),
        locator_of(Rule::slide_locator_thunderbolt_s, l) == SlideLocator::ThunderboltS(l),
        locator_of(Rule::slide_locator_thunderbolt_z, l) == SlideLocator::ThunderboltZ(l),
        locator_of(Rule::slide_locator_p, l) == SlideLocator::PShape(l),
        locator_of(Rule::slide_locator_q, l) == SlideLocator::QShape(l),
        locator_of(Rule::slide_locator_grand_p, l) == SlideLocator::GrandPShape(l),
        locator_of(Rule::slide_locator_grand_q, l) == SlideLocator::GrandQShape(l),
        locator_of(Rule::slide_locator_fan, l) == SlideLocator::FanShape(l),
        is_locator_rule(rule) ==> end_location(locator_of(rule, l)) == l,
        is_locator_rule(rule) <==> !(locator_of(rule, l) is Invalid),
{
}

/// Whether `b` is `d` with exactly the flag `f` added: `f` is held, every other flag is held
/// exactly as in `d`, and no other bit changes.
pub open spec fn adds_exactly(d: u16, b: u16, f: DecorationFlag) -> bool {
    &&& b == d | flag_bit(f)
    &&& has_flag(b, f)
    &&& forall|g: DecorationFlag| g != f ==> has_flag(b, g) == has_flag(d, g)
}

proof fn lemma_adds_exactly(d: u16, f: DecorationFlag)
    ensures
        adds_exactly(d, with_flag(d, f), f),
{
    assert forall|g: DecorationFlag| g != f implies has_flag(with_flag(d, f), g) == has_flag(
        d,
        g,
    ) by {
        law_with_flag(d, f, g);
    }
    law_with_flag(d, f, f);
}

/// Each decoration rule adds the flag of the same name and no other (a spinning star adds
/// `ForceStar` and `Spinning`); a rule that is not a decoration adds nothing.
pub proof fn law_decoration_rules(rule: Rule, d: u16)
    ensures
        decoration_rule_bits(Rule::decoration_break, d) matches Some(b) && adds_exactly(
            d,
            b,
            DecorationFlag::Break,
        ),
        decoration_rule_bits(Rule::decoration_ex, d) matches Some(b) && adds_exactly(
            d,
            b,
            DecorationFlag::Ex,
        ),
        decoration_rule_bits(Rule::decoration_firework, d) matches Some(b) && adds_exactly(
            d,
            b,
            DecorationFlag::Fireworks,
        ),
        decoration_rule_bits(Rule::decoration_fade_out, d) matches Some(b) && adds_exactly(
            d,
            b,
            DecorationFlag::FadeOut,
        ),
        decoration_rule_bits(Rule::decoration_sudden_in, d) matches Some(b) && adds_exactly(
            d,
            b,
            DecorationFlag::SuddenIn,
        ),
        decoration_rule_bits(Rule::decoration_star, d) matches Some(b) && adds_exactly(
            d,
            b,
            DecorationFlag::ForceStar,
        ),
        decoration_rule_bits(Rule::decoration_force_normal, d) matches Some(b) && adds_exactly(
            d,
            b,
            DecorationFlag::ForceNormal,
        ),
        decoration_rule_bits(Rule::decoration_spinning_star, d) matches Some(b) && adds_exactly(
            d | flag_bit(DecorationFlag::ForceStar),
            b,
            DecorationFlag::Spinning,
        ) && adds_exactly(d, d | flag_bit(DecorationFlag::ForceStar), DecorationFlag::ForceStar),
        !(rule == Rule::decoration_break || rule == Rule::decoration_ex || rule
            == Rule::decoration_firework || rule == Rule::decoration_fade_out || rule
            == Rule::decoration_sudden_in || rule == Rule::decoration_star || rule
            == Rule::decoration_force_normal || rule == Rule::decoration_spinning_star)
            ==> decoration_rule_bits(rule, d) is None,
{
    lemma_adds_exactly(d, DecorationFlag::Break);
    lemma_adds_exactly(d, DecorationFlag::Ex);
    lemma_adds_exactly(d, DecorationFlag::Fireworks);
    lemma_adds_exactly(d, DecorationFlag::FadeOut);
    lemma_adds_exactly(d, DecorationFlag::SuddenIn);
    lemma_adds_exactly(d, DecorationFlag::ForceStar);
    lemma_adds_exactly(d, DecorationFlag::ForceNormal);
    lemma_adds_exactly(with_flag(d, DecorationFlag::ForceStar), DecorationFlag::Spinning);
}

/// Whether a slide location token can be read by [`read_slide_location`]: its first inner
/// token is either a normal locator, holding a one-location shape, followed by a location
/// token; or a grand-V locator holding the grand-V rule and two location tokens.
pub open spec fn slide_location_ok(t: Token) -> bool {
    &&& t.children@.len() >= 1
    &&& {
        let shell = t.children@[0];
        if shell.rule == Rule::slide_normal_locator {
            &&& shell.children@.len() >= 1
            &&& is_locator_rule(shell.children@[0].rule)
            &&& t.children@.len() >= 2
            &&& location_token_ok(t.children@[1])
        } else if shell.rule == Rule::slide_grand_v_locator {
            &&& shell.children@.len() >= 3
            &&& shell.children@[0].rule == Rule::slide_locator_grand_v
            &&& location_token_ok(shell.children@[1])
            &&& location_token_ok(shell.children@[2])
        } else {
            false
        }
    }
}

/// What [`read_slide_location`] reads from a slide location token.
pub open spec fn slide_location_of(t: Token) -> SlideLocator {
    let shell = t.children@[0];
    if shell.rule == Rule::slide_normal_locator {
        locator_of(shell.children@[0].rule, location_of_token(t.children@[1]))
    } else {
        SlideLocator::GrandVShape(
            location_of_token(shell.children@[1]),
            location_of_token(shell.children@[2]),
        )
    }
}

/// Reads the shape and end of a slide part.
pub fn read_slide_location(pair: &Token) -> (r: SlideLocator)
    requires
        slide_location_ok(*pair),
    ensures
        r == slide_location_of(*pair),
{
    let shell = &pair.children[0];
    if shell.rule == Rule::slide_normal_locator {
        let locator_pair = &shell.children[0];
        let location_pair = &pair.children[1];
        read_slide_locator(locator_pair, read_location(location_pair))
    } else {
        let location1 = read_location(&shell.children[1]);
        let location2 = read_location(&shell.children[2]);
        SlideLocator::GrandVShape(location1, location2)
    }
}

/// The duration token of a token, if it has one, as a plain value.
pub open spec fn token_opt(o: Option<&Token>) -> Option<Token> {
    match o {
        Some(t) => Some(*t),
        None => None,
    }
}

// ---------------------------------------------------------------------------
// Hold notes
// ---------------------------------------------------------------------------

/// A hold note as read: its location and decorations, and the token of its duration, if
/// one was written.
#[derive(Debug)]
pub struct HoldNoteRaw<'a> {
    pub common: NoteCommon,
    pub duration: Option<&'a Token>,
}

/// Whether a hold note token can be read by [`read_hold_note`]: a first inner token naming
/// the location, then locations, decorations, hold marks and durations.
pub open spec fn hold_token_ok(t: Token) -> bool {
    &&& t.children@.len() >= 1
    &&& location_token_ok(t.children@[0])
    &&& forall|i: int|
        1 <= i < t.children@.len() ==> {
            let c = #[trigger] t.children@[i];
            ||| is_common_rule(c.rule) && (c.rule == Rule::location ==> location_token_ok(c))
            ||| c.rule == Rule::decoration_hold
            ||| c.rule == Rule::duration_hold
        }
}

/// The last duration token among the first `k` inner tokens of a hold note.
pub open spec fn last_of_rule(cs: Seq<Token>, k: int, rule: Rule) -> Option<Token>
    decreases k,
{
    if k <= 1 {
        None
    } else if cs[k - 1].rule == rule {
        Some(cs[k - 1])
    } else {
        last_of_rule(cs, k - 1, rule)
    }
}

/// Reads a hold note: its location and decorations as [`read_common`] reads them (hold
/// marks add nothing), and its last duration token.
pub fn read_hold_note<'a>(pair: &'a Token) -> (r: HoldNoteRaw<'a>)
    requires
        hold_token_ok(*pair),
    ensures
        common_view(r.common) == common_of_token(*pair),
        token_opt(r.duration) == last_of_rule(
            pair.children@,
            pair.children@.len() as int,
            Rule::duration_hold,
        ),
{
    let cs = &pair.children;
    let mut common = NoteCommon {
        location: read_location(&cs[0]),
        decoration: NoteDecoration::none(),
    };
    let mut duration: Option<&'a Token> = None;
    let mut i: usize = 1;
    while i < cs.len()
        invariant
            hold_token_ok(*pair),
            cs@ == pair.children@,
            1 <= i <= cs@.len(),
            common_view(common) == common_fold(cs@, i as int),
            token_opt(duration) == last_of_rule(cs@, i as int, Rule::duration_hold),
        decreases cs@.len() - i,
    {
        let it = &cs[i];
        proof {
            assert(decoration_rule_bits(it.rule, 0) is Some ==> decoration_rule_bits(
                it.rule,
                common_fold(cs@, i as int).1,
            ) is Some);
            assert(decoration_rule_bits(it.rule, 0) is None ==> decoration_rule_bits(
                it.rule,
                common_fold(cs@, i as int).1,
            ) is None);
        }
        if !read_common_single(it, &mut common) {
            if it.rule == Rule::duration_hold {
                duration = Some(it);
            }
        }
        i = i + 1;
    }
    HoldNoteRaw { common, duration }
}

// ---------------------------------------------------------------------------
// Slide parts and branches
// ---------------------------------------------------------------------------

/// Whether `rule` is one of the durations a slide part can carry.
pub open spec fn is_slide_duration_rule(rule: Rule) -> bool {
    rule == Rule::duration_slide || rule == Rule::duration_slide_with_delay
}

/// Whether a slide part token can be read by [`read_slide_part`]: a slide location, then
/// decorations and durations.
pub open spec fn slide_part_token_ok(t: Token) -> bool {
    &&& t.children@.len() >= 1
    &&& slide_location_ok(t.children@[0])
    &&& forall|i: int|
        1 <= i < t.children@.len() ==> decoration_rule_bits(#[trigger] t.children@[i].rule, 0)
            is Some || is_slide_duration_rule(t.children@[i].rule)
}

/// The decoration bits after the decorations among the first `k` inner tokens, from the
/// second one on.
pub open spec fn decorations_fold(cs: Seq<Token>, k: int) -> u16
    decreases k,
{
    if k <= 1 {
        0
    } else {
        let d = decorations_fold(cs, k - 1);
        match decoration_rule_bits(cs[k - 1].rule, d) {
            Some(b) => b,
            None => d,
        }
    }
}

/// The last slide duration token among the first `k` inner tokens, from the second on.
pub open spec fn last_slide_duration(cs: Seq<Token>, k: int) -> Option<Token>
    decreases k,
{
    if k <= 1 {
        None
    } else if is_slide_duration_rule(cs[k - 1].rule) {
        Some(cs[k - 1])
    } else {
        last_slide_duration(cs, k - 1)
    }
}

/// A read slide part as plain values, with its duration token.
pub type PartTokenView = ((SlideLocator, u16), Option<Token>);

/// What [`read_slide_part`] reads: the shape, the decorations (a fan also gets the wifi
/// flag) and the last duration token.
pub open spec fn slide_part_of(t: Token) -> PartTokenView {
    let cs = t.children@;
    let loc = slide_location_of(cs[0]);
    let d = decorations_fold(cs, cs.len() as int);
    (
        (
            loc,
            if loc is FanShape {
                with_flag(d, DecorationFlag::WifiSlide)
            } else {
                d
            },
        ),
        last_slide_duration(cs, cs.len() as int),
    )
}

/// A read slide part with its duration token, as plain values.
pub open spec fn part_token_view(p: (SlidePartRaw, Option<&Token>)) -> PartTokenView {
    ((p.0.location, p.0.decoration@), token_opt(p.1))
}

/// Reads one slide part: its shape, decorations and duration token.
pub fn read_slide_part<'a>(pair: &'a Token) -> (r: (SlidePartRaw, Option<&'a Token>))
    requires
        slide_part_token_ok(*pair),
    ensures
        part_token_view(r) == slide_part_of(*pair),
{
    let cs = &pair.children;
    let location = read_slide_location(&cs[0]);
    let mut decoration = NoteDecoration::none();
    let mut time: Option<&'a Token> = None;
    let mut i: usize = 1;
    while i < cs.len()
        invariant
            slide_part_token_ok(*pair),
            cs@ == pair.children@,
            1 <= i <= cs@.len(),
            decoration@ == decorations_fold(cs@, i as int),
            token_opt(time) == last_slide_duration(cs@, i as int),
        decreases cs@.len() - i,
    {
        let it = &cs[i];
        proof {
            assert(decoration_rule_bits(it.rule, 0) is Some ==> decoration_rule_bits(
                it.rule,
                decoration@,
            ) is Some);
            assert(decoration_rule_bits(it.rule, 0) is None ==> decoration_rule_bits(
                it.rule,
                decoration@,
            ) is None);
        }
        if !read_common_decoration(it, &mut decoration) {
            time = Some(it);
        }
        i = i + 1;
    }
    if let SlideLocator::FanShape(_) = location {
        decoration.insert(DecorationFlag::WifiSlide);
    }
    (SlidePartRaw { location, decoration }, time)
}

/// The parts read from the first `k` inner tokens of a slide branch: a part token adds a
/// part; a duration with delay replaces the time of the part before it.
pub open spec fn branch_parts(cs: Seq<Token>, k: int) -> Seq<PartTokenView>
    decreases k,
{
    if k <= 0 {
        Seq::empty()
    } else {
        let ps = branch_parts(cs, k - 1);
        let c = cs[k - 1];
        if c.rule == Rule::slide_part || c.rule == Rule::slide_part_with_time {
            ps.push(slide_part_of(c))
        } else if c.rule == Rule::duration_slide_with_delay && ps.len() > 0 {
            ps.update(ps.len() - 1, (ps.last().0, Some(c)))
        } else {
            ps
        }
    }
}

/// Whether a slide branch token can be read by [`read_slide_branch_raw`]: slide parts, and
/// durations with delay that each follow some part.
pub open spec fn branch_token_ok(t: Token) -> bool {
    forall|i: int|
        0 <= i < t.children@.len() ==> {
            let c = #[trigger] t.children@[i];
            ||| (c.rule == Rule::slide_part || c.rule == Rule::slide_part_with_time)
                && slide_part_token_ok(c)
            ||| c.rule == Rule::duration_slide_with_delay && branch_parts(t.children@, i).len() > 0
        }
}

/// A read branch with duration tokens, as plain values.
pub open spec fn branch_token_view(b: SlideBranchRaw<Option<&Token>>) -> (Location, Seq<
    PartTokenView,
>) {
    (b.start_location, b.slide_parts@.map_values(|p: (SlidePartRaw, Option<&Token>)| part_token_view(p)))
}

/// Reads the parts of one slide branch that starts at `start_location`.
pub fn read_slide_branch_raw<'a>(pair: &'a Token, start_location: Location) -> (r: SlideBranchRaw<
    Option<&'a Token>,
>)
    requires
        branch_token_ok(*pair),
    ensures
        branch_token_view(r) == (start_location, branch_parts(
            pair.children@,
            pair.children@.len() as int,
        )),
{
    let cs = &pair.children;
    let mut parts: Vec<(SlidePartRaw, Option<&'a Token>)> = Vec::new();
    let mut i: usize = 0;
    while i < cs.len()
        invariant
            branch_token_ok(*pair),
            cs@ == pair.children@,
            i <= cs@.len(),
            parts@.map_values(|p: (SlidePartRaw, Option<&Token>)| part_token_view(p))
                =~= branch_parts(cs@, i as int),
        decreases cs@.len() - i,
    {
        let it = &cs[i];
        let ghost before = parts@;
        proof {
            assert(cs@[i as int] == *it);
        }
        if it.rule == Rule::slide_part || it.rule == Rule::slide_part_with_time {
            let part = read_slide_part(it);
            parts.push(part);
            proof {
                assert(parts@.map_values(|p: (SlidePartRaw, Option<&Token>)| part_token_view(p))
                    =~= before.map_values(|p: (SlidePartRaw, Option<&Token>)| part_token_view(p)).push(
                    part_token_view(part),
                ));
            }
        } else {
            let last = parts.pop();
            match last {
                Some(p) => {
                    parts.push((p.0, Some(it)));
                    proof {
                        let bv = before.map_values(
                            |p: (SlidePartRaw, Option<&Token>)| part_token_view(p),
                        );
                        assert(parts@ == before.update(before.len() - 1, (p.0, Some(it))));
                        assert(parts@.map_values(
                            |p: (SlidePartRaw, Option<&Token>)| part_token_view(p),
                        ) =~= bv.update(bv.len() - 1, (bv.last().0, Some(*it))));
                    }
                },
                None => {
                    proof {
                        assert(false);
                    }
                },
            }
        }
        i = i + 1;
    }
    SlideBranchRaw { start_location, slide_parts: parts }
}

// ---------------------------------------------------------------------------
// Slide notes
// ---------------------------------------------------------------------------

/// A read branch with the timing of each part changed by `f`.
pub open spec fn map_branch_time<T, U>(b: RawBranchView<T>, f: spec_fn(T) -> U) -> RawBranchView<U> {
    (b.0, b.1.map_values(|p: RawPartView<T>| (p.0, f(p.1))))
}

/// Read branches with the timing of each part changed by `f`.
pub open spec fn map_branches_time<T, U>(bs: Seq<RawBranchView<T>>, f: spec_fn(T) -> U) -> Seq<
    RawBranchView<U>,
> {
    bs.map_values(|b: RawBranchView<T>| map_branch_time(b, f))
}

/// A read branch with `Each` and `TailEach` added to every part.
pub open spec fn branch_each_marked<T>(b: RawBranchView<T>) -> RawBranchView<T> {
    (
        b.0,
        b.1.map_values(
            |p: RawPartView<T>|
                ((p.0.0, with_flags(p.0.1, DecorationFlag::Each, DecorationFlag::TailEach)), p.1),
        ),
    )
}

/// The branches of a slide after [`process_slide_branch_each`]: marked when there are more
/// than one.
pub open spec fn branches_each_marked<T>(bs: Seq<RawBranchView<T>>) -> Seq<RawBranchView<T>> {
    if bs.len() > 1 {
        bs.map_values(|b: RawBranchView<T>| branch_each_marked(b))
    } else {
        bs
    }
}

proof fn lemma_fan_expansion_map<T, U>(b: RawBranchView<T>, f: spec_fn(T) -> U)
    ensures
        fan_expansion(map_branch_time(b, f)) =~= map_branches_time(fan_expansion(b), f),
{
    let mb = map_branch_time(b, f);
    assert(starts_with_fan(mb) == starts_with_fan(b));
    if starts_with_fan(b) {
        assert(mb.1[0] == (b.1[0].0, f(b.1[0].1)));
        assert(fan_side(mb, Clockwise::Cw).1 =~= map_branch_time(fan_side(b, Clockwise::Cw), f).1);
        assert(fan_side(mb, Clockwise::Ccw).1 =~= map_branch_time(
            fan_side(b, Clockwise::Ccw),
            f,
        ).1);
    }
}

proof fn lemma_fan_expansions_map<T, U>(bs: Seq<RawBranchView<T>>, f: spec_fn(T) -> U)
    ensures
        fan_expansions(map_branches_time(bs, f)) =~= map_branches_time(fan_expansions(bs), f),
    decreases bs.len(),
{
    if bs.len() > 0 {
        let init = bs.drop_last();
        lemma_fan_expansions_map(init, f);
        assert(map_branches_time(bs, f).drop_last() =~= map_branches_time(init, f));
        lemma_fan_expansion_map(bs.last(), f);
        assert(map_branches_time(fan_expansions(init) + fan_expansion(bs.last()), f)
            =~= map_branches_time(fan_expansions(init), f) + map_branches_time(
            fan_expansion(bs.last()),
            f,
        ));
    }
}

/// What a slide note token reads as before its branches are processed: its location and
/// decorations, and its branches, each starting at the location in force when it is read.
pub open spec fn slide_note_fold(cs: Seq<Token>, k: int) -> (
    (Location, u16),
    Seq<RawBranchView<Option<Token>>>,
)
    decreases k,
{
    if k <= 1 {
        ((location_of_token(cs[0]), 0), Seq::empty())
    } else {
        let (c, bs) = slide_note_fold(cs, k - 1);
        let t = cs[k - 1];
        match common_single(t, c) {
            Some(n) => (n, bs),
            None => if t.rule == Rule::slide_branch {
                (c, bs.push((c.0, branch_parts(t.children@, t.children@.len() as int))))
            } else {
                (c, bs)
            },
        }
    }
}

/// Whether a slide note token can be read by [`read_slide_note`]: a location, then
/// locations, decorations, branches and joiners.
pub open spec fn slide_token_ok(t: Token) -> bool {
    &&& t.children@.len() >= 1
    &&& location_token_ok(t.children@[0])
    &&& forall|i: int|
        1 <= i < t.children@.len() ==> {
            let c = #[trigger] t.children@[i];
            ||| is_common_rule(c.rule) && (c.rule == Rule::location ==> location_token_ok(c))
            ||| c.rule == Rule::slide_branch && branch_token_ok(c)
            ||| c.rule == Rule::slide_joiner
        }
}

/// The branches of a slide note token after reading: marked `each` when there are several,
/// then with fans split.
pub open spec fn slide_branches_of(t: Token) -> Seq<RawBranchView<Option<Token>>> {
    fan_expansions(branches_each_marked(slide_note_fold(t.children@, t.children@.len() as int).1))
}

/// The location and decorations of a slide note token after reading: a slide of more than
/// one branch is a double star.
pub open spec fn slide_common_of(t: Token) -> (Location, u16) {
    let c = slide_note_fold(t.children@, t.children@.len() as int).0;
    if slide_branches_of(t).len() > 1 {
        (c.0, with_flag(c.1, DecorationFlag::DoubleStar))
    } else {
        c
    }
}

/// A slide note as read, before its paths are drawn: its location and decorations, and its
/// branches with the duration token of each part.
#[derive(Debug)]
pub struct SlideNoteRaw<'a> {
    pub common: NoteCommon,
    pub branches: Vec<SlideBranchRaw<Option<&'a Token>>>,
}

/// The read branches of a slide as plain values.
pub open spec fn branches_token_view(bs: Seq<SlideBranchRaw<Option<&Token>>>) -> Seq<
    RawBranchView<Option<Token>>,
> {
    bs.map_values(|b: SlideBranchRaw<Option<&Token>>| branch_token_view(b))
}

proof fn lemma_token_view_is_map<'a>(bs: Seq<SlideBranchRaw<Option<&'a Token>>>)
    ensures
        branches_token_view(bs) =~= map_branches_time(
            raw_branches_view(bs),
            |o: Option<&'a Token>| token_opt(o),
        ),
{
    assert forall|i: int| 0 <= i < bs.len() implies branches_token_view(bs)[i]
        =~= map_branches_time(raw_branches_view(bs), |o: Option<&'a Token>| token_opt(o))[i] by {
        assert(branches_token_view(bs)[i].1 =~= map_branches_time(
            raw_branches_view(bs),
            |o: Option<&'a Token>| token_opt(o),
        )[i].1);
    }
}

/// A location read from a token names a place that can be moved one step both ways.
proof fn lemma_read_location_rotates(t: Token)
    requires
        location_token_ok(t),
    ensures
        rotate_defined(location_of_token(t), 1, Clockwise::Cw),
        rotate_defined(location_of_token(t), 1, Clockwise::Ccw),
        location_of_token(t).index <= 9,
{
}

/// Reads a slide note: its location and decorations, its branches, each marked `each` when
/// there are several, with fans split into their three branches, and the double-star mark
/// when more than one branch results.
pub fn read_slide_note<'a>(pair: &'a Token) -> (r: SlideNoteRaw<'a>)
    requires
        slide_token_ok(*pair),
    ensures
        common_view(r.common) == slide_common_of(*pair),
        branches_token_view(r.branches@) == slide_branches_of(*pair),
{
    let cs = &pair.children;
    let mut common = NoteCommon {
        location: read_location(&cs[0]),
        decoration: NoteDecoration::none(),
    };
    let mut raw: Vec<SlideBranchRaw<Option<&'a Token>>> = Vec::new();
    let mut i: usize = 1;
    while i < cs.len()
        invariant
            slide_token_ok(*pair),
            cs@ == pair.children@,
            1 <= i <= cs@.len(),
            (common_view(common), branches_token_view(raw@)) == slide_note_fold(cs@, i as int),
            forall|m: int|
                0 <= m < raw@.len() ==> forall|q: int|
                    0 <= q < (#[trigger] raw@[m]).slide_parts@.len() ==> slide_part_fan_ok(
                        raw@[m].slide_parts@[q].0.location,
                    ),
        decreases cs@.len() - i,
    {
        let it = &cs[i];
        let ghost before = raw@;
        let ghost c0 = common_view(common);
        proof {
            assert(cs@[i as int] == *it);
            assert(decoration_rule_bits(it.rule, 0) is Some ==> decoration_rule_bits(
                it.rule,
                c0.1,
            ) is Some);
            assert(decoration_rule_bits(it.rule, 0) is None ==> decoration_rule_bits(
                it.rule,
                c0.1,
            ) is None);
        }
        if !read_common_single(it, &mut common) {
            if it.rule == Rule::slide_branch {
                let branch = read_slide_branch_raw(it, common.location);
                proof {
                    lemma_branch_parts_fan_ok(it.children@, it.children@.len() as int);
                    assert forall|q: int| 0 <= q < branch.slide_parts@.len() implies slide_part_fan_ok(
                        branch.slide_parts@[q].0.location,
                    ) by {
                        assert(branch_token_view(branch).1[q] == part_token_view(
                            branch.slide_parts@[q],
                        ));
                        assert(branch_parts(it.children@, it.children@.len() as int)[q].0.0
                            == branch.slide_parts@[q].0.location);
                    }
                }
                raw.push(branch);
                proof {
                    assert(branches_token_view(raw@) =~= branches_token_view(before).push(
                        branch_token_view(branch),
                    ));
                }
            }
        }
        i = i + 1;
    }
    let ghost read = raw@;
    process_slide_branch_each(raw.as_mut_slice());
    proof {
        let mb = raw_branches_view(raw@);
        let ob = raw_branches_view(read);
        assert(mb =~= branches_each_marked(ob)) by {
            if read.len() > 1 {
                assert forall|m: int| 0 <= m < mb.len() implies mb[m] =~= branch_each_marked(
                    ob[m],
                ) by {
                    assert(raw_branch_marked(
                        raw_branch_view(read[m]),
                        raw_branch_view(raw@[m]),
                        DecorationFlag::Each,
                        DecorationFlag::TailEach,
                    ));
                    assert(mb[m].1 =~= branch_each_marked(ob[m]).1);
                }
            }
        }
        assert forall|m: int| 0 <= m < raw@.len() implies fan_defined(
            #[trigger] raw_branch_view(raw@[m]),
        ) by {
            assert(mb[m] == raw_branch_view(raw@[m]));
            if starts_with_fan(mb[m]) {
                assert(raw@[m].slide_parts@[0].0.location == mb[m].1[0].0.0);
                assert(read[m].slide_parts@[0].0.location == raw@[m].slide_parts@[0].0.location)
                    by {
                    if read.len() > 1 {
                        assert(raw_branch_marked(
                            raw_branch_view(read[m]),
                            raw_branch_view(raw@[m]),
                            DecorationFlag::Each,
                            DecorationFlag::TailEach,
                        ));
                        assert(raw_branch_view(raw@[m]).1[0] == raw_part_view(raw@[m].slide_parts@[0]));
                        assert(raw_branch_view(read[m]).1[0] == raw_part_view(read[m].slide_parts@[0]));
                    }
                }
                assert(slide_part_fan_ok(read[m].slide_parts@[0].0.location));
            }
        }
        lemma_token_view_is_map(read);
        lemma_each_marked_map(ob, |o: Option<&'a Token>| token_opt(o));
    }
    let branches = process_slide_branch_wifi(raw);
    proof {
        lemma_token_view_is_map(branches@);
        lemma_fan_expansions_map(
            branches_each_marked(raw_branches_view(read)),
            |o: Option<&'a Token>| token_opt(o),
        );
    }
    if branches.len() > 1 {
        common.decoration.insert(DecorationFlag::DoubleStar);
    }
    proof {
        assert(branches_token_view(branches@).len() == branches@.len());
    }
    SlideNoteRaw { common, branches }
}

proof fn lemma_each_marked_map<T, U>(bs: Seq<RawBranchView<T>>, f: spec_fn(T) -> U)
    ensures
        branches_each_marked(map_branches_time(bs, f)) =~= map_branches_time(
            branches_each_marked(bs),
            f,
        ),
{
    if bs.len() > 1 {
        assert forall|m: int| 0 <= m < bs.len() implies branches_each_marked(
            map_branches_time(bs, f),
        )[m] =~= map_branches_time(branches_each_marked(bs), f)[m] by {
            assert(branches_each_marked(map_branches_time(bs, f))[m].1 =~= map_branches_time(
                branches_each_marked(bs),
                f,
            )[m].1);
        }
    }
}

/// Whether a part of this shape, if it is a fan, ends where a move of one step both ways is
/// defined.
pub open spec fn slide_part_fan_ok(l: SlideLocator) -> bool {
    l is FanShape ==> {
        let e = l->FanShape_0;
        rotate_defined(e, 1, Clockwise::Cw) && rotate_defined(e, 1, Clockwise::Ccw)
    }
}

proof fn lemma_branch_parts_fan_ok(cs: Seq<Token>, k: int)
    requires
        forall|i: int|
            0 <= i < cs.len() ==> {
                let c = #[trigger] cs[i];
                ||| (c.rule == Rule::slide_part || c.rule == Rule::slide_part_with_time)
                    && slide_part_token_ok(c)
                ||| c.rule == Rule::duration_slide_with_delay && branch_parts(cs, i).len() > 0
            },
        k <= cs.len(),
    ensures
        forall|q: int| 0 <= q < branch_parts(cs, k).len() ==> slide_part_fan_ok(
            #[trigger] branch_parts(cs, k)[q].0.0,
        ),
    decreases k,
{
    if k > 0 {
        lemma_branch_parts_fan_ok(cs, k - 1);
        let c = cs[k - 1];
        if c.rule == Rule::slide_part || c.rule == Rule::slide_part_with_time {
            let sl = c.children@[0];
            let shell = sl.children@[0];
            if shell.rule == Rule::slide_normal_locator {
                lemma_read_location_rotates(sl.children@[1]);
            }
        }
    }
}

// ---------------------------------------------------------------------------
// Note collections
// ---------------------------------------------------------------------------

/// A note as read, before its durations are measured and its slide paths drawn.
#[derive(Debug)]
pub enum NoteRaw<'a> {
    Tap(NoteTap),
    Touch(NoteTouch),
    Hold(HoldNoteRaw<'a>),
    Slide(SlideNoteRaw<'a>),
}

/// Whether `rule` is a note.
pub open spec fn is_note_rule(rule: Rule) -> bool {
    ||| rule == Rule::tap_note
    ||| rule == Rule::touch_note
    ||| rule == Rule::hold_note
    ||| rule == Rule::touch_hold_note
    ||| rule == Rule::slide_note
}

/// Whether a token inside a note collection can be read: a well-formed note or a divider.
pub open spec fn collection_item_ok(c: Token) -> bool {
    ||| (c.rule == Rule::tap_note || c.rule == Rule::touch_note) && common_token_ok(c)
    ||| (c.rule == Rule::hold_note || c.rule == Rule::touch_hold_note) && hold_token_ok(c)
    ||| c.rule == Rule::slide_note && slide_token_ok(c)
    ||| c.rule == Rule::each_divider_fake
    ||| c.rule == Rule::each_divider_normal
}

/// The note tokens and the dividers (normal: `true`) among the first `k` inner tokens.
pub open spec fn collection_fold(cs: Seq<Token>, k: int) -> (Seq<Token>, Seq<bool>)
    decreases k,
{
    if k <= 0 {
        (Seq::empty(), Seq::empty())
    } else {
        let (ns, es) = collection_fold(cs, k - 1);
        let c = cs[k - 1];
        if is_note_rule(c.rule) {
            (ns.push(c), es)
        } else if c.rule == Rule::each_divider_normal {
            (ns, es.push(true))
        } else if c.rule == Rule::each_divider_fake {
            (ns, es.push(false))
        } else {
            (ns, es)
        }
    }
}

/// Whether a read note is what its token reads as.
pub open spec fn note_raw_of(n: NoteRaw, t: Token) -> bool {
    match n {
        NoteRaw::Tap(x) => t.rule == Rule::tap_note && common_view(x.common) == common_of_token(t),
        NoteRaw::Touch(x) => t.rule == Rule::touch_note && common_view(x.common)
            == common_of_token(t),
        NoteRaw::Hold(x) => (t.rule == Rule::hold_note || t.rule == Rule::touch_hold_note)
            && common_view(x.common) == common_of_token(t) && token_opt(x.duration)
            == last_of_rule(t.children@, t.children@.len() as int, Rule::duration_hold),
        NoteRaw::Slide(x) => t.rule == Rule::slide_note && common_view(x.common)
            == slide_common_of(t) && branches_token_view(x.branches@) == slide_branches_of(t),
    }
}

/// Reads the notes of a collection in order, and the dividers between them in order
/// (`true` for a normal divider, `false` for a fake one).
pub fn read_note_collection<'a>(pair: &'a Token) -> (r: (Vec<NoteRaw<'a>>, Vec<bool>))
    requires
        forall|i: int| 0 <= i < pair.children@.len() ==> collection_item_ok(#[trigger] pair.children@[i]),
    ensures
        ({
            let (ns, es) = collection_fold(pair.children@, pair.children@.len() as int);
            &&& r.0@.len() == ns.len()
            &&& forall|j: int| 0 <= j < ns.len() ==> note_raw_of(#[trigger] r.0@[j], ns[j])
            &&& r.1@ == es
        }),
{
    let cs = &pair.children;
    let mut notes: Vec<NoteRaw<'a>> = Vec::new();
    let mut each_types: Vec<bool> = Vec::new();
    let mut i: usize = 0;
    while i < cs.len()
        invariant
            cs@ == pair.children@,
            forall|m: int| 0 <= m < cs@.len() ==> collection_item_ok(#[trigger] cs@[m]),
            i <= cs@.len(),
            notes@.len() == collection_fold(cs@, i as int).0.len(),
            forall|j: int|
                0 <= j < notes@.len() ==> note_raw_of(
                    #[trigger] notes@[j],
                    collection_fold(cs@, i as int).0[j],
                ),
            each_types@ == collection_fold(cs@, i as int).1,
        decreases cs@.len() - i,
    {
        let it = &cs[i];
        proof {
            assert(cs@[i as int] == *it);
            assert(collection_item_ok(cs@[i as int]));
        }
        let ghost before = notes@;
        let ghost ns = collection_fold(cs@, i as int).0;
        if it.rule == Rule::tap_note {
            let note = NoteRaw::Tap(NoteTap { common: read_common(it) });
            notes.push(note);
        } else if it.rule == Rule::touch_note {
            let note = NoteRaw::Touch(NoteTouch { common: read_common(it) });
            notes.push(note);
        } else if it.rule == Rule::hold_note || it.rule == Rule::touch_hold_note {
            notes.push(NoteRaw::Hold(read_hold_note(it)));
        } else if it.rule == Rule::slide_note {
            notes.push(NoteRaw::Slide(read_slide_note(it)));
        } else if it.rule == Rule::each_divider_fake {
            each_types.push(false);
        } else {
            each_types.push(true);
        }
        proof {
            let ns1 = collection_fold(cs@, i + 1).0;
            assert forall|j: int| 0 <= j < notes@.len() implies note_raw_of(
                #[trigger] notes@[j],
                ns1[j],
            ) by {
                if j < before.len() {
                    assert(notes@[j] == before[j]);
                    assert(ns1[j] == ns[j]);
                }
            }
        }
        i = i + 1;
    }
    (notes, each_types)
}

// ---------------------------------------------------------------------------
// Fan slides
// ---------------------------------------------------------------------------

/// Whether a read branch begins with a fan-shaped part.
pub open spec fn starts_with_fan<T>(b: RawBranchView<T>) -> bool {
    b.1.len() > 0 && b.1[0].0.0 is FanShape
}

/// The one-part branch beside a fan: a straight line from the same start to the fan's end
/// moved one place in the given direction, decorated as the fan without the wifi flag,
/// with the fan's timing.
pub open spec fn fan_side<T>(b: RawBranchView<T>, clockwise: Clockwise) -> RawBranchView<T> {
    let first = b.1[0];
    (
        b.0,
        seq![
            (
                (
                    SlideLocator::Straight(rotated(first.0.0->FanShape_0, 1, clockwise)),
                    without_flag(first.0.1, DecorationFlag::WifiSlide),
                ),
                first.1,
            ),
        ],
    )
}

/// The branches a read branch becomes: a branch that begins with a fan is followed by its
/// two side branches, clockwise first; any other branch stays as it is.
pub open spec fn fan_expansion<T>(b: RawBranchView<T>) -> Seq<RawBranchView<T>> {
    if starts_with_fan(b) {
        seq![b, fan_side(b, Clockwise::Cw), fan_side(b, Clockwise::Ccw)]
    } else {
        seq![b]
    }
}

/// The expansions of all branches, in order.
pub open spec fn fan_expansions<T>(bs: Seq<RawBranchView<T>>) -> Seq<RawBranchView<T>>
    decreases bs.len(),
{
    if bs.len() == 0 {
        Seq::empty()
    } else {
        fan_expansions(bs.drop_last()) + fan_expansion(bs.last())
    }
}

/// Whether the fan of a read branch, if it has one, can be moved one place both ways.
pub open spec fn fan_defined<T>(b: RawBranchView<T>) -> bool {
    starts_with_fan(b) ==> {
        let l = b.1[0].0.0->FanShape_0;
        rotate_defined(l, 1, Clockwise::Cw) && rotate_defined(l, 1, Clockwise::Ccw)
    }
}

fn fan_side_branch<T: Copy>(
    start_location: Location,
    first: (SlidePartRaw, T),
    fan_end: Location,
    clockwise: Clockwise,
) -> (r: SlideBranchRaw<T>)
    requires
        first.0.location == SlideLocator::FanShape(fan_end),
        rotate_defined(fan_end, 1, clockwise),
    ensures
        raw_branch_view(r) == fan_side(
            (start_location, seq![raw_part_view(first)]),
            clockwise,
        ),
{
    let mut decoration = first.0.decoration;
    decoration.remove(DecorationFlag::WifiSlide);
    let part = SlidePartRaw {
        location: SlideLocator::Straight(fan_end.rotate(1, clockwise)),
        decoration,
    };
    let mut parts: Vec<(SlidePartRaw, T)> = Vec::new();
    parts.push((part, first.1));
    let r = SlideBranchRaw { start_location, slide_parts: parts };
    proof {
        assert(raw_branch_view(r).1 =~= fan_side(
            (start_location, seq![raw_part_view(first)]),
            clockwise,
        ).1);
    }
    r
}

/// Splits every fan slide into itself and two straight slides to the places beside its end.
pub fn process_slide_branch_wifi<T: Copy>(raw: Vec<SlideBranchRaw<T>>) -> (r: Vec<
    SlideBranchRaw<T>,
>)
    requires
        forall|i: int| 0 <= i < raw@.len() ==> fan_defined(#[trigger] raw_branch_view(raw@[i])),
    ensures
        raw_branches_view(r@) == fan_expansions(raw_branches_view(raw@)),
{
    let ghost orig = raw_branches_view(raw@);
    let mut rest = raw;
    let mut out: Vec<SlideBranchRaw<T>> = Vec::new();
    let ghost mut k: int = 0;
    while rest.len() > 0
        invariant
            0 <= k <= orig.len(),
            raw_branches_view(rest@) == orig.skip(k),
            raw_branches_view(out@) == fan_expansions(orig.take(k)),
            forall|i: int| 0 <= i < orig.len() ==> fan_defined(#[trigger] orig[i]),
        decreases rest.len(),
    {
        let ghost rest_before = rest@;
        proof {
            assert(raw_branches_view(rest_before).len() == rest_before.len());
            assert(k < orig.len());
        }
        let b = rest.remove(0);
        let ghost bv = raw_branch_view(b);
        proof {
            assert(raw_branches_view(rest_before)[0] == raw_branch_view(rest_before[0]));
            assert(orig.skip(k)[0] == orig[k]);
            assert(bv == orig[k]);
            assert forall|m: int| 0 <= m < rest@.len() implies raw_branches_view(rest@)[m]
                == orig.skip(k + 1)[m] by {
                assert(rest@[m] == rest_before[m + 1]);
                assert(raw_branches_view(rest_before)[m + 1] == orig.skip(k)[m + 1]);
                assert(orig.skip(k)[m + 1] == orig[k + 1 + m]);
                assert(orig.skip(k + 1)[m] == orig[k + 1 + m]);
            }
            assert(raw_branches_view(rest@) =~= orig.skip(k + 1));
            assert(orig.take(k + 1).drop_last() =~= orig.take(k));
            assert(orig.take(k + 1).last() == orig[k]);
        }
        let mut fan_end: Option<Location> = None;
        if b.slide_parts.len() > 0 {
            if let SlideLocator::FanShape(location) = b.slide_parts[0].0.location {
                fan_end = Some(location);
            }
        }
        match fan_end {
            Some(location) => {
                let first = b.slide_parts[0];
                let start_location = b.start_location;
                proof {
                    assert(bv.1[0] == raw_part_view(first));
                    assert(starts_with_fan(bv));
                    assert(fan_defined(orig[k]));
                    assert(fan_side((start_location, seq![raw_part_view(first)]), Clockwise::Cw)
                        == fan_side(bv, Clockwise::Cw));
                    assert(fan_side((start_location, seq![raw_part_view(first)]), Clockwise::Ccw)
                        == fan_side(bv, Clockwise::Ccw));
                }
                let cw = fan_side_branch(start_location, first, location, Clockwise::Cw);
                let ccw = fan_side_branch(start_location, first, location, Clockwise::Ccw);
                let ghost before = raw_branches_view(out@);
                out.push(b);
                out.push(cw);
                out.push(ccw);
                proof {
                    assert(raw_branches_view(out@) =~= before + fan_expansion(bv));
                }
            },
            None => {
                proof {
                    assert(!starts_with_fan(bv));
                }
                let ghost before = raw_branches_view(out@);
                out.push(b);
                proof {
                    assert(raw_branches_view(out@) =~= before + fan_expansion(bv));
                }
            },
        }
        proof {
            k = k + 1;
        }
    }
    proof {
        assert(orig.take(k) =~= orig);
    }
    out
}

/// The number of read branches that begin with a fan.
pub open spec fn fan_count<T>(bs: Seq<RawBranchView<T>>) -> nat
    decreases bs.len(),
{
    if bs.len() == 0 {
        0
    } else {
        fan_count(bs.drop_last()) + if starts_with_fan(bs.last()) {
            1nat
        } else {
            0nat
        }
    }
}

/// Splitting fans adds two branches for every branch that begins with a fan, and keeps every
/// branch that does not, in order, as the first of its expansion.
pub proof fn law_fan_expansion_count<T>(bs: Seq<RawBranchView<T>>)
    ensures
        fan_expansions(bs).len() == bs.len() + 2 * fan_count(bs),
    decreases bs.len(),
{
    if bs.len() > 0 {
        law_fan_expansion_count(bs.drop_last());
    }
}

/// A branch that does not begin with a fan is left as it is; one that does is kept and
/// followed by its two sides, which end one place clockwise and one place counter-clockwise
/// of the fan's end.
pub proof fn law_fan_expansion_keeps_branch<T>(b: RawBranchView<T>)
    ensures
        fan_expansion(b)[0] == b,
        !starts_with_fan(b) ==> fan_expansion(b).len() == 1,
        starts_with_fan(b) ==> fan_expansion(b).len() == 3 && fan_expansion(b)[1].1.len() == 1
            && fan_expansion(b)[1].1[0].0.0 == SlideLocator::Straight(
            rotated(b.1[0].0.0->FanShape_0, 1, Clockwise::Cw),
        ) && fan_expansion(b)[2].1[0].0.0 == SlideLocator::Straight(
            rotated(b.1[0].0.0->FanShape_0, 1, Clockwise::Ccw),
        ),
{
}

// ---------------------------------------------------------------------------
// Spreading decorations over the parts of a slide
// ---------------------------------------------------------------------------

/// The bits `d` with the flags `f` and `g` added.
pub open spec fn with_flags(d: u16, f: DecorationFlag, g: DecorationFlag) -> u16 {
    with_flag(with_flag(d, f), g)
}

/// Whether the read parts `n` are `o` with `f` and `g` added to every part's decoration.
pub open spec fn raw_parts_marked<T>(
    o: Seq<RawPartView<T>>,
    n: Seq<RawPartView<T>>,
    f: DecorationFlag,
    g: DecorationFlag,
) -> bool {
    &&& n.len() == o.len()
    &&& forall|j: int|
        0 <= j < o.len() ==> #[trigger] n[j] == ((o[j].0.0, with_flags(o[j].0.1, f, g)), o[j].1)
}

/// Whether the read branch `n` is `o` with `f` and `g` added to every part's decoration.
pub open spec fn raw_branch_marked<T>(
    o: RawBranchView<T>,
    n: RawBranchView<T>,
    f: DecorationFlag,
    g: DecorationFlag,
) -> bool {
    &&& n.0 == o.0
    &&& raw_parts_marked(o.1, n.1, f, g)
}

fn mark_raw_parts<T>(parts: &mut Vec<(SlidePartRaw, T)>, f: DecorationFlag, g: DecorationFlag)
    ensures
        raw_parts_marked(
            old(parts)@.map_values(|p: (SlidePartRaw, T)| raw_part_view(p)),
            final(parts)@.map_values(|p: (SlidePartRaw, T)| raw_part_view(p)),
            f,
            g,
        ),
{
    let ghost o = parts@;
    let mut j: usize = 0;
    while j < parts.len()
        invariant
            j <= parts.len(),
            parts@.len() == o.len(),
            forall|m: int|
                0 <= m < parts.len() ==> (#[trigger] parts@[m]).1 == o[m].1 && parts@[m].0.location
                    == o[m].0.location,
            forall|m: int|
                0 <= m < j ==> (#[trigger] parts@[m]).0.decoration@ == with_flags(
                    o[m].0.decoration@,
                    f,
                    g,
                ),
            forall|m: int| j <= m < parts.len() ==> (#[trigger] parts@[m]) == o[m],
        decreases parts.len() - j,
    {
        parts[j].0.decoration.insert(f);
        parts[j].0.decoration.insert(g);
        j = j + 1;
    }
}

/// When a slide has more than one branch, every part of every branch is marked `Each` and
/// `TailEach`.
pub fn process_slide_branch_each<T>(branches: &mut [SlideBranchRaw<T>])
    ensures
        final(branches)@.len() == old(branches)@.len(),
        old(branches)@.len() <= 1 ==> raw_branches_view(final(branches)@) == raw_branches_view(
            old(branches)@,
        ),
        old(branches)@.len() > 1 ==> forall|i: int|
            0 <= i < old(branches)@.len() ==> raw_branch_marked(
                #[trigger] raw_branch_view(old(branches)@[i]),
                raw_branch_view(final(branches)@[i]),
                DecorationFlag::Each,
                DecorationFlag::TailEach,
            ),
{
    if branches.len() <= 1 {
        return;
    }
    let ghost o = branches@;
    let mut i: usize = 0;
    while i < branches.len()
        invariant
            i <= branches@.len(),
            branches@.len() == o.len(),
            forall|m: int|
                0 <= m < i ==> raw_branch_marked(
                    #[trigger] raw_branch_view(o[m]),
                    raw_branch_view(branches@[m]),
                    DecorationFlag::Each,
                    DecorationFlag::TailEach,
                ),
            forall|m: int| i <= m < branches@.len() ==> (#[trigger] branches@[m]) == o[m],
        decreases branches@.len() - i,
    {
        mark_raw_parts(&mut branches[i].slide_parts, DecorationFlag::Each, DecorationFlag::TailEach);
        i = i + 1;
    }
}

/// Whether the branch `n` is `o` with `f` and `g` added to every part's decoration.
pub open spec fn branch_marked<P>(
    o: SlideBranch<P>,
    n: SlideBranch<P>,
    f: DecorationFlag,
    g: DecorationFlag,
) -> bool {
    &&& n.start_location == o.start_location
    &&& n.slide_parts@.len() == o.slide_parts@.len()
    &&& forall|j: int|
        0 <= j < o.slide_parts@.len() ==> (#[trigger] n.slide_parts@[j]).body
            == o.slide_parts@[j].body && n.slide_parts@[j].decoration@ == with_flags(
            o.slide_parts@[j].decoration@,
            f,
            g,
        )
}

/// Whether the parts `n` are the parts `o` with `f` and `g` added to every decoration.
pub open spec fn parts_marked<P>(
    o: Seq<SlidePart<P>>,
    n: Seq<SlidePart<P>>,
    f: DecorationFlag,
    g: DecorationFlag,
) -> bool {
    &&& n.len() == o.len()
    &&& forall|j: int|
        0 <= j < o.len() ==> (#[trigger] n[j]).body == o[j].body && n[j].decoration@ == with_flags(
            o[j].decoration@,
            f,
            g,
        )
}

fn mark_parts<P>(parts: &mut [SlidePart<P>], f: DecorationFlag, g: DecorationFlag)
    ensures
        parts_marked(old(parts)@, final(parts)@, f, g),
{
    let ghost o = parts@;
    let mut j: usize = 0;
    while j < parts.len()
        invariant
            j <= parts@.len(),
            parts@.len() == o.len(),
            forall|m: int|
                0 <= m < j ==> (#[trigger] parts@[m]).body == o[m].body && parts@[m].decoration@
                    == with_flags(o[m].decoration@, f, g),
            forall|m: int| j <= m < parts@.len() ==> (#[trigger] parts@[m]) == o[m],
        decreases parts@.len() - j,
    {
        parts[j].decoration.insert(f);
        parts[j].decoration.insert(g);
        j = j + 1;
    }
}

/// When any part of a slide branch is a break, every part becomes a break and a tail break.
pub fn process_slide_parts_break<P>(parts: &mut [SlidePart<P>])
    ensures
        (exists|k: int|
            0 <= k < old(parts)@.len() && has_flag(
                #[trigger] old(parts)@[k].decoration@,
                DecorationFlag::Break,
            )) ==> parts_marked(
            old(parts)@,
            final(parts)@,
            DecorationFlag::Break,
            DecorationFlag::TailBreak,
        ),
        !(exists|k: int|
            0 <= k < old(parts)@.len() && has_flag(
                #[trigger] old(parts)@[k].decoration@,
                DecorationFlag::Break,
            )) ==> final(parts)@ == old(parts)@,
{
    let mut is_tail_break = false;
    let mut k: usize = 0;
    while k < parts.len()
        invariant
            k <= parts@.len(),
            is_tail_break <==> exists|m: int|
                0 <= m < k && has_flag(#[trigger] parts@[m].decoration@, DecorationFlag::Break),
        decreases parts@.len() - k,
    {
        if parts[k].decoration.contains(DecorationFlag::Break) {
            is_tail_break = true;
        }
        k = k + 1;
    }
    if !is_tail_break {
        return;
    }
    mark_parts(parts, DecorationFlag::Break, DecorationFlag::TailBreak);
}

// ---------------------------------------------------------------------------
// Notes that sound together
// ---------------------------------------------------------------------------

/// Whether the note at `i` is joined to a neighbour by a normal `each` divider: divider
/// `i` joins notes `i` and `i + 1`.
pub open spec fn each_joined(each: Seq<bool>, i: int) -> bool {
    (0 <= i < each.len() && each[i]) || (1 <= i <= each.len() && each[i - 1])
}

/// The number of slide notes.
pub open spec fn slide_count<D, P>(notes: Seq<Note<D, P>>) -> nat
    decreases notes.len(),
{
    if notes.len() == 0 {
        0
    } else {
        slide_count(notes.drop_last()) + if notes.last() is Slide {
            1nat
        } else {
            0nat
        }
    }
}

/// Whether `n` is `o` with the note's decoration set to `bits`, and, when `mark_slides`
/// holds, a slide note also marked `Each` and all its parts marked `Each` and `TailEach`.
pub open spec fn note_after<D, P>(o: Note<D, P>, n: Note<D, P>, bits: u16, mark_slides: bool) -> bool {
    &&& common_of(n).location == common_of(o).location
    &&& match (o, n) {
        (Note::Tap(_), Note::Tap(_)) => common_of(n).decoration@ == bits,
        (Note::Touch(_), Note::Touch(_)) => common_of(n).decoration@ == bits,
        (Note::Hold(x), Note::Hold(y)) => y.duration == x.duration && common_of(n).decoration@
            == bits,
        (Note::Slide(x), Note::Slide(y)) => if mark_slides {
            &&& y.common.decoration@ == with_flag(bits, DecorationFlag::Each)
            &&& y.slide_branches@.len() == x.slide_branches@.len()
            &&& forall|k: int|
                0 <= k < x.slide_branches@.len() ==> branch_marked(
                    #[trigger] x.slide_branches@[k],
                    y.slide_branches@[k],
                    DecorationFlag::Each,
                    DecorationFlag::TailEach,
                )
        } else {
            y.common.decoration@ == bits && y.slide_branches@ == x.slide_branches@
        },
        _ => false,
    }
}

proof fn lemma_slide_count_take<D, P>(notes: Seq<Note<D, P>>, k: int)
    requires
        0 <= k < notes.len(),
    ensures
        slide_count(notes.take(k + 1)) == slide_count(notes.take(k)) + if notes[k] is Slide {
            1nat
        } else {
            0nat
        },
{
    assert(notes.take(k + 1).drop_last() =~= notes.take(k));
}

fn count_slides<D, P>(notes: &[Note<D, P>]) -> (r: usize)
    ensures
        r == slide_count(notes@),
{
    let mut count: usize = 0;
    let mut i: usize = 0;
    while i < notes.len()
        invariant
            i <= notes@.len(),
            count == slide_count(notes@.take(i as int)),
            count <= i,
        decreases notes@.len() - i,
    {
        proof {
            lemma_slide_count_take(notes@, i as int);
        }
        if let Note::Slide(_) = &notes[i] {
            count = count + 1;
        }
        i = i + 1;
    }
    proof {
        assert(notes@.take(i as int) =~= notes@);
    }
    count
}

fn mark_slide_note<D, P>(note: &mut Note<D, P>)
    requires
        *old(note) is Slide,
    ensures
        note_after(*old(note), *final(note), common_of(*old(note)).decoration@, true),
{
    if let Note::Slide(s) = note {
        s.common.decoration.insert(DecorationFlag::Each);
        let ghost ob = s.slide_branches@;
        let ghost c = s.common;
        let mut k: usize = 0;
        while k < s.slide_branches.len()
            invariant
                s.common == c,
                k <= s.slide_branches@.len(),
                s.slide_branches@.len() == ob.len(),
                forall|m: int|
                    0 <= m < k ==> branch_marked(
                        #[trigger] ob[m],
                        s.slide_branches@[m],
                        DecorationFlag::Each,
                        DecorationFlag::TailEach,
                    ),
                forall|m: int| k <= m < s.slide_branches@.len() ==> (#[trigger] s.slide_branches@[m]) == ob[m],
            decreases s.slide_branches@.len() - k,
        {
            mark_parts(
                s.slide_branches[k].slide_parts.as_mut_slice(),
                DecorationFlag::Each,
                DecorationFlag::TailEach,
            );
            k = k + 1;
        }
    }
}

/// When a collection holds more than one slide, every slide is marked `Each`, and every part
/// of every branch of every slide is marked `Each` and `TailEach`.
pub fn process_slide_each<D, P>(notes: &mut [Note<D, P>])
    ensures
        final(notes)@.len() == old(notes)@.len(),
        forall|i: int|
            0 <= i < old(notes)@.len() ==> note_after(
                #[trigger] old(notes)@[i],
                final(notes)@[i],
                common_of(old(notes)@[i]).decoration@,
                slide_count(old(notes)@) > 1,
            ),
{
    let ghost o = notes@;
    let slides = count_slides(notes);
    let mut i: usize = 0;
    while i < notes.len()
        invariant
            i <= notes@.len(),
            notes@.len() == o.len(),
            slides == slide_count(o),
            forall|m: int|
                0 <= m < i ==> note_after(
                    #[trigger] o[m],
                    notes@[m],
                    common_of(o[m]).decoration@,
                    slides > 1,
                ),
            forall|m: int| i <= m < notes@.len() ==> (#[trigger] notes@[m]) == o[m],
        decreases notes@.len() - i,
    {
        if slides > 1 && notes[i].is_slide() {
            mark_slide_note(&mut notes[i]);
        } else {
            proof {
                lemma_note_after_refl(notes@[i as int], slides > 1);
            }
        }
        i = i + 1;
    }
}

proof fn lemma_note_after_refl<D, P>(n: Note<D, P>, mark_slides: bool)
    requires
        mark_slides ==> !(n is Slide),
    ensures
        note_after(n, n, common_of(n).decoration@, mark_slides),
{
}

impl<D, P> Note<D, P> {
    /// Whether this is a slide note.
    pub fn is_slide(&self) -> (r: bool)
        ensures
            r == (*self is Slide),
    {
        match self {
            Note::Slide(_) => true,
            _ => false,
        }
    }
}

/// Marks the notes joined by normal `each` dividers as `Each` (divider `i` joins notes `i`
/// and `i + 1`; a fake divider joins nothing), then marks the slides as
/// [`process_slide_each`] does.
pub fn process_each<D, P>(notes: &mut [Note<D, P>], each: &[bool])
    requires
        forall|j: int| 0 <= j < each@.len() && #[trigger] each@[j] ==> j + 1 < old(notes)@.len(),
    ensures
        final(notes)@.len() == old(notes)@.len(),
        forall|i: int|
            0 <= i < old(notes)@.len() ==> note_after(
                #[trigger] old(notes)@[i],
                final(notes)@[i],
                each_bits(common_of(old(notes)@[i]).decoration@, each@, i),
                slide_count(old(notes)@) > 1,
            ),
{
    let ghost o = notes@;
    let mut i: usize = 0;
    while i < each.len()
        invariant
            i <= each@.len(),
            notes@.len() == o.len(),
            forall|j: int| 0 <= j < each@.len() && #[trigger] each@[j] ==> j + 1 < o.len(),
            forall|m: int|
                0 <= m < o.len() ==> note_after(
                    #[trigger] o[m],
                    notes@[m],
                    each_bits(common_of(o[m]).decoration@, each@.take(i as int), m),
                    false,
                ),
        decreases each@.len() - i,
    {
        let ghost before = notes@;
        if each[i] {
            notes[i].insert_decoration(DecorationFlag::Each);
            notes[i + 1].insert_decoration(DecorationFlag::Each);
        }
        proof {
            let t0 = each@.take(i as int);
            let t1 = each@.take(i + 1);
            assert forall|m: int| 0 <= m < o.len() implies note_after(
                #[trigger] o[m],
                notes@[m],
                each_bits(common_of(o[m]).decoration@, t1, m),
                false,
            ) by {
                let b = common_of(o[m]).decoration@;
                assert(t1[i as int] == each@[i as int]);
                assert(forall|j: int| 0 <= j < i ==> t1[j] == t0[j]);
                if each@[i as int] && (m == i || m == i + 1) {
                    assert(each_joined(t1, m));
                    lemma_note_after_insert(o[m], before[m], notes@[m], each_bits(b, t0, m));
                    law_with_flag_idempotent(b, DecorationFlag::Each);
                } else {
                    assert(notes@[m] == before[m]);
                    assert(each_joined(t1, m) == each_joined(t0, m));
                }
            }
        }
        i = i + 1;
    }
    proof {
        assert(each@.take(each@.len() as int) =~= each@);
        lemma_slide_count_same(o, notes@);
    }
    let ghost mid = notes@;
    process_slide_each(notes);
    proof {
        assert forall|m: int| 0 <= m < o.len() implies note_after(
            #[trigger] o[m],
            notes@[m],
            each_bits(common_of(o[m]).decoration@, each@, m),
            slide_count(o) > 1,
        ) by {
            lemma_note_after_compose(
                o[m],
                mid[m],
                notes@[m],
                each_bits(common_of(o[m]).decoration@, each@, m),
                slide_count(o) > 1,
            );
        }
    }
}

/// The decoration bits `d` of note `i` after the `each` dividers are applied.
pub open spec fn each_bits(d: u16, each: Seq<bool>, i: int) -> u16 {
    if each_joined(each, i) {
        with_flag(d, DecorationFlag::Each)
    } else {
        d
    }
}

proof fn lemma_note_after_insert<D, P>(o: Note<D, P>, x: Note<D, P>, y: Note<D, P>, b: u16)
    requires
        note_after(o, x, b, false),
        same_note_but_decoration(x, y),
        common_of(y).decoration@ == with_flag(common_of(x).decoration@, DecorationFlag::Each),
    ensures
        note_after(o, y, with_flag(b, DecorationFlag::Each), false),
{
    match (x, y) {
        (Note::Slide(a), Note::Slide(c)) => {
            assert(a.slide_branches@ == c.slide_branches@);
        },
        _ => {},
    }
}

proof fn lemma_note_after_compose<D, P>(
    o: Note<D, P>,
    x: Note<D, P>,
    y: Note<D, P>,
    b: u16,
    mark_slides: bool,
)
    requires
        note_after(o, x, b, false),
        note_after(x, y, common_of(x).decoration@, mark_slides),
    ensures
        note_after(o, y, b, mark_slides),
{
}

proof fn lemma_slide_count_same<D, P>(a: Seq<Note<D, P>>, b: Seq<Note<D, P>>)
    requires
        a.len() == b.len(),
        forall|i: int| 0 <= i < a.len() ==> (#[trigger] a[i] is Slide) == (b[i] is Slide),
    ensures
        slide_count(a) == slide_count(b),
    decreases a.len(),
{
    if a.len() > 0 {
        let a0 = a.drop_last();
        let b0 = b.drop_last();
        assert forall|i: int| 0 <= i < a0.len() implies (#[trigger] a0[i] is Slide) == (
        b0[i] is Slide) by {
            assert(a0[i] == a[i] && b0[i] == b[i]);
        }
        lemma_slide_count_same(a0, b0);
        assert(a[a.len() - 1] is Slide == b[b.len() - 1] is Slide);
    }
}

} // verus!
