use orbtiama_core::deserialize::chart::lexer::{Rule, Token};
use orbtiama_core::deserialize::element::notes::{
    DecorationFlag, Location, LocationSector, Note, SlideLocator,
};
use orbtiama_core::deserialize::parser::note_parser::{
    read_common, read_hold_note, read_location, read_note_collection, read_slide_branch_raw,
    read_slide_location, read_slide_note, read_slide_part, read_tap_note, read_touch_note,
    NoteRaw,
};
use orbtiama_core::deserialize::parser::readable::{
    branch_readable, common_token_readable, hold_token_readable, location_readable,
    note_collection_readable, slide_location_readable, slide_part_readable, slide_token_readable,
};

fn node(rule: Rule, text: &str, children: Vec<Token>) -> Token {
    Token { rule, text: text.to_string(), children }
}

fn leaf(rule: Rule, text: &str) -> Token {
    node(rule, text, vec![])
}

fn loc(text: &str) -> Token {
    leaf(Rule::location, text)
}

fn tap(index: u8) -> Location {
    Location { sector: LocationSector::Tap, index }
}

fn bits(flags: &[DecorationFlag]) -> u16 {
    flags.iter().fold(0, |b, f| b | f.bit())
}

fn normal_location(shape: Rule, shape_text: &str, end: &str) -> Token {
    node(
        Rule::slide_location,
        "",
        vec![
            node(Rule::slide_normal_locator, shape_text, vec![leaf(shape, shape_text)]),
            loc(end),
        ],
    )
}

fn part(location: Token, rest: Vec<Token>) -> Token {
    let mut children = vec![location];
    children.extend(rest);
    node(Rule::slide_part, "", children)
}

#[test]
fn location_token_text_is_read() {
    assert_eq!(read_location(&loc("7")), tap(7));
    assert_eq!(
        read_location(&loc("E4")),
        Location { sector: LocationSector::E, index: 4 }
    );
    assert_eq!(
        read_location(&loc("C")),
        Location { sector: LocationSector::C, index: 0 }
    );
}

#[test]
fn tap_note_collects_its_decorations() {
    let t = node(
        Rule::tap_note,
        "3bx",
        vec![loc("3"), leaf(Rule::decoration_break, "b"), leaf(Rule::decoration_ex, "x")],
    );
    let note: Note<(), ()> = read_tap_note(&t);
    assert!(matches!(note, Note::Tap(_)));
    assert_eq!(note.common().location, tap(3));
    assert_eq!(
        note.common().decoration.bits(),
        bits(&[DecorationFlag::Break, DecorationFlag::Ex])
    );
}

#[test]
fn spinning_star_sets_two_flags() {
    let t = node(
        Rule::tap_note,
        "5$$",
        vec![loc("5"), leaf(Rule::decoration_spinning_star, "$$")],
    );
    let common = read_common(&t);
    assert_eq!(
        common.decoration.bits(),
        bits(&[DecorationFlag::ForceStar, DecorationFlag::Spinning])
    );
}

#[test]
fn later_location_replaces_the_first() {
    let t = node(Rule::tap_note, "", vec![loc("1"), loc("6"), leaf(Rule::decoration_star, "$")]);
    let common = read_common(&t);
    assert_eq!(common.location, tap(6));
    assert_eq!(common.decoration.bits(), DecorationFlag::ForceStar.bit());
}

#[test]
fn touch_note_on_a_sensor() {
    let t = node(
        Rule::touch_note,
        "B2f",
        vec![loc("B2"), leaf(Rule::decoration_firework, "f")],
    );
    let note: Note<(), ()> = read_touch_note(&t);
    assert!(matches!(note, Note::Touch(_)));
    assert_eq!(note.common().location, Location { sector: LocationSector::B, index: 2 });
    assert_eq!(note.common().decoration.bits(), DecorationFlag::Fireworks.bit());
}

#[test]
fn hold_keeps_its_last_duration() {
    let t = node(
        Rule::hold_note,
        "",
        vec![
            loc("2"),
            leaf(Rule::decoration_hold, "h"),
            leaf(Rule::duration_hold, "[4:1]"),
            leaf(Rule::decoration_break, "b"),
            leaf(Rule::duration_hold, "[8:3]"),
        ],
    );
    let hold = read_hold_note(&t);
    assert_eq!(hold.common.location, tap(2));
    assert_eq!(hold.common.decoration.bits(), DecorationFlag::Break.bit());
    assert_eq!(hold.duration.map(|d| d.text.as_str()), Some("[8:3]"));
}

#[test]
fn hold_without_duration() {
    let t = node(Rule::hold_note, "", vec![loc("4"), leaf(Rule::decoration_hold, "h")]);
    let hold = read_hold_note(&t);
    assert_eq!(hold.common.location, tap(4));
    assert_eq!(hold.common.decoration.bits(), 0);
    assert!(hold.duration.is_none());
}

#[test]
fn slide_locations_of_both_kinds() {
    let straight = normal_location(Rule::slide_locator_straight, "-", "5");
    assert_eq!(read_slide_location(&straight), SlideLocator::Straight(tap(5)));
    let arc = normal_location(Rule::slide_locator_anti_clockwise_arc, "<", "2");
    assert_eq!(read_slide_location(&arc), SlideLocator::AntiClockwiseArc(tap(2)));
    let grand_v = node(
        Rule::slide_location,
        "V35",
        vec![node(
            Rule::slide_grand_v_locator,
            "V35",
            vec![leaf(Rule::slide_locator_grand_v, "V"), loc("3"), loc("5")],
        )],
    );
    assert_eq!(read_slide_location(&grand_v), SlideLocator::GrandVShape(tap(3), tap(5)));
}

#[test]
fn fan_part_is_marked_wifi() {
    let t = part(
        normal_location(Rule::slide_locator_fan, "w", "5"),
        vec![leaf(Rule::decoration_break, "b"), leaf(Rule::duration_slide, "[4:1]")],
    );
    let (raw, time) = read_slide_part(&t);
    assert_eq!(raw.location, SlideLocator::FanShape(tap(5)));
    assert_eq!(
        raw.decoration.bits(),
        bits(&[DecorationFlag::Break, DecorationFlag::WifiSlide])
    );
    assert_eq!(time.map(|d| d.text.as_str()), Some("[4:1]"));
}

#[test]
fn plain_part_without_time() {
    let t = part(normal_location(Rule::slide_locator_v, "v", "7"), vec![]);
    let (raw, time) = read_slide_part(&t);
    assert_eq!(raw.location, SlideLocator::VShape(tap(7)));
    assert_eq!(raw.decoration.bits(), 0);
    assert!(time.is_none());
}

#[test]
fn delay_duration_goes_to_the_part_before() {
    let branch = node(
        Rule::slide_branch,
        "",
        vec![
            part(normal_location(Rule::slide_locator_straight, "-", "5"), vec![]),
            part(normal_location(Rule::slide_locator_v, "v", "7"), vec![]),
            leaf(Rule::duration_slide_with_delay, "[1##2]"),
        ],
    );
    let raw = read_slide_branch_raw(&branch, tap(1));
    assert_eq!(raw.start_location, tap(1));
    assert_eq!(raw.slide_parts.len(), 2);
    assert_eq!(raw.slide_parts[0].0.location, SlideLocator::Straight(tap(5)));
    assert!(raw.slide_parts[0].1.is_none());
    assert_eq!(raw.slide_parts[1].0.location, SlideLocator::VShape(tap(7)));
    assert_eq!(raw.slide_parts[1].1.map(|d| d.text.as_str()), Some("[1##2]"));
}

#[test]
fn two_branches_are_each_and_double_star() {
    let slide = node(
        Rule::slide_note,
        "",
        vec![
            loc("1"),
            node(
                Rule::slide_branch,
                "",
                vec![part(
                    normal_location(Rule::slide_locator_straight, "-", "5"),
                    vec![leaf(Rule::duration_slide, "[4:1]")],
                )],
            ),
            leaf(Rule::slide_joiner, "*"),
            node(
                Rule::slide_branch,
                "",
                vec![part(
                    normal_location(Rule::slide_locator_short_arc, "^", "3"),
                    vec![leaf(Rule::duration_slide, "[8:1]")],
                )],
            ),
        ],
    );
    let note = read_slide_note(&slide);
    assert_eq!(note.common.location, tap(1));
    assert_eq!(note.common.decoration.bits(), DecorationFlag::DoubleStar.bit());
    assert_eq!(note.branches.len(), 2);
    let marked = bits(&[DecorationFlag::Each, DecorationFlag::TailEach]);
    assert_eq!(note.branches[0].start_location, tap(1));
    assert_eq!(note.branches[0].slide_parts[0].0.location, SlideLocator::Straight(tap(5)));
    assert_eq!(note.branches[0].slide_parts[0].0.decoration.bits(), marked);
    assert_eq!(note.branches[1].slide_parts[0].0.location, SlideLocator::ShortArc(tap(3)));
    assert_eq!(note.branches[1].slide_parts[0].0.decoration.bits(), marked);
    assert_eq!(note.branches[1].slide_parts[0].1.map(|d| d.text.as_str()), Some("[8:1]"));
}

#[test]
fn single_fan_branch_splits_into_three() {
    let slide = node(
        Rule::slide_note,
        "",
        vec![
            loc("1"),
            leaf(Rule::decoration_ex, "x"),
            node(
                Rule::slide_branch,
                "",
                vec![part(
                    normal_location(Rule::slide_locator_fan, "w", "5"),
                    vec![leaf(Rule::duration_slide, "[4:1]")],
                )],
            ),
        ],
    );
    let note = read_slide_note(&slide);
    assert_eq!(
        note.common.decoration.bits(),
        bits(&[DecorationFlag::Ex, DecorationFlag::DoubleStar])
    );
    assert_eq!(note.branches.len(), 3);
    assert_eq!(note.branches[0].slide_parts[0].0.location, SlideLocator::FanShape(tap(5)));
    assert_eq!(
        note.branches[0].slide_parts[0].0.decoration.bits(),
        DecorationFlag::WifiSlide.bit()
    );
    assert_eq!(note.branches[1].slide_parts[0].0.location, SlideLocator::Straight(tap(6)));
    assert_eq!(note.branches[2].slide_parts[0].0.location, SlideLocator::Straight(tap(4)));
    for b in &note.branches[1..] {
        assert_eq!(b.start_location, tap(1));
        assert_eq!(b.slide_parts[0].0.decoration.bits(), 0);
        assert_eq!(b.slide_parts[0].1.map(|d| d.text.as_str()), Some("[4:1]"));
    }
}

#[test]
fn single_plain_branch_is_no_double_star() {
    let slide = node(
        Rule::slide_note,
        "",
        vec![
            loc("2"),
            node(
                Rule::slide_branch,
                "",
                vec![part(
                    normal_location(Rule::slide_locator_clockwise_arc, ">", "6"),
                    vec![leaf(Rule::duration_slide, "[4:1]")],
                )],
            ),
        ],
    );
    let note = read_slide_note(&slide);
    assert_eq!(note.common.decoration.bits(), 0);
    assert_eq!(note.branches.len(), 1);
    assert_eq!(note.branches[0].slide_parts[0].0.decoration.bits(), 0);
}

#[test]
fn collection_reads_notes_and_dividers_in_order() {
    let collection = node(
        Rule::note_collection,
        "",
        vec![
            node(Rule::tap_note, "1", vec![loc("1")]),
            leaf(Rule::each_divider_normal, "/"),
            node(
                Rule::hold_note,
                "2h[4:1]",
                vec![loc("2"), leaf(Rule::decoration_hold, "h"), leaf(Rule::duration_hold, "[4:1]")],
            ),
            leaf(Rule::each_divider_fake, "`"),
            node(Rule::touch_note, "B3", vec![loc("B3")]),
        ],
    );
    let (notes, each) = read_note_collection(&collection);
    assert_eq!(each, vec![true, false]);
    assert_eq!(notes.len(), 3);
    match &notes[0] {
        NoteRaw::Tap(t) => assert_eq!(t.common.location, tap(1)),
        other => panic!("expected a tap, found {:?}", other),
    }
    match &notes[1] {
        NoteRaw::Hold(h) => {
            assert_eq!(h.common.location, tap(2));
            assert_eq!(h.duration.map(|d| d.text.as_str()), Some("[4:1]"));
        }
        other => panic!("expected a hold, found {:?}", other),
    }
    match &notes[2] {
        NoteRaw::Touch(t) => {
            assert_eq!(t.common.location, Location { sector: LocationSector::B, index: 3 })
        }
        other => panic!("expected a touch, found {:?}", other),
    }
}

#[test]
fn empty_collection() {
    let collection = node(Rule::note_collection, "", vec![]);
    let (notes, each) = read_note_collection(&collection);
    assert!(notes.is_empty());
    assert!(each.is_empty());
}

#[test]
fn checks_accept_what_the_readers_take() {
    assert!(location_readable(&loc("8")));
    assert!(!location_readable(&loc("9")));
    assert!(!location_readable(&loc("A")));
    assert!(common_token_readable(&node(
        Rule::tap_note,
        "",
        vec![loc("3"), leaf(Rule::decoration_break, "b")]
    )));
    assert!(!common_token_readable(&node(Rule::tap_note, "", vec![])));
    assert!(!common_token_readable(&node(
        Rule::tap_note,
        "",
        vec![loc("3"), leaf(Rule::decoration_hold, "h")]
    )));
    assert!(hold_token_readable(&node(
        Rule::hold_note,
        "",
        vec![loc("3"), leaf(Rule::decoration_hold, "h"), leaf(Rule::duration_hold, "[4:1]")]
    )));
    assert!(!hold_token_readable(&node(Rule::hold_note, "", vec![loc("0")])));
}

#[test]
fn checks_refuse_malformed_slides() {
    assert!(slide_location_readable(&normal_location(Rule::slide_locator_q, "q", "4")));
    let missing_end = node(
        Rule::slide_location,
        "",
        vec![node(Rule::slide_normal_locator, "-", vec![leaf(Rule::slide_locator_straight, "-")])],
    );
    assert!(!slide_location_readable(&missing_end));
    let wrong_shape = normal_location(Rule::slide_locator_grand_v, "V", "4");
    assert!(!slide_location_readable(&wrong_shape));
    assert!(slide_part_readable(&part(
        normal_location(Rule::slide_locator_straight, "-", "5"),
        vec![leaf(Rule::duration_slide, "[4:1]")]
    )));
    assert!(!slide_part_readable(&part(
        normal_location(Rule::slide_locator_straight, "-", "5"),
        vec![loc("3")]
    )));
    let delay_first = node(
        Rule::slide_branch,
        "",
        vec![
            leaf(Rule::duration_slide_with_delay, "[1##2]"),
            part(normal_location(Rule::slide_locator_straight, "-", "5"), vec![]),
        ],
    );
    assert!(!branch_readable(&delay_first));
    let delay_after = node(
        Rule::slide_branch,
        "",
        vec![
            part(normal_location(Rule::slide_locator_straight, "-", "5"), vec![]),
            leaf(Rule::duration_slide_with_delay, "[1##2]"),
        ],
    );
    assert!(branch_readable(&delay_after));
    assert!(slide_token_readable(&node(
        Rule::slide_note,
        "",
        vec![loc("1"), delay_after, leaf(Rule::slide_joiner, "*")]
    )));
    assert!(!slide_token_readable(&node(Rule::slide_note, "", vec![loc("1"), delay_first])));
}

#[test]
fn collection_check_refuses_stray_tokens() {
    let good = node(
        Rule::note_collection,
        "",
        vec![node(Rule::tap_note, "1", vec![loc("1")]), leaf(Rule::each_divider_normal, "/")],
    );
    assert!(note_collection_readable(&good));
    let stray = node(
        Rule::note_collection,
        "",
        vec![node(Rule::tap_note, "1", vec![loc("1")]), leaf(Rule::tempo, "120")],
    );
    assert!(!note_collection_readable(&stray));
}
