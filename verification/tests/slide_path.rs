use orbtiama_core::deserialize::chart::math::Clockwise;
use orbtiama_core::deserialize::chart::slide_path::{plan_branch, plan_path, PartTiming, PathPlan};
use orbtiama_core::deserialize::element::notes::{
    Location, LocationSector, NoteDecoration, SlideLocator, SlidePartRaw,
};

fn tap(index: u8) -> Location {
    Location { sector: LocationSector::Tap, index }
}

fn raw(location: SlideLocator) -> SlidePartRaw {
    SlidePartRaw { location, decoration: NoteDecoration::none() }
}

#[test]
fn lines_and_centre_shapes() {
    assert_eq!(plan_path(tap(1), SlideLocator::Straight(tap(5))), PathPlan::Line(tap(5)));
    assert_eq!(plan_path(tap(1), SlideLocator::FanShape(tap(5))), PathPlan::Line(tap(5)));
    assert_eq!(plan_path(tap(2), SlideLocator::VShape(tap(6))), PathPlan::ThroughCentre(tap(6)));
    assert_eq!(
        plan_path(tap(1), SlideLocator::GrandVShape(tap(3), tap(5))),
        PathPlan::TwoLines(tap(3), tap(5))
    );
    assert_eq!(
        plan_path(tap(1), SlideLocator::ThunderboltS(tap(5))),
        PathPlan::Zigzag { to: tap(5), is_z: true }
    );
    assert_eq!(
        plan_path(tap(1), SlideLocator::ThunderboltZ(tap(5))),
        PathPlan::Zigzag { to: tap(5), is_z: false }
    );
    let sensor = Location { sector: LocationSector::B, index: 2 };
    assert_eq!(plan_path(sensor, SlideLocator::Straight(tap(5))), PathPlan::Line(tap(5)));
}

#[test]
fn side_arcs_turn_by_the_start() {
    assert_eq!(
        plan_path(tap(1), SlideLocator::ClockwiseArc(tap(3))),
        PathPlan::SideArc { to: tap(3), clockwise: Clockwise::Cw, large_arc: false }
    );
    assert_eq!(
        plan_path(tap(4), SlideLocator::ClockwiseArc(tap(8))),
        PathPlan::SideArc { to: tap(8), clockwise: Clockwise::Ccw, large_arc: true }
    );
    assert_eq!(
        plan_path(tap(1), SlideLocator::AntiClockwiseArc(tap(7))),
        PathPlan::SideArc { to: tap(7), clockwise: Clockwise::Ccw, large_arc: false }
    );
    assert_eq!(
        plan_path(tap(1), SlideLocator::ShortArc(tap(4))),
        PathPlan::SideArc { to: tap(4), clockwise: Clockwise::Cw, large_arc: false }
    );
    assert_eq!(
        plan_path(tap(1), SlideLocator::ShortArc(tap(5))),
        PathPlan::SideArc { to: tap(5), clockwise: Clockwise::Cw, large_arc: true }
    );
    assert_eq!(
        plan_path(tap(6), SlideLocator::ShortArc(tap(3))),
        PathPlan::SideArc { to: tap(3), clockwise: Clockwise::Ccw, large_arc: false }
    );
}

#[test]
fn curves_around_the_centre() {
    assert_eq!(
        plan_path(tap(1), SlideLocator::PShape(tap(4))),
        PathPlan::Curve { to: tap(4), clockwise: Clockwise::Ccw, large_arc: false }
    );
    assert_eq!(
        plan_path(tap(1), SlideLocator::PShape(tap(7))),
        PathPlan::Curve { to: tap(7), clockwise: Clockwise::Ccw, large_arc: true }
    );
    assert_eq!(
        plan_path(tap(1), SlideLocator::QShape(tap(1))),
        PathPlan::Curve { to: tap(1), clockwise: Clockwise::Cw, large_arc: true }
    );
    assert_eq!(
        plan_path(tap(2), SlideLocator::GrandQShape(tap(6))),
        PathPlan::GrandCurve { to: tap(6), clockwise: Clockwise::Cw, steps: 4 }
    );
    assert_eq!(
        plan_path(tap(3), SlideLocator::GrandPShape(tap(1))),
        PathPlan::GrandCurve { to: tap(1), clockwise: Clockwise::Ccw, steps: 2 }
    );
}

#[test]
fn branch_with_every_part_timed() {
    let parts = [
        (raw(SlideLocator::Straight(tap(5))), Some((1.0f32, 0.5f32))),
        (raw(SlideLocator::VShape(tap(3))), Some((2.0f32, 0.0f32))),
    ];
    assert_eq!(plan_branch(tap(1), &parts), Some((PartTiming::Own, vec![tap(1), tap(5)])));
}

#[test]
fn branch_timed_by_its_last_part() {
    let parts = [
        (raw(SlideLocator::Straight(tap(5))), None),
        (raw(SlideLocator::GrandVShape(tap(3), tap(7))), None),
        (raw(SlideLocator::ShortArc(tap(2))), Some((1.5f32, 0.25f32))),
    ];
    assert_eq!(
        plan_branch(tap(1), &parts),
        Some((PartTiming::SharedByLength, vec![tap(1), tap(5), tap(7)]))
    );
}

#[test]
fn branch_that_cannot_be_timed() {
    let parts = [
        (raw(SlideLocator::Straight(tap(5))), Some(1u8)),
        (raw(SlideLocator::Straight(tap(6))), None),
    ];
    assert_eq!(plan_branch(tap(1), &parts), None);
    let empty: [(SlidePartRaw, Option<u8>); 0] = [];
    assert_eq!(plan_branch(tap(1), &empty), Some((PartTiming::Own, vec![])));
}
