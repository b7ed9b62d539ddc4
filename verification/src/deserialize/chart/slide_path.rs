//! How the path of a slide is laid out before it is drawn: which shape each part takes,
//! which way its arcs turn, where each part starts and how the parts of a branch are timed.
//! Points and lengths on the screen are measured by the drawing code from these plans.
use crate::deserialize::chart::math::{
    clockwise_of, directed_distance, nearest_distance, turns_clockwise, Clockwise,
};
use crate::deserialize::element::notes::{
    end_location, is_sensor_location, ring_size, Location, SlideLocator, SlidePartRaw,
};
use vstd::prelude::*;

verus! {

/// How one part of a slide is drawn.
#[derive(Clone, Copy, Debug, PartialEq, Eq, Structural)]
pub enum PathPlan {
    /// A straight line to a location.
    Line(Location),
    /// An arc along the outer ring to a button, turning `clockwise`; `large_arc` when it
    /// covers four steps or more.
    SideArc { to: Location, clockwise: Clockwise, large_arc: bool },
    /// A line to the centre and on to a location.
    ThroughCentre(Location),
    /// A line to the first location and on to the second.
    TwoLines(Location, Location),
    /// A zigzag to a location, bent to the side that `is_z` selects (it is set for the S
    /// shape).
    Zigzag { to: Location, is_z: bool },
    /// A p or q curve around the centre, turning `clockwise`.
    Curve { to: Location, clockwise: Clockwise, large_arc: bool },
    /// A pp or qq curve, turning `clockwise`; `steps` is the number of steps around the ring
    /// from start to end in that direction, which picks its sweep.
    GrandCurve { to: Location, clockwise: Clockwise, steps: u8 },
}

/// The arc along the ring from `from` to `to` turning `clockwise`.
pub open spec fn side_arc(from: Location, to: Location, clockwise: Clockwise) -> PathPlan {
    PathPlan::SideArc {
        to,
        clockwise,
        large_arc: directed_distance(from.index, to.index, ring_size(), clockwise) >= 4,
    }
}

/// The p or q curve from `from` to `to` turning `clockwise`: it takes the large arc when it
/// covers at most three steps in its direction, or when start and end have no nearest way.
pub open spec fn curve(from: Location, to: Location, clockwise: Clockwise) -> PathPlan {
    PathPlan::Curve {
        to,
        clockwise,
        large_arc: directed_distance(from.index, to.index, ring_size(), clockwise) <= 3
            || nearest_distance(from.index, to.index, ring_size()).0 == 0,
    }
}

/// How a part of shape `locator` that starts at `from` is drawn.
pub open spec fn path_plan_of(from: Location, locator: SlideLocator) -> PathPlan {
    match locator {
        SlideLocator::Straight(to) => PathPlan::Line(to),
        SlideLocator::FanShape(to) => PathPlan::Line(to),
        SlideLocator::ClockwiseArc(to) => side_arc(
            from,
            to,
            clockwise_of(turns_clockwise(from.index, true)),
        ),
        SlideLocator::AntiClockwiseArc(to) => side_arc(
            from,
            to,
            clockwise_of(turns_clockwise(from.index, false)),
        ),
        SlideLocator::ShortArc(to) => side_arc(
            from,
            to,
            nearest_distance(from.index, to.index, ring_size()).1,
        ),
        SlideLocator::VShape(to) => PathPlan::ThroughCentre(to),
        SlideLocator::GrandVShape(a, b) => PathPlan::TwoLines(a, b),
        SlideLocator::ThunderboltS(to) => PathPlan::Zigzag { to, is_z: true },
        SlideLocator::ThunderboltZ(to) => PathPlan::Zigzag { to, is_z: false },
        SlideLocator::PShape(to) => curve(from, to, Clockwise::Ccw),
        SlideLocator::QShape(to) => curve(from, to, Clockwise::Cw),
        SlideLocator::GrandPShape(to) => PathPlan::GrandCurve {
            to,
            clockwise: Clockwise::Ccw,
            steps: directed_distance(from.index, to.index, ring_size(), Clockwise::Ccw),
        },
        SlideLocator::GrandQShape(to) => PathPlan::GrandCurve {
            to,
            clockwise: Clockwise::Cw,
            steps: directed_distance(from.index, to.index, ring_size(), Clockwise::Cw),
        },
        SlideLocator::Invalid => PathPlan::Line(from),
    }
}

/// The parts whose path can be laid out: a part has a shape, and the shapes that go
/// around the ring run between tap buttons.
pub open spec fn path_plan_defined(from: Location, locator: SlideLocator) -> bool {
    match locator {
        SlideLocator::Invalid => false,
        SlideLocator::ClockwiseArc(to) | SlideLocator::AntiClockwiseArc(to)
        | SlideLocator::ShortArc(to) | SlideLocator::PShape(to) | SlideLocator::QShape(to)
        | SlideLocator::GrandPShape(to) | SlideLocator::GrandQShape(to) => !is_sensor_location(
            from,
        ) && !is_sensor_location(to),
        _ => true,
    }
}

fn side_arc_plan(from: &Location, to: Location, clockwise: Clockwise) -> (r: PathPlan)
    requires
        !is_sensor_location(*from),
        !is_sensor_location(to),
    ensures
        r == side_arc(*from, to, clockwise),
{
    let steps = from.tap_distance_to_with_clockwise(&to, clockwise);
    PathPlan::SideArc { to, clockwise, large_arc: steps >= 4 }
}

fn curve_plan(from: &Location, to: Location, clockwise: Clockwise) -> (r: PathPlan)
    requires
        !is_sensor_location(*from),
        !is_sensor_location(to),
    ensures
        r == curve(*from, to, clockwise),
{
    let (nearest, _) = from.tap_distance_to(&to);
    let steps = from.tap_distance_to_with_clockwise(&to, clockwise);
    PathPlan::Curve { to, clockwise, large_arc: steps <= 3 || nearest == 0 }
}

/// Lays out the path of a part of shape `slide_locator` that starts at `from_location`.
pub fn plan_path(from_location: Location, slide_locator: SlideLocator) -> (r: PathPlan)
    requires
        path_plan_defined(from_location, slide_locator),
    ensures
        r == path_plan_of(from_location, slide_locator),
{
    match slide_locator {
        SlideLocator::Straight(to) => PathPlan::Line(to),
        SlideLocator::FanShape(to) => PathPlan::Line(to),
        SlideLocator::ClockwiseArc(to) => {
            let clockwise = crate::deserialize::chart::math::determine_clockwise(
                &from_location,
                true,
            );
            side_arc_plan(&from_location, to, clockwise)
        },
        SlideLocator::AntiClockwiseArc(to) => {
            let clockwise = crate::deserialize::chart::math::determine_clockwise(
                &from_location,
                false,
            );
            side_arc_plan(&from_location, to, clockwise)
        },
        SlideLocator::ShortArc(to) => {
            let (_, clockwise) = from_location.tap_distance_to(&to);
            side_arc_plan(&from_location, to, clockwise)
        },
        SlideLocator::VShape(to) => PathPlan::ThroughCentre(to),
        SlideLocator::GrandVShape(a, b) => PathPlan::TwoLines(a, b),
        SlideLocator::ThunderboltS(to) => PathPlan::Zigzag { to, is_z: true },
        SlideLocator::ThunderboltZ(to) => PathPlan::Zigzag { to, is_z: false },
        SlideLocator::PShape(to) => curve_plan(&from_location, to, Clockwise::Ccw),
        SlideLocator::QShape(to) => curve_plan(&from_location, to, Clockwise::Cw),
        SlideLocator::GrandPShape(to) => {
            let steps = from_location.tap_distance_to_with_clockwise(&to, Clockwise::Ccw);
            PathPlan::GrandCurve { to, clockwise: Clockwise::Ccw, steps }
        },
        SlideLocator::GrandQShape(to) => {
            let steps = from_location.tap_distance_to_with_clockwise(&to, Clockwise::Cw);
            PathPlan::GrandCurve { to, clockwise: Clockwise::Cw, steps }
        },
        SlideLocator::Invalid => PathPlan::Line(from_location),
    }
}

/// Each shape is drawn as its name says: straight and fan parts as a line, a V through the
/// centre, a grand V through its first location, S and Z as zigzags (`is_z` set for S), p
/// and pp turning counter-clockwise, q and qq clockwise, a short arc the nearest way round,
/// and a side arc turning as its start and side decide; an arc takes the large way when it
/// covers four steps or more.
pub proof fn law_path_shapes(from: Location, to: Location, mid: Location)
    ensures
        path_plan_of(from, SlideLocator::Straight(to)) == PathPlan::Line(to),
        path_plan_of(from, SlideLocator::FanShape(to)) == PathPlan::Line(to),
        path_plan_of(from, SlideLocator::VShape(to)) == PathPlan::ThroughCentre(to),
        path_plan_of(from, SlideLocator::GrandVShape(mid, to)) == PathPlan::TwoLines(mid, to),
        path_plan_of(from, SlideLocator::ThunderboltS(to)) == (PathPlan::Zigzag { to, is_z: true }),
        path_plan_of(from, SlideLocator::ThunderboltZ(to)) == (PathPlan::Zigzag { to, is_z: false }),
        path_plan_of(from, SlideLocator::PShape(to)) matches PathPlan::Curve { to: t, clockwise, .. }
            && t == to && clockwise == Clockwise::Ccw,
        path_plan_of(from, SlideLocator::QShape(to)) matches PathPlan::Curve { to: t, clockwise, .. }
            && t == to && clockwise == Clockwise::Cw,
        path_plan_of(from, SlideLocator::GrandPShape(to)) == (PathPlan::GrandCurve {
            to,
            clockwise: Clockwise::Ccw,
            steps: directed_distance(from.index, to.index, 8, Clockwise::Ccw),
        }),
        path_plan_of(from, SlideLocator::GrandQShape(to)) == (PathPlan::GrandCurve {
            to,
            clockwise: Clockwise::Cw,
            steps: directed_distance(from.index, to.index, 8, Clockwise::Cw),
        }),
        path_plan_of(from, SlideLocator::ShortArc(to)) == (PathPlan::SideArc {
            to,
            clockwise: nearest_distance(from.index, to.index, 8).1,
            large_arc: directed_distance(
                from.index,
                to.index,
                8,
                nearest_distance(from.index, to.index, 8).1,
            ) >= 4,
        }),
        path_plan_of(from, SlideLocator::ClockwiseArc(to)) matches PathPlan::SideArc {
            to: t,
            clockwise,
            ..
        } && t == to && clockwise == clockwise_of(turns_clockwise(from.index, true)),
        path_plan_of(from, SlideLocator::AntiClockwiseArc(to)) matches PathPlan::SideArc {
            to: t,
            clockwise,
            ..
        } && t == to && clockwise == clockwise_of(turns_clockwise(from.index, false)),
{
}

// ---------------------------------------------------------------------------
// The parts of a branch
// ---------------------------------------------------------------------------

/// How the parts of a slide branch are timed: each by the time written for it, or all by
/// the time written for the last part, shared out by the length of each part's path.
#[derive(Clone, Copy, Debug, PartialEq, Eq, Structural)]
pub enum PartTiming {
    Own,
    SharedByLength,
}

/// Where each part of a branch starts: the first at the branch's start, every other one
/// where the part before it ends.
pub open spec fn part_start<T>(start: Location, raw: Seq<(SlidePartRaw, T)>, i: int) -> Location {
    if i == 0 {
        start
    } else {
        end_location(raw[i - 1].0.location)
    }
}

/// Whether every part of a branch has a time written for it.
pub open spec fn all_timed<T>(raw: Seq<(SlidePartRaw, Option<T>)>) -> bool {
    forall|i: int| 0 <= i < raw.len() ==> (#[trigger] raw[i]).1 is Some
}

/// How a branch is timed, if it can be: by each part's own time when every part has one,
/// else by the last part's time when it has one; a branch with neither cannot be timed.
pub open spec fn branch_timing<T>(raw: Seq<(SlidePartRaw, Option<T>)>) -> Option<PartTiming> {
    if all_timed(raw) {
        Some(PartTiming::Own)
    } else if raw.len() > 0 && raw.last().1 is Some {
        Some(PartTiming::SharedByLength)
    } else {
        None
    }
}

/// Where each part of a branch starts, and how the branch is timed; `None` when the branch
/// cannot be timed.
pub fn plan_branch<T>(start_location: Location, raw: &[(SlidePartRaw, Option<T>)]) -> (r: Option<
    (PartTiming, Vec<Location>),
>)
    requires
        forall|i: int| 0 <= i < raw@.len() - 1 ==> !((#[trigger] raw@[i]).0.location is Invalid),
    ensures
        r matches Some((timing, _)) ==> branch_timing(raw@) == Some(timing),
        r is None <==> branch_timing(raw@) is None,
        r matches Some((_, starts)) ==> starts@.len() == raw@.len() && forall|i: int|
            0 <= i < raw@.len() ==> #[trigger] starts@[i] == part_start(start_location, raw@, i),
{
    let mut every = true;
    let mut starts: Vec<Location> = Vec::new();
    let mut i: usize = 0;
    while i < raw.len()
        invariant
            i <= raw@.len(),
            forall|k: int| 0 <= k < raw@.len() - 1 ==> !((#[trigger] raw@[k]).0.location is Invalid),
            every == forall|k: int| 0 <= k < i ==> (#[trigger] raw@[k]).1 is Some,
            starts@.len() == i,
            forall|k: int| 0 <= k < i ==> #[trigger] starts@[k] == part_start(start_location, raw@, k),
        decreases raw@.len() - i,
    {
        let from = if i == 0 {
            start_location
        } else {
            raw[i - 1].0.location.get_end_location()
        };
        starts.push(from);
        if raw[i].1.is_none() {
            every = false;
        }
        i = i + 1;
    }
    if every {
        return Some((PartTiming::Own, starts));
    }
    if raw.len() > 0 && raw[raw.len() - 1].1.is_some() {
        Some((PartTiming::SharedByLength, starts))
    } else {
        None
    }
}

} // verus!
