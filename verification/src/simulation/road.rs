//! Queries on the road network: where a car is along its lane, how far
//! two cars are apart, where an entry lies and whether an exit is near.
use vstd::prelude::*;
use crate::config::EntryPoint;
use crate::config::ExitPoint;
use crate::config::GeometryKind;
use crate::fixed::atan2_fx;
use crate::fixed::cos_fx;
use crate::fixed::deg_to_rad;
use crate::fixed::FULL_TURN_DEG;
use crate::fixed::fx_abs;
use crate::fixed::fx_mul;
use crate::fixed::HALF_PI;
use crate::fixed::HALF_TURN_DEG;
use crate::fixed::hypot;
use crate::fixed::mul_div;
use crate::fixed::PI;
use crate::fixed::QUARTER_PI;
use crate::fixed::rad_to_deg;
use crate::fixed::sat_add;
use crate::fixed::sat_sub;
use crate::fixed::SCALE;
use crate::fixed::sin_fx;
use crate::fixed::TWO_PI;
use crate::fixed::wrap_angle;
use crate::simulation::Car;
use crate::simulation::kernel::get_lane_radius;
use crate::simulation::kernel::lane_separation;
use crate::simulation::kernel::loop_offset;
use crate::simulation::kernel::RouteParams;
use crate::simulation::kernel::signed_angle;
use crate::simulation::kernel::stretch;
use crate::simulation::Point;
use crate::simulation::Vec2;
use crate::text::same_text;

verus! {

/// How far from the centre through traffic enters the interchange (250 m).
pub const HIGHWAY_EXTENT: i64 = 250_000_000;

/// How far beyond the loop an entrance ramp starts (20 m).
pub const RAMP_LEAD: i64 = 20_000_000;

/// The diagonal component of a unit vector.
pub const DIAGONAL: i64 = 707_107;

/// Three eighths of a turn.
pub const THREE_QUARTER_PI: i64 = 2_356_194;

/// The value that `bearing` computes.
pub open spec fn bearing_value(c: &Car, p: &RouteParams) -> i64 {
    match p.kind {
        GeometryKind::Donut => wrap_angle(c.lane_angle),
        GeometryKind::Cloverleaf => wrap_angle(
            atan2_fx(sat_sub(c.position.y, p.center_y), sat_sub(c.position.x, p.center_x)),
        ),
    }
}

/// The angle at which a car is seen from the centre of the road, in
/// `[0, TWO_PI)`: its angular position on the circular road, the
/// direction of its position on the interchange.
#[verifier::when_used_as_spec(bearing_value)]
pub fn bearing(c: &Car, p: &RouteParams) -> (r: i64)
    ensures
        r == bearing_value(c, p),
        0 <= r < TWO_PI,
{
    match p.kind {
        GeometryKind::Donut => wrap_angle(c.lane_angle),
        GeometryKind::Cloverleaf => wrap_angle(
            atan2_fx(sat_sub(c.position.y, p.center_y), sat_sub(c.position.x, p.center_x)),
        ),
    }
}

/// The value that `angular_distance_deg` computes.
pub open spec fn angular_distance_deg_value(a: i64, b: i64) -> i64 {
    let d = fx_abs(sat_sub(a, b));
    if d > HALF_TURN_DEG {
        sat_sub(FULL_TURN_DEG, d)
    } else {
        d
    }
}

/// The distance between two angles in degrees, the short way round.
#[verifier::when_used_as_spec(angular_distance_deg_value)]
pub fn angular_distance_deg(a: i64, b: i64) -> (r: i64)
    ensures
        r == angular_distance_deg_value(a, b),
{
    let d: i64 = fx_abs(sat_sub(a, b));
    if d > HALF_TURN_DEG {
        sat_sub(FULL_TURN_DEG, d)
    } else {
        d
    }
}

/// Whether the car drives in the lane of the exit and is seen from the
/// centre within `tolerance` degrees of it.
pub open spec fn at_exit(c: &Car, exit: &ExitPoint, tolerance: i64, p: &RouteParams) -> bool {
    c.current_lane == exit.lane && angular_distance_deg(exit.angle, rad_to_deg(bearing(c, p)))
        < tolerance
}

/// Whether the car is at one of the exits.
pub open spec fn near_exit_value(
    c: &Car,
    exits: Seq<ExitPoint>,
    tolerance: i64,
    p: &RouteParams,
) -> bool {
    exists|k: int| 0 <= k < exits.len() && at_exit(c, &#[trigger] exits[k], tolerance, p)
}

/// Whether the car is in the lane of a configured exit and within the
/// angular tolerance of it.
pub fn near_exit(c: &Car, exits: &Vec<ExitPoint>, tolerance: i64, p: &RouteParams) -> (r: bool)
    ensures
        r == near_exit_value(c, exits@, tolerance, p),
{
    let car_angle: i64 = rad_to_deg(bearing(c, p));
    let mut k: usize = 0;
    while k < exits.len()
        invariant
            k <= exits.len(),
            car_angle == rad_to_deg(bearing(c, p)),
            forall|j: int| 0 <= j < k ==> !at_exit(c, &#[trigger] exits@[j], tolerance, p),
        decreases exits.len() - k,
    {
        if c.current_lane == exits[k].lane && angular_distance_deg(exits[k].angle, car_angle)
            < tolerance {
            assert(at_exit(c, &exits@[k as int], tolerance, p));
            return true;
        }
        k += 1;
    }
    false
}

/// The value that `separation` computes.
pub open spec fn separation_value(c: &Car, o: &Car, p: &RouteParams) -> i64 {
    match p.kind {
        GeometryKind::Donut => {
            let diff = wrap_angle(sat_sub(o.lane_angle, c.lane_angle));
            let folded = if diff > PI {
                (TWO_PI - diff) as i64
            } else {
                diff
            };
            fx_mul(
                folded,
                hypot(sat_sub(c.position.x, p.center_x), sat_sub(c.position.y, p.center_y)),
            )
        },
        GeometryKind::Cloverleaf => hypot(
            sat_sub(o.position.x, c.position.x),
            sat_sub(o.position.y, c.position.y),
        ),
    }
}

/// How far `o` is from `c`, ahead or behind: the arc between them at the
/// radius of `c` on the circular road, the straight-line distance on the
/// interchange.
#[verifier::when_used_as_spec(separation_value)]
pub fn separation(c: &Car, o: &Car, p: &RouteParams) -> (r: i64)
    ensures
        r == separation_value(c, o, p),
{
    match p.kind {
        GeometryKind::Donut => {
            let diff: i64 = wrap_angle(sat_sub(o.lane_angle, c.lane_angle));
            let folded: i64 = if diff > PI {
                TWO_PI - diff
            } else {
                diff
            };
            fx_mul(
                folded,
                hypot(sat_sub(c.position.x, p.center_x), sat_sub(c.position.y, p.center_y)),
            )
        },
        GeometryKind::Cloverleaf => hypot(
            sat_sub(o.position.x, c.position.x),
            sat_sub(o.position.y, c.position.y),
        ),
    }
}

/// Where a car enters, and how it points there.
#[derive(Debug, Clone, Copy, PartialEq, Eq, Structural)]
pub struct EntryPose {
    pub position: Point,
    /// Unit vector of the direction of travel.
    pub direction: Vec2,
    pub heading: i64,
    pub lane_angle: i64,
}

/// The value that `calculate_donut_entry_position` computes.
pub open spec fn donut_entry_pose_value(angle_deg: i64, lane: u32, p: &RouteParams) -> EntryPose {
    let angle = deg_to_rad(angle_deg);
    let radius = get_lane_radius(lane, p);
    let cos = cos_fx(angle);
    let sin = sin_fx(angle);
    let place = stretch(cos, sin, radius);
    let along = stretch((-sin) as i64, cos, SCALE);
    EntryPose {
        position: Point { x: sat_add(p.center_x, place.0), y: sat_add(p.center_y, place.1) },
        direction: Vec2 { x: along.0, y: along.1 },
        heading: signed_angle(sat_add(angle, HALF_PI)),
        lane_angle: angle,
    }
}

/// An entry of the circular road: on the lane's radius at the entry
/// angle, pointing along the tangent, counter-clockwise, with the
/// heading in `(-PI, PI]`.
#[verifier::when_used_as_spec(donut_entry_pose_value)]
pub fn calculate_donut_entry_position(angle_deg: i64, lane: u32, p: &RouteParams) -> (r: EntryPose)
    ensures
        r == donut_entry_pose_value(angle_deg, lane, p),
{
    let angle: i64 = deg_to_rad(angle_deg);
    let radius: i64 = get_lane_radius(lane, p);
    let cos: i64 = cos_fx(angle);
    let sin: i64 = sin_fx(angle);
    let place = stretch(cos, sin, radius);
    let along = stretch(-sin, cos, SCALE);
    EntryPose {
        position: Point { x: sat_add(p.center_x, place.0), y: sat_add(p.center_y, place.1) },
        direction: Vec2 { x: along.0, y: along.1 },
        heading: signed_angle(sat_add(angle, HALF_PI)),
        lane_angle: angle,
    }
}

/// The value that `calculate_cloverleaf_entry_position` computes.
pub open spec fn highway_entry_pose_value(lane: u32, p: &RouteParams) -> EntryPose {
    let sep = lane_separation(p);
    let west = sat_sub(0, sep);
    if 1 <= lane && lane <= 3 {
        EntryPose {
            position: Point {
                x: sat_add(west, mul_div((lane - 2) as i64, p.lane_width, 1)),
                y: HIGHWAY_EXTENT,
            },
            direction: Vec2 { x: 0, y: (-SCALE) as i64 },
            heading: (-HALF_PI) as i64,
            lane_angle: 0,
        }
    } else if 4 <= lane && lane <= 6 {
        EntryPose {
            position: Point {
                x: sat_add(sep, mul_div((lane - 5) as i64, p.lane_width, 1)),
                y: (-HIGHWAY_EXTENT) as i64,
            },
            direction: Vec2 { x: 0, y: SCALE },
            heading: HALF_PI,
            lane_angle: 0,
        }
    } else if 7 <= lane && lane <= 9 {
        EntryPose {
            position: Point {
                x: HIGHWAY_EXTENT,
                y: sat_add(sep, mul_div((lane - 8) as i64, p.lane_width, 1)),
            },
            direction: Vec2 { x: (-SCALE) as i64, y: 0 },
            heading: PI,
            lane_angle: 0,
        }
    } else if 10 <= lane && lane <= 12 {
        EntryPose {
            position: Point {
                x: (-HIGHWAY_EXTENT) as i64,
                y: sat_add(west, mul_div((lane - 11) as i64, p.lane_width, 1)),
            },
            direction: Vec2 { x: SCALE, y: 0 },
            heading: 0,
            lane_angle: 0,
        }
    } else {
        EntryPose {
            position: Point { x: 0, y: 0 },
            direction: Vec2 { x: SCALE, y: 0 },
            heading: 0,
            lane_angle: 0,
        }
    }
}

/// An entry of through traffic on the interchange: at the edge of the
/// highway from which the lane's direction leads inward. A lane that is
/// no highway lane enters at the centre, pointing east.
#[verifier::when_used_as_spec(highway_entry_pose_value)]
pub fn calculate_cloverleaf_entry_position(lane: u32, p: &RouteParams) -> (r: EntryPose)
    ensures
        r == highway_entry_pose_value(lane, p),
{
    let sep: i64 = lane_separation(p);
    let west: i64 = sat_sub(0, sep);
    if 1 <= lane && lane <= 3 {
        EntryPose {
            position: Point {
                x: sat_add(west, mul_div(lane as i64 - 2, p.lane_width, 1)),
                y: HIGHWAY_EXTENT,
            },
            direction: Vec2 { x: 0, y: -SCALE },
            heading: -HALF_PI,
            lane_angle: 0,
        }
    } else if 4 <= lane && lane <= 6 {
        EntryPose {
            position: Point {
                x: sat_add(sep, mul_div(lane as i64 - 5, p.lane_width, 1)),
                y: -HIGHWAY_EXTENT,
            },
            direction: Vec2 { x: 0, y: SCALE },
            heading: HALF_PI,
            lane_angle: 0,
        }
    } else if 7 <= lane && lane <= 9 {
        EntryPose {
            position: Point {
                x: HIGHWAY_EXTENT,
                y: sat_add(sep, mul_div(lane as i64 - 8, p.lane_width, 1)),
            },
            direction: Vec2 { x: -SCALE, y: 0 },
            heading: PI,
            lane_angle: 0,
        }
    } else if 10 <= lane && lane <= 12 {
        EntryPose {
            position: Point {
                x: -HIGHWAY_EXTENT,
                y: sat_add(west, mul_div(lane as i64 - 11, p.lane_width, 1)),
            },
            direction: Vec2 { x: SCALE, y: 0 },
            heading: 0,
            lane_angle: 0,
        }
    } else {
        EntryPose {
            position: Point { x: 0, y: 0 },
            direction: Vec2 { x: SCALE, y: 0 },
            heading: 0,
            lane_angle: 0,
        }
    }
}

/// The corner of the interchange at which a loop ramp entry lies:
/// 0 north-east, 1 south-east, 2 south-west, 3 north-west; 4 for none.
/// The entry's name decides; for another name its lane does.
pub open spec fn ramp_corner_value(id: Seq<char>, lane: u32) -> u32 {
    if id == "ne_loop_entry"@ {
        0
    } else if id == "se_loop_entry"@ {
        1
    } else if id == "sw_loop_entry"@ {
        2
    } else if id == "nw_loop_entry"@ {
        3
    } else if 1 <= lane && lane <= 3 {
        0
    } else if 4 <= lane && lane <= 6 {
        2
    } else if 7 <= lane && lane <= 9 {
        3
    } else if 10 <= lane && lane <= 12 {
        1
    } else {
        4
    }
}

pub fn ramp_corner(id: &String, lane: u32) -> (r: u32)
    ensures
        r == ramp_corner_value(id@, lane),
        r <= 4,
{
    if same_text(id, "ne_loop_entry") {
        0
    } else if same_text(id, "se_loop_entry") {
        1
    } else if same_text(id, "sw_loop_entry") {
        2
    } else if same_text(id, "nw_loop_entry") {
        3
    } else if 1 <= lane && lane <= 3 {
        0
    } else if 4 <= lane && lane <= 6 {
        2
    } else if 7 <= lane && lane <= 9 {
        3
    } else if 10 <= lane && lane <= 12 {
        1
    } else {
        4
    }
}

/// The value that `calculate_loop_ramp_entry_position` computes.
pub open spec fn ramp_entry_pose_value(corner: u32, p: &RouteParams) -> EntryPose {
    let off = sat_add(loop_offset(p), RAMP_LEAD);
    let neg = sat_sub(0, off);
    if corner == 0 {
        EntryPose {
            position: Point { x: off, y: off },
            direction: Vec2 { x: (-DIAGONAL) as i64, y: (-DIAGONAL) as i64 },
            heading: (-THREE_QUARTER_PI) as i64,
            lane_angle: QUARTER_PI,
        }
    } else if corner == 1 {
        EntryPose {
            position: Point { x: off, y: neg },
            direction: Vec2 { x: (-DIAGONAL) as i64, y: DIAGONAL },
            heading: THREE_QUARTER_PI,
            lane_angle: (TWO_PI - QUARTER_PI) as i64,
        }
    } else if corner == 2 {
        EntryPose {
            position: Point { x: neg, y: neg },
            direction: Vec2 { x: DIAGONAL, y: DIAGONAL },
            heading: QUARTER_PI,
            lane_angle: (PI + QUARTER_PI) as i64,
        }
    } else if corner == 3 {
        EntryPose {
            position: Point { x: neg, y: off },
            direction: Vec2 { x: DIAGONAL, y: (-DIAGONAL) as i64 },
            heading: (-QUARTER_PI) as i64,
            lane_angle: THREE_QUARTER_PI,
        }
    } else {
        EntryPose {
            position: Point { x: 0, y: 0 },
            direction: Vec2 { x: SCALE, y: 0 },
            heading: 0,
            lane_angle: 0,
        }
    }
}

/// An entrance ramp of the interchange: outside the loop of its corner,
/// on the diagonal through the loop's centre, pointing at the merge.
#[verifier::when_used_as_spec(ramp_entry_pose_value)]
pub fn calculate_loop_ramp_entry_position(corner: u32, p: &RouteParams) -> (r: EntryPose)
    ensures
        r == ramp_entry_pose_value(corner, p),
{
    let off: i64 = sat_add(loop_offset(p), RAMP_LEAD);
    let neg: i64 = sat_sub(0, off);
    if corner == 0 {
        EntryPose {
            position: Point { x: off, y: off },
            direction: Vec2 { x: -DIAGONAL, y: -DIAGONAL },
            heading: -THREE_QUARTER_PI,
            lane_angle: QUARTER_PI,
        }
    } else if corner == 1 {
        EntryPose {
            position: Point { x: off, y: neg },
            direction: Vec2 { x: -DIAGONAL, y: DIAGONAL },
            heading: THREE_QUARTER_PI,
            lane_angle: TWO_PI - QUARTER_PI,
        }
    } else if corner == 2 {
        EntryPose {
            position: Point { x: neg, y: neg },
            direction: Vec2 { x: DIAGONAL, y: DIAGONAL },
            heading: QUARTER_PI,
            lane_angle: PI + QUARTER_PI,
        }
    } else if corner == 3 {
        EntryPose {
            position: Point { x: neg, y: off },
            direction: Vec2 { x: DIAGONAL, y: -DIAGONAL },
            heading: -QUARTER_PI,
            lane_angle: THREE_QUARTER_PI,
        }
    } else {
        EntryPose {
            position: Point { x: 0, y: 0 },
            direction: Vec2 { x: SCALE, y: 0 },
            heading: 0,
            lane_angle: 0,
        }
    }
}

/// Where an entry lies and how a car points there.
pub open spec fn entry_pose_value(entry: &EntryPoint, p: &RouteParams) -> EntryPose {
    match p.kind {
        GeometryKind::Donut => calculate_donut_entry_position(entry.angle, entry.lane, p),
        GeometryKind::Cloverleaf => if entry.entry_type@ == "loop_ramp"@ {
            calculate_loop_ramp_entry_position(ramp_corner_value(entry.id@, entry.lane), p)
        } else {
            calculate_cloverleaf_entry_position(entry.lane, p)
        },
    }
}

/// Computes position, direction and heading at an entry for the
/// geometry of the road.
pub fn calculate_entry_position(entry: &EntryPoint, p: &RouteParams) -> (r: EntryPose)
    ensures
        r == entry_pose_value(entry, p),
{
    match p.kind {
        GeometryKind::Donut => calculate_donut_entry_position(entry.angle, entry.lane, p),
        GeometryKind::Cloverleaf => if same_text(&entry.entry_type, "loop_ramp") {
            calculate_loop_ramp_entry_position(ramp_corner(&entry.id, entry.lane), p)
        } else {
            calculate_cloverleaf_entry_position(entry.lane, p)
        },
    }
}

} // verus!
