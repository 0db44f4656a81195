//! The numeric kernel: one car's kinematics for one tick.
//!
//! The kernel reads a snapshot of all car records and computes the next
//! record of one car. It is defined once; the sequential and the
//! data-parallel backend both run it, so they agree on every value.
use vstd::prelude::*;
use crate::config::GeometryKind;
use crate::fixed::atan2_fx;
use crate::fixed::cos_fx;
use crate::fixed::fx_clamp;
use crate::fixed::fx_div;
use crate::fixed::fx_max;
use crate::fixed::fx_min;
use crate::fixed::fx_mul;
use crate::fixed::HALF_PI;
use crate::fixed::hypot;
use crate::fixed::lemma_product_fits;
use crate::fixed::LIMIT;
use crate::fixed::mul_div;
use crate::fixed::PI;
use crate::fixed::sat_add;
use crate::fixed::sat_sub;
use crate::fixed::SCALE;
use crate::fixed::sin_fx;
use crate::fixed::TWO_PI;
use crate::fixed::wrap_angle;

verus! {

/// Speed below which a car counts as standing when its direction of
/// travel is asked for (0.1 m/s).
pub const STANDING_SPEED: i64 = 100_000;

/// Extra separation between the two directions of a highway (5 m).
pub const MEDIAN_GAP: i64 = 5_000_000;

/// Highway width where the configuration gives none (40 m).
pub const DEFAULT_HIGHWAY_WIDTH: i64 = 40_000_000;

/// Loop ramp radius where the configuration gives none (60 m).
pub const DEFAULT_LOOP_RADIUS: i64 = 60_000_000;

/// The highest lane number of the straight highway segments.
pub const LAST_STRAIGHT_LANE: u32 = 12;

/// The read-only route record that every kernel run shares.
#[derive(Debug, Clone, Copy, PartialEq, Eq, Structural)]
pub struct RouteParams {
    pub kind: GeometryKind,
    pub center_x: i64,
    pub center_y: i64,
    pub inner_radius: i64,
    pub outer_radius: i64,
    pub lane_width: i64,
    pub lane_count: u32,
    pub highway_width: i64,
    pub loop_radius: i64,
    pub speed_limit: i64,
    pub min_speed: i64,
    pub following_distance: i64,
    pub lane_change_time: i64,
    pub friction_coefficient: i64,
    pub emergency_brake_distance: i64,
    pub warning_distance: i64,
    pub safety_margin: i64,
}

impl RouteParams {
    /// What the kernel divides by is positive.
    pub open spec fn wf(&self) -> bool {
        &&& self.lane_change_time > 0
        &&& self.emergency_brake_distance < self.warning_distance
    }
}

/// The kinematic and behavior fields of one car, as the kernel reads and
/// writes them. A target lane of zero stands for none.
#[derive(Debug, Clone, Copy, PartialEq, Eq, Structural)]
pub struct GpuCar {
    pub pos_x: i64,
    pub pos_y: i64,
    pub vel_x: i64,
    pub vel_y: i64,
    pub acc_x: i64,
    pub acc_y: i64,
    pub heading: i64,
    pub lane_angle: i64,
    pub length: i64,
    pub width: i64,
    pub max_accel: i64,
    pub max_decel: i64,
    pub preferred_speed: i64,
    pub current_lane: u32,
    pub target_lane: u32,
    pub lane_change_progress: i64,
    pub following_distance_factor: i64,
    pub target_speed: i64,
    pub reaction_time: i64,
    pub last_lane_change_time: i64,
}

impl GpuCar {
    /// The value that `speed` computes.
    pub open spec fn speed_value(&self) -> i64 {
        hypot(self.vel_x, self.vel_y)
    }

    /// The scalar speed of the car.
    #[verifier::when_used_as_spec(speed_value)]
    pub fn speed(&self) -> (r: i64)
        ensures
            r == self.speed_value(),
            0 <= r <= LIMIT,
    {
        hypot(self.vel_x, self.vel_y)
    }
}

/// Where a car is and how it moves after a step.
#[derive(Debug, Clone, Copy, PartialEq, Eq, Structural)]
pub struct Motion {
    pub pos_x: i64,
    pub pos_y: i64,
    pub vel_x: i64,
    pub vel_y: i64,
    pub lane_angle: i64,
    pub heading: i64,
}

/// The value that `get_lane_radius` computes.
pub open spec fn lane_radius_value(lane: u32, p: &RouteParams) -> i64 {
    sat_add(
        sat_add(p.inner_radius, mul_div(p.lane_width, 1, 2)),
        mul_div((lane - 1) as i64, p.lane_width, 1),
    )
}

/// Radius of the middle of a lane of the circular road.
#[verifier::when_used_as_spec(lane_radius_value)]
pub fn get_lane_radius(lane: u32, p: &RouteParams) -> (r: i64)
    ensures
        r == lane_radius_value(lane, p),
{
    sat_add(
        sat_add(p.inner_radius, mul_div(p.lane_width, 1, 2)),
        mul_div(lane as i64 - 1, p.lane_width, 1),
    )
}

/// The value that `get_target_radius` computes.
pub open spec fn target_radius_value(c: &GpuCar, p: &RouteParams) -> i64 {
    if c.target_lane != 0 {
        get_lane_radius(c.target_lane, p)
    } else {
        get_lane_radius(c.current_lane, p)
    }
}

/// Radius of the lane the car is heading for.
#[verifier::when_used_as_spec(target_radius_value)]
pub fn get_target_radius(c: &GpuCar, p: &RouteParams) -> (r: i64)
    ensures
        r == target_radius_value(c, p),
{
    if c.target_lane != 0 {
        get_lane_radius(c.target_lane, p)
    } else {
        get_lane_radius(c.current_lane, p)
    }
}

/// The value that `calculate_following_distance` computes.
pub open spec fn following_distance_value(c: &GpuCar, p: &RouteParams) -> i64 {
    sat_add(
        fx_mul(fx_mul(p.following_distance, c.speed()), c.following_distance_factor),
        p.safety_margin,
    )
}

/// The gap a driver keeps: the headway at the current speed, scaled by
/// the driver's factor, plus the safety margin.
#[verifier::when_used_as_spec(following_distance_value)]
pub fn calculate_following_distance(c: &GpuCar, p: &RouteParams) -> (r: i64)
    ensures
        r == following_distance_value(c, p),
{
    sat_add(
        fx_mul(fx_mul(p.following_distance, c.speed()), c.following_distance_factor),
        p.safety_margin,
    )
}

/// The value that `radius_from_center` computes.
pub open spec fn radius_from_center_value(c: &GpuCar, p: &RouteParams) -> i64 {
    hypot(sat_sub(c.pos_x, p.center_x), sat_sub(c.pos_y, p.center_y))
}

/// Distance of the car from the centre of the circular road.
#[verifier::when_used_as_spec(radius_from_center_value)]
pub fn radius_from_center(c: &GpuCar, p: &RouteParams) -> (r: i64)
    ensures
        r == radius_from_center_value(c, p),
{
    hypot(sat_sub(c.pos_x, p.center_x), sat_sub(c.pos_y, p.center_y))
}

/// Whether `o` drives in the lane of `c` or in the lane `c` is moving to.
pub open spec fn shares_lane(c: &GpuCar, o: &GpuCar) -> bool {
    o.current_lane == c.current_lane || (c.target_lane != 0 && o.current_lane == c.target_lane)
}

/// The value that `arc_gap` computes.
pub open spec fn arc_gap_value(c: &GpuCar, o: &GpuCar, p: &RouteParams) -> Option<i64> {
    let diff = wrap_angle(sat_sub(o.lane_angle, c.lane_angle));
    if shares_lane(c, o) && 0 < diff && diff < PI {
        Some(fx_mul(diff, radius_from_center(c, p)))
    } else {
        None
    }
}

/// Arc length from `c` forward to `o` on the circular road, where `o`
/// shares a lane with `c` and is less than half a turn ahead.
#[verifier::when_used_as_spec(arc_gap_value)]
pub fn arc_gap(c: &GpuCar, o: &GpuCar, p: &RouteParams) -> (r: Option<i64>)
    ensures
        r == arc_gap_value(c, o, p),
{
    if o.current_lane != c.current_lane && (c.target_lane == 0 || o.current_lane
        != c.target_lane) {
        return None;
    }
    let diff: i64 = wrap_angle(sat_sub(o.lane_angle, c.lane_angle));
    if 0 < diff && diff < PI {
        Some(fx_mul(diff, radius_from_center(c, p)))
    } else {
        None
    }
}

/// Whether the displacement `(dx, dy)` points into the half plane of the
/// direction `(ux, uy)`.
pub open spec fn points_along_value(dx: i64, dy: i64, ux: i64, uy: i64) -> bool {
    dx * ux + dy * uy > 0
}

#[verifier::when_used_as_spec(points_along_value)]
pub fn points_along(dx: i64, dy: i64, ux: i64, uy: i64) -> (r: bool)
    ensures
        r == points_along_value(dx, dy, ux, uy),
{
    proof {
        lemma_product_fits(dx as int, ux as int);
        lemma_product_fits(dy as int, uy as int);
    }
    let a: i128 = (dx as i128) * (ux as i128);
    let b: i128 = (dy as i128) * (uy as i128);
    if a > 0 && b > 0 {
        true
    } else if a <= 0 && b <= 0 {
        false
    } else {
        a + b > 0
    }
}

/// The value that `straight_gap` computes.
pub open spec fn straight_gap_value(c: &GpuCar, o: &GpuCar) -> Option<i64> {
    let moving = c.speed() > STANDING_SPEED;
    let ux = if moving {
        c.vel_x
    } else {
        SCALE
    };
    let uy = if moving {
        c.vel_y
    } else {
        0
    };
    let dx = sat_sub(o.pos_x, c.pos_x);
    let dy = sat_sub(o.pos_y, c.pos_y);
    if shares_lane(c, o) && points_along(dx, dy, ux, uy) {
        Some(hypot(dx, dy))
    } else {
        None
    }
}

/// Distance from `c` to `o` on a straight segment, where `o` shares a
/// lane with `c` and lies ahead of it. A standing car looks east.
#[verifier::when_used_as_spec(straight_gap_value)]
pub fn straight_gap(c: &GpuCar, o: &GpuCar) -> (r: Option<i64>)
    ensures
        r == straight_gap_value(c, o),
{
    if o.current_lane != c.current_lane && (c.target_lane == 0 || o.current_lane
        != c.target_lane) {
        return None;
    }
    let moving = c.speed() > STANDING_SPEED;
    let ux: i64 = if moving {
        c.vel_x
    } else {
        SCALE
    };
    let uy: i64 = if moving {
        c.vel_y
    } else {
        0
    };
    let dx: i64 = sat_sub(o.pos_x, c.pos_x);
    let dy: i64 = sat_sub(o.pos_y, c.pos_y);
    if points_along(dx, dy, ux, uy) {
        Some(hypot(dx, dy))
    } else {
        None
    }
}

/// The value that `gap_ahead` computes.
pub open spec fn gap_ahead_value(c: &GpuCar, o: &GpuCar, p: &RouteParams) -> Option<i64> {
    match p.kind {
        GeometryKind::Donut => arc_gap(c, o, p),
        GeometryKind::Cloverleaf => straight_gap(c, o),
    }
}

/// The gap from `c` forward to `o` along the lane, if `o` shares a lane
/// with `c` and is ahead of it: an arc on the circular road, a straight
/// line on the interchange.
#[verifier::when_used_as_spec(gap_ahead_value)]
pub fn gap_ahead(c: &GpuCar, o: &GpuCar, p: &RouteParams) -> (r: Option<i64>)
    ensures
        r == gap_ahead_value(c, o, p),
{
    match p.kind {
        GeometryKind::Donut => arc_gap(c, o, p),
        GeometryKind::Cloverleaf => straight_gap(c, o),
    }
}

/// The gap from car `i` to car `k` of the snapshot; none to itself.
pub open spec fn gap_between(cars: Seq<GpuCar>, i: int, k: int, p: &RouteParams) -> Option<i64> {
    if k == i {
        None
    } else {
        gap_ahead(&cars[i], &cars[k], p)
    }
}

/// The better of the best lead so far and car `k` at `gap`: the nearer
/// one, and the earlier one where both are equally near.
pub open spec fn nearer(best: Option<(usize, i64)>, k: usize, gap: Option<i64>) -> Option<
    (usize, i64),
> {
    match gap {
        None => best,
        Some(d) => match best {
            None => Some((k, d)),
            Some((bk, bd)) => if d < bd {
                Some((k, d))
            } else {
                best
            },
        },
    }
}

/// The nearest car ahead of car `i` among the first `n` cars of the
/// snapshot, with its gap.
pub open spec fn nearest_ahead(cars: Seq<GpuCar>, i: int, p: &RouteParams, n: int) -> Option<
    (usize, i64),
>
    decreases n,
{
    if n <= 0 {
        None
    } else {
        nearer(nearest_ahead(cars, i, p, n - 1), (n - 1) as usize, gap_between(cars, i, n - 1, p))
    }
}

/// The nearest car ahead is a car ahead, and no car ahead is nearer.
pub proof fn lemma_nearest_ahead(cars: Seq<GpuCar>, i: int, p: &RouteParams, n: int)
    requires
        0 <= n <= cars.len(),
        cars.len() <= usize::MAX,
    ensures
        match nearest_ahead(cars, i, p, n) {
            Some((k, d)) => {
                &&& 0 <= k < n
                &&& k != i
                &&& gap_between(cars, i, k as int, p) == Some(d)
                &&& forall|j: int|
                    0 <= j < n ==> match #[trigger] gap_between(cars, i, j, p) {
                        Some(e) => d <= e,
                        None => true,
                    }
            },
            None => forall|j: int| 0 <= j < n ==> (#[trigger] gap_between(cars, i, j, p)) is None,
        },
    decreases n,
{
    if n > 0 {
        lemma_nearest_ahead(cars, i, p, n - 1);
    }
}

/// Finds the nearest car ahead of car `i` among the first `count`
/// records of the snapshot.
pub fn find_front_car(cars: &Vec<GpuCar>, count: usize, i: usize, p: &RouteParams) -> (r: Option<
    (usize, i64),
>)
    requires
        i < count <= cars.len(),
    ensures
        r == nearest_ahead(cars@, i as int, p, count as int),
        match r {
            Some((k, d)) => k < count && k != i,
            None => true,
        },
{
    let mut best: Option<(usize, i64)> = None;
    let mut j: usize = 0;
    while j < count
        invariant
            j <= count,
            i < count <= cars.len(),
            best == nearest_ahead(cars@, i as int, p, j as int),
            match best {
                Some((k, d)) => k < j && k != i,
                None => true,
            },
        decreases count - j,
    {
        if j != i {
            match gap_ahead(&cars[i], &cars[j], p) {
                Some(d) => {
                    match best {
                        None => {
                            best = Some((j, d));
                        },
                        Some((_, bd)) => {
                            if d < bd {
                                best = Some((j, d));
                            }
                        },
                    }
                },
                None => {},
            }
        }
        j += 1;
    }
    best
}

/// The value that `free_flow` computes.
pub open spec fn free_flow_value(desired: i64, p: &RouteParams) -> i64 {
    fx_clamp(desired, p.min_speed, p.speed_limit)
}

/// The desired speed held within the speed limits of the road.
#[verifier::when_used_as_spec(free_flow_value)]
pub fn free_flow(desired: i64, p: &RouteParams) -> (r: i64)
    ensures
        r == free_flow_value(desired, p),
{
    fx_clamp(desired, p.min_speed, p.speed_limit)
}

/// The value that `shaped_speed` computes.
pub open spec fn shaped_speed_value(
    desired: i64,
    gap: i64,
    lead_speed: i64,
    following: i64,
    p: &RouteParams,
) -> i64 {
    if gap < p.emergency_brake_distance {
        0
    } else if gap < p.warning_distance {
        mul_div(
            desired,
            sat_sub(gap, p.emergency_brake_distance),
            sat_sub(p.warning_distance, p.emergency_brake_distance),
        )
    } else if gap < following {
        fx_min(lead_speed, desired)
    } else {
        free_flow(desired, p)
    }
}

/// The speed to aim for behind a lead car at `gap`: zero inside the
/// emergency distance, a linear share of the desired speed across the
/// warning band, at most the lead car's speed inside the following
/// distance, the free-flow speed beyond it.
#[verifier::when_used_as_spec(shaped_speed_value)]
pub fn shaped_speed(desired: i64, gap: i64, lead_speed: i64, following: i64, p: &RouteParams) -> (r:
    i64)
    requires
        p.wf(),
    ensures
        r == shaped_speed_value(desired, gap, lead_speed, following, p),
        gap < p.emergency_brake_distance ==> r == 0,
{
    if gap < p.emergency_brake_distance {
        0
    } else if gap < p.warning_distance {
        mul_div(
            desired,
            sat_sub(gap, p.emergency_brake_distance),
            sat_sub(p.warning_distance, p.emergency_brake_distance),
        )
    } else if gap < following {
        fx_min(lead_speed, desired)
    } else {
        free_flow(desired, p)
    }
}

/// The target speed of car `i`: its desired speed, shaped by the nearest
/// car ahead among the first `count` records.
pub open spec fn target_speed_of(cars: Seq<GpuCar>, count: int, i: int, p: &RouteParams) -> i64 {
    let c = cars[i];
    match nearest_ahead(cars, i, p, count) {
        None => free_flow(c.target_speed, p),
        Some((k, gap)) => shaped_speed(
            c.target_speed,
            gap,
            cars[k as int].speed(),
            calculate_following_distance(&c, p),
            p,
        ),
    }
}

/// Computes the target speed of car `i` from the snapshot.
pub fn kernel_target_speed(cars: &Vec<GpuCar>, count: usize, i: usize, p: &RouteParams) -> (r: i64)
    requires
        i < count <= cars.len(),
        p.wf(),
    ensures
        r == target_speed_of(cars@, count as int, i as int, p),
{
    let c = &cars[i];
    match find_front_car(cars, count, i, p) {
        None => free_flow(c.target_speed, p),
        Some((k, gap)) => shaped_speed(
            c.target_speed,
            gap,
            cars[k].speed(),
            calculate_following_distance(c, p),
            p,
        ),
    }
}

/// The value that `achievable_acceleration` computes.
pub open spec fn achievable_acceleration_value(
    target: i64,
    current: i64,
    dt: i64,
    max_accel: i64,
    max_decel: i64,
) -> i64 {
    let diff = sat_sub(target, current);
    let wanted = fx_div(diff, dt);
    if diff > 0 {
        fx_min(wanted, max_accel)
    } else {
        fx_max(wanted, sat_sub(0, max_decel))
    }
}

/// The acceleration that closes the gap to the target speed within one
/// tick, held within the car's acceleration and deceleration bounds.
#[verifier::when_used_as_spec(achievable_acceleration_value)]
pub fn achievable_acceleration(
    target: i64,
    current: i64,
    dt: i64,
    max_accel: i64,
    max_decel: i64,
) -> (r: i64)
    requires
        dt != 0,
    ensures
        r == achievable_acceleration_value(target, current, dt, max_accel, max_decel),
{
    let diff: i64 = sat_sub(target, current);
    let wanted: i64 = fx_div(diff, dt);
    if diff > 0 {
        fx_min(wanted, max_accel)
    } else {
        fx_max(wanted, sat_sub(0, max_decel))
    }
}

/// The value that `next_speed` computes.
pub open spec fn next_speed_value(
    target: i64,
    current: i64,
    dt: i64,
    max_accel: i64,
    max_decel: i64,
) -> i64 {
    let accel = achievable_acceleration(target, current, dt, max_accel, max_decel);
    if accel == fx_div(sat_sub(target, current), dt) {
        fx_max(0, target)
    } else {
        fx_max(0, sat_add(current, fx_mul(accel, dt)))
    }
}

/// The speed after one tick: the target where the bounds allow reaching
/// it, else the current speed changed by the bounded acceleration; never
/// negative.
#[verifier::when_used_as_spec(next_speed_value)]
pub fn next_speed(target: i64, current: i64, dt: i64, max_accel: i64, max_decel: i64) -> (r: i64)
    requires
        dt != 0,
    ensures
        r == next_speed_value(target, current, dt, max_accel, max_decel),
        r >= 0,
{
    let accel: i64 = achievable_acceleration(target, current, dt, max_accel, max_decel);
    if accel == fx_div(sat_sub(target, current), dt) {
        fx_max(0, target)
    } else {
        fx_max(0, sat_add(current, fx_mul(accel, dt)))
    }
}

/// The value that `progress_step` computes.
pub open spec fn progress_step_value(c: &GpuCar, p: &RouteParams, dt: i64) -> i64 {
    if c.target_lane != 0 {
        fx_min(sat_add(c.lane_change_progress, fx_div(dt, p.lane_change_time)), SCALE)
    } else {
        c.lane_change_progress
    }
}

/// The lane change progress after one tick, before a finished change is
/// taken over.
#[verifier::when_used_as_spec(progress_step_value)]
pub fn progress_step(c: &GpuCar, p: &RouteParams, dt: i64) -> (r: i64)
    requires
        p.wf(),
    ensures
        r == progress_step_value(c, p, dt),
        c.target_lane != 0 ==> r <= SCALE,
        c.target_lane != 0 && dt >= 0 && c.lane_change_progress >= 0 ==> r >= 0,
        c.target_lane == 0 ==> r == c.lane_change_progress,
{
    if c.target_lane != 0 {
        let step: i64 = fx_div(dt, p.lane_change_time);
        proof {
            if dt >= 0 {
                assert(dt * SCALE >= 0) by (nonlinear_arith)
                    requires
                        dt >= 0,
                ;
                assert((dt * SCALE) / (p.lane_change_time as int) >= 0) by (nonlinear_arith)
                    requires
                        dt * SCALE >= 0,
                        p.lane_change_time > 0,
                ;
            }
        }
        fx_min(sat_add(c.lane_change_progress, step), SCALE)
    } else {
        c.lane_change_progress
    }
}

/// The value that `blend` computes.
pub open spec fn blend_value(from: i64, to: i64, progress: i64) -> i64 {
    sat_add(from, fx_mul(sat_sub(to, from), progress))
}

/// The value `progress` of the way from `from` to `to`.
#[verifier::when_used_as_spec(blend_value)]
pub fn blend(from: i64, to: i64, progress: i64) -> (r: i64)
    ensures
        r == blend_value(from, to, progress),
{
    sat_add(from, fx_mul(sat_sub(to, from), progress))
}

/// The value that `effective_radius` computes.
pub open spec fn effective_radius_value(c: &GpuCar, progress: i64, p: &RouteParams) -> i64 {
    if c.target_lane != 0 {
        blend(get_lane_radius(c.current_lane, p), get_lane_radius(c.target_lane, p), progress)
    } else {
        get_lane_radius(c.current_lane, p)
    }
}

/// The radius a car drives on: that of its lane, or during a lane change
/// the blend of the two lane radii.
#[verifier::when_used_as_spec(effective_radius_value)]
pub fn effective_radius(c: &GpuCar, progress: i64, p: &RouteParams) -> (r: i64)
    ensures
        r == effective_radius_value(c, progress, p),
{
    if c.target_lane != 0 {
        blend(get_lane_radius(c.current_lane, p), get_lane_radius(c.target_lane, p), progress)
    } else {
        get_lane_radius(c.current_lane, p)
    }
}

/// The value that `radial_speed` computes.
pub open spec fn radial_speed_value(c: &GpuCar, p: &RouteParams) -> i64 {
    if c.target_lane != 0 {
        fx_div(sat_sub(get_target_radius(c, p), radius_from_center(c, p)), p.lane_change_time)
    } else {
        0
    }
}

/// Outward speed of a car that changes lanes on the circular road.
#[verifier::when_used_as_spec(radial_speed_value)]
pub fn radial_speed(c: &GpuCar, p: &RouteParams) -> (r: i64)
    requires
        p.wf(),
    ensures
        r == radial_speed_value(c, p),
{
    if c.target_lane != 0 {
        fx_div(sat_sub(get_target_radius(c, p), radius_from_center(c, p)), p.lane_change_time)
    } else {
        0
    }
}

/// The value that `signed_angle` computes.
pub open spec fn signed_angle_value(a: i64) -> i64 {
    let w = wrap_angle(a);
    if w > PI {
        (w - TWO_PI) as i64
    } else {
        w
    }
}

/// The angle brought into `(-PI, PI]`.
#[verifier::when_used_as_spec(signed_angle_value)]
pub fn signed_angle(a: i64) -> (r: i64)
    ensures
        r == signed_angle_value(a),
        -PI <= r <= PI,
{
    let w: i64 = wrap_angle(a);
    if w > PI {
        w - TWO_PI
    } else {
        w
    }
}

/// The value that `direction` computes.
pub open spec fn direction_value(vx: i64, vy: i64, tangent: i64) -> i64 {
    if vx == 0 && vy == 0 {
        signed_angle(tangent)
    } else {
        atan2_fx(vy, vx)
    }
}

/// The heading of a car: the direction of its velocity, or the tangent
/// of its lane where it stands still.
#[verifier::when_used_as_spec(direction_value)]
pub fn direction(vx: i64, vy: i64, tangent: i64) -> (r: i64)
    ensures
        r == direction_value(vx, vy, tangent),
        -PI <= r <= PI,
{
    if vx == 0 && vy == 0 {
        signed_angle(tangent)
    } else {
        atan2_fx(vy, vx)
    }
}

/// The value that `stretch` computes.
pub open spec fn stretch_value(ux: i64, uy: i64, length: i64) -> (i64, i64) {
    let mag = hypot(ux, uy);
    if mag == 0 {
        (0, 0)
    } else {
        (mul_div(ux, length, mag), mul_div(uy, length, mag))
    }
}

/// The vector of the given length in the direction of `(ux, uy)`; the
/// zero vector where that is the zero vector.
#[verifier::when_used_as_spec(stretch_value)]
pub fn stretch(ux: i64, uy: i64, length: i64) -> (r: (i64, i64))
    ensures
        r == stretch_value(ux, uy, length),
{
    let mag: i64 = hypot(ux, uy);
    if mag == 0 {
        (0, 0)
    } else {
        (mul_div(ux, length, mag), mul_div(uy, length, mag))
    }
}

/// The value that `calculate_donut_update` computes.
pub open spec fn donut_motion_value(
    c: &GpuCar,
    speed: i64,
    progress: i64,
    p: &RouteParams,
    dt: i64,
) -> Motion {
    let radius = effective_radius(c, progress, p);
    let omega = fx_div(speed, fx_max(radius, SCALE));
    let angle = wrap_angle(sat_add(c.lane_angle, fx_mul(omega, dt)));
    let cos = cos_fx(angle);
    let sin = sin_fx(angle);
    let place = stretch(cos, sin, radius);
    let along = stretch((-sin) as i64, cos, speed);
    let across = stretch(cos, sin, radial_speed(c, p));
    let vx = sat_add(along.0, across.0);
    let vy = sat_add(along.1, across.1);
    Motion {
        pos_x: sat_add(p.center_x, place.0),
        pos_y: sat_add(p.center_y, place.1),
        vel_x: vx,
        vel_y: vy,
        lane_angle: angle,
        heading: direction(vx, vy, sat_add(angle, HALF_PI)),
    }
}

/// One tick on the circular road: the angular position advances by the
/// tangential speed over the radius, counter-clockwise; the position
/// lies on the effective radius; the velocity has that speed along the
/// tangent, with a radial part during a lane change. The speed is the
/// car's speed after the tick, within its acceleration bounds.
#[verifier::when_used_as_spec(donut_motion_value)]
pub fn calculate_donut_update(
    c: &GpuCar,
    speed: i64,
    progress: i64,
    p: &RouteParams,
    dt: i64,
) -> (r: Motion)
    requires
        p.wf(),
    ensures
        r == donut_motion_value(c, speed, progress, p, dt),
{
    let radius: i64 = effective_radius(c, progress, p);
    let omega: i64 = fx_div(speed, fx_max(radius, SCALE));
    let angle: i64 = wrap_angle(sat_add(c.lane_angle, fx_mul(omega, dt)));
    let cos: i64 = cos_fx(angle);
    let sin: i64 = sin_fx(angle);
    let place = stretch(cos, sin, radius);
    let along = stretch(-sin, cos, speed);
    let across = stretch(cos, sin, radial_speed(c, p));
    let vx: i64 = sat_add(along.0, across.0);
    let vy: i64 = sat_add(along.1, across.1);
    Motion {
        pos_x: sat_add(p.center_x, place.0),
        pos_y: sat_add(p.center_y, place.1),
        vel_x: vx,
        vel_y: vy,
        lane_angle: angle,
        heading: direction(vx, vy, sat_add(angle, HALF_PI)),
    }
}

/// The value that `lane_separation` computes.
pub open spec fn lane_separation_value(p: &RouteParams) -> i64 {
    sat_add(mul_div(p.highway_width, 1, 2), MEDIAN_GAP)
}

/// Distance of the middle lane of each direction from the highway axis.
#[verifier::when_used_as_spec(lane_separation_value)]
pub fn lane_separation(p: &RouteParams) -> (r: i64)
    ensures
        r == lane_separation_value(p),
{
    sat_add(mul_div(p.highway_width, 1, 2), MEDIAN_GAP)
}

/// The value that `lateral_offset` computes.
pub open spec fn lateral_offset_value(lane: u32, p: &RouteParams) -> i64 {
    let sep = lane_separation(p);
    if lane <= 3 {
        sat_add(sat_sub(0, sep), mul_div((lane - 2) as i64, p.lane_width, 1))
    } else if lane <= 6 {
        sat_add(sep, mul_div((lane - 5) as i64, p.lane_width, 1))
    } else if lane <= 9 {
        sat_add(sep, mul_div((lane - 8) as i64, p.lane_width, 1))
    } else {
        sat_add(sat_sub(0, sep), mul_div((lane - 11) as i64, p.lane_width, 1))
    }
}

/// The fixed coordinate of a straight lane across its direction of
/// travel: lanes 1 to 3 run south on the west side, 4 to 6 north on the
/// east side, 7 to 9 west on the north side, 10 to 12 east on the south
/// side.
#[verifier::when_used_as_spec(lateral_offset_value)]
pub fn lateral_offset(lane: u32, p: &RouteParams) -> (r: i64)
    ensures
        r == lateral_offset_value(lane, p),
{
    let sep: i64 = lane_separation(p);
    if lane <= 3 {
        sat_add(sat_sub(0, sep), mul_div(lane as i64 - 2, p.lane_width, 1))
    } else if lane <= 6 {
        sat_add(sep, mul_div(lane as i64 - 5, p.lane_width, 1))
    } else if lane <= 9 {
        sat_add(sep, mul_div(lane as i64 - 8, p.lane_width, 1))
    } else {
        sat_add(sat_sub(0, sep), mul_div(lane as i64 - 11, p.lane_width, 1))
    }
}

/// The value that `straight_motion` computes.
pub open spec fn straight_motion_value(
    c: &GpuCar,
    speed: i64,
    progress: i64,
    p: &RouteParams,
    dt: i64,
) -> Motion {
    let side = if c.target_lane != 0 {
        blend(lateral_offset(c.current_lane, p), lateral_offset(c.target_lane, p), progress)
    } else {
        lateral_offset(c.current_lane, p)
    };
    let step = fx_mul(speed, dt);
    if c.current_lane <= 3 {
        Motion {
            pos_x: side,
            pos_y: sat_sub(c.pos_y, step),
            vel_x: 0,
            vel_y: sat_sub(0, speed),
            lane_angle: c.lane_angle,
            heading: (-HALF_PI) as i64,
        }
    } else if c.current_lane <= 6 {
        Motion {
            pos_x: side,
            pos_y: sat_add(c.pos_y, step),
            vel_x: 0,
            vel_y: speed,
            lane_angle: c.lane_angle,
            heading: HALF_PI,
        }
    } else if c.current_lane <= 9 {
        Motion {
            pos_x: sat_sub(c.pos_x, step),
            pos_y: side,
            vel_x: sat_sub(0, speed),
            vel_y: 0,
            lane_angle: c.lane_angle,
            heading: PI,
        }
    } else {
        Motion {
            pos_x: sat_add(c.pos_x, step),
            pos_y: side,
            vel_x: speed,
            vel_y: 0,
            lane_angle: c.lane_angle,
            heading: 0,
        }
    }
}

/// One tick on a straight highway lane: the car advances at its speed
/// along the cardinal axis of its lane and keeps the lane's fixed
/// coordinate, or during a lane change the blend of the two lanes'
/// coordinates.
#[verifier::when_used_as_spec(straight_motion_value)]
pub fn straight_motion(
    c: &GpuCar,
    speed: i64,
    progress: i64,
    p: &RouteParams,
    dt: i64,
) -> (r: Motion)
    ensures
        r == straight_motion_value(c, speed, progress, p, dt),
{
    let side: i64 = if c.target_lane != 0 {
        blend(lateral_offset(c.current_lane, p), lateral_offset(c.target_lane, p), progress)
    } else {
        lateral_offset(c.current_lane, p)
    };
    let step: i64 = fx_mul(speed, dt);
    if c.current_lane <= 3 {
        Motion {
            pos_x: side,
            pos_y: sat_sub(c.pos_y, step),
            vel_x: 0,
            vel_y: sat_sub(0, speed),
            lane_angle: c.lane_angle,
            heading: -HALF_PI,
        }
    } else if c.current_lane <= 6 {
        Motion {
            pos_x: side,
            pos_y: sat_add(c.pos_y, step),
            vel_x: 0,
            vel_y: speed,
            lane_angle: c.lane_angle,
            heading: HALF_PI,
        }
    } else if c.current_lane <= 9 {
        Motion {
            pos_x: sat_sub(c.pos_x, step),
            pos_y: side,
            vel_x: sat_sub(0, speed),
            vel_y: 0,
            lane_angle: c.lane_angle,
            heading: PI,
        }
    } else {
        Motion {
            pos_x: sat_add(c.pos_x, step),
            pos_y: side,
            vel_x: speed,
            vel_y: 0,
            lane_angle: c.lane_angle,
            heading: 0,
        }
    }
}

/// The value that `loop_offset` computes.
pub open spec fn loop_offset_value(p: &RouteParams) -> i64 {
    sat_add(mul_div(p.highway_width, 1, 2), p.loop_radius)
}

/// Distance of each loop ramp centre from both highway axes.
#[verifier::when_used_as_spec(loop_offset_value)]
pub fn loop_offset(p: &RouteParams) -> (r: i64)
    ensures
        r == loop_offset_value(p),
{
    sat_add(mul_div(p.highway_width, 1, 2), p.loop_radius)
}

/// The centre of a loop ramp: 0 north-east, 1 south-east, 2 south-west,
/// 3 north-west.
pub open spec fn ramp_center_value(index: u32, p: &RouteParams) -> (i64, i64) {
    let off = loop_offset(p);
    let neg = sat_sub(0, off);
    if index == 0 {
        (off, off)
    } else if index == 1 {
        (off, neg)
    } else if index == 2 {
        (neg, neg)
    } else {
        (neg, off)
    }
}

#[verifier::when_used_as_spec(ramp_center_value)]
pub fn ramp_center(index: u32, p: &RouteParams) -> (r: (i64, i64))
    ensures
        r == ramp_center_value(index, p),
{
    let off: i64 = loop_offset(p);
    let neg: i64 = sat_sub(0, off);
    if index == 0 {
        (off, off)
    } else if index == 1 {
        (off, neg)
    } else if index == 2 {
        (neg, neg)
    } else {
        (neg, off)
    }
}

/// The value that `ramp_distance` computes.
pub open spec fn ramp_distance_value(c: &GpuCar, index: u32, p: &RouteParams) -> i64 {
    let center = ramp_center(index, p);
    hypot(sat_sub(c.pos_x, center.0), sat_sub(c.pos_y, center.1))
}

/// Distance of a car from the centre of a loop ramp.
#[verifier::when_used_as_spec(ramp_distance_value)]
pub fn ramp_distance(c: &GpuCar, index: u32, p: &RouteParams) -> (r: i64)
    ensures
        r == ramp_distance_value(c, index, p),
{
    let center = ramp_center(index, p);
    hypot(sat_sub(c.pos_x, center.0), sat_sub(c.pos_y, center.1))
}

/// The value that `closest_ramp` computes.
pub open spec fn closest_ramp_value(c: &GpuCar, p: &RouteParams) -> u32 {
    let d0 = ramp_distance(c, 0, p);
    let d1 = ramp_distance(c, 1, p);
    let d2 = ramp_distance(c, 2, p);
    let d3 = ramp_distance(c, 3, p);
    let first = if d1 < d0 {
        1u32
    } else {
        0u32
    };
    let first_d = if d1 < d0 {
        d1
    } else {
        d0
    };
    let second = if d2 < first_d {
        2u32
    } else {
        first
    };
    let second_d = if d2 < first_d {
        d2
    } else {
        first_d
    };
    if d3 < second_d {
        3u32
    } else {
        second
    }
}

/// The loop ramp whose centre is closest to the car; the earlier one
/// where two are equally close.
#[verifier::when_used_as_spec(closest_ramp_value)]
pub fn closest_ramp(c: &GpuCar, p: &RouteParams) -> (r: u32)
    ensures
        r == closest_ramp_value(c, p),
        r <= 3,
        forall|k: u32| k <= 3 ==> ramp_distance(c, r, p) <= #[trigger] ramp_distance(c, k, p),
        forall|k: u32| k < r ==> ramp_distance(c, r, p) < #[trigger] ramp_distance(c, k, p),
{
    let d0: i64 = ramp_distance(c, 0, p);
    let d1: i64 = ramp_distance(c, 1, p);
    let d2: i64 = ramp_distance(c, 2, p);
    let d3: i64 = ramp_distance(c, 3, p);
    let mut best: u32 = 0;
    let mut best_d: i64 = d0;
    if d1 < best_d {
        best = 1;
        best_d = d1;
    }
    if d2 < best_d {
        best = 2;
        best_d = d2;
    }
    if d3 < best_d {
        best = 3;
    }
    best
}

/// The value that `calculate_curved_ramp_path` computes.
pub open spec fn ramp_motion_value(
    c: &GpuCar,
    speed: i64,
    p: &RouteParams,
    dt: i64,
) -> Motion {
    let index = closest_ramp(c, p);
    let center = ramp_center(index, p);
    let radius = fx_max(ramp_distance(c, index, p), SCALE);
    let omega = sat_sub(0, fx_div(speed, radius));
    let angle = wrap_angle(sat_add(c.lane_angle, fx_mul(omega, dt)));
    let tangent = sat_sub(angle, HALF_PI);
    let place = stretch(cos_fx(angle), sin_fx(angle), radius);
    let along = stretch(cos_fx(tangent), sin_fx(tangent), speed);
    Motion {
        pos_x: sat_add(center.0, place.0),
        pos_y: sat_add(center.1, place.1),
        vel_x: along.0,
        vel_y: along.1,
        lane_angle: angle,
        heading: direction(along.0, along.1, tangent),
    }
}

/// One tick on a loop ramp: the car turns clockwise at its speed around
/// the centre of the closest ramp, at its current distance from that
/// centre (at least one metre); the velocity lies along the tangent.
#[verifier::when_used_as_spec(ramp_motion_value)]
pub fn calculate_curved_ramp_path(c: &GpuCar, speed: i64, p: &RouteParams, dt: i64) -> (r: Motion)
    ensures
        r == ramp_motion_value(c, speed, p, dt),
{
    let index: u32 = closest_ramp(c, p);
    let center = ramp_center(index, p);
    let radius: i64 = fx_max(ramp_distance(c, index, p), SCALE);
    let omega: i64 = sat_sub(0, fx_div(speed, radius));
    let angle: i64 = wrap_angle(sat_add(c.lane_angle, fx_mul(omega, dt)));
    let tangent: i64 = sat_sub(angle, HALF_PI);
    let place = stretch(cos_fx(angle), sin_fx(angle), radius);
    let along = stretch(cos_fx(tangent), sin_fx(tangent), speed);
    Motion {
        pos_x: sat_add(center.0, place.0),
        pos_y: sat_add(center.1, place.1),
        vel_x: along.0,
        vel_y: along.1,
        lane_angle: angle,
        heading: direction(along.0, along.1, tangent),
    }
}

/// The value that `calculate_cloverleaf_path` computes.
pub open spec fn cloverleaf_motion_value(
    c: &GpuCar,
    speed: i64,
    progress: i64,
    p: &RouteParams,
    dt: i64,
) -> Motion {
    if c.current_lane <= LAST_STRAIGHT_LANE {
        straight_motion(c, speed, progress, p, dt)
    } else {
        calculate_curved_ramp_path(c, speed, p, dt)
    }
}

/// One tick on the interchange: lanes 1 to 12 are straight highway
/// lanes, higher lane numbers are loop ramps. As on the circular road,
/// the target speed is the driver's desired speed shaped by the car
/// ahead: a car that has just entered from a ramp is not treated
/// differently by driver profile.
#[verifier::when_used_as_spec(cloverleaf_motion_value)]
pub fn calculate_cloverleaf_path(
    c: &GpuCar,
    speed: i64,
    progress: i64,
    p: &RouteParams,
    dt: i64,
) -> (r: Motion)
    ensures
        r == cloverleaf_motion_value(c, speed, progress, p, dt),
{
    if c.current_lane <= LAST_STRAIGHT_LANE {
        straight_motion(c, speed, progress, p, dt)
    } else {
        calculate_curved_ramp_path(c, speed, p, dt)
    }
}

/// The value that `settle` computes.
pub open spec fn settle_value(c: &GpuCar, m: Motion, progress: i64, dt: i64) -> GpuCar {
    let done = c.target_lane != 0 && progress >= SCALE;
    GpuCar {
        pos_x: m.pos_x,
        pos_y: m.pos_y,
        vel_x: m.vel_x,
        vel_y: m.vel_y,
        acc_x: if dt > 0 {
            fx_div(sat_sub(m.vel_x, c.vel_x), dt)
        } else {
            0
        },
        acc_y: if dt > 0 {
            fx_div(sat_sub(m.vel_y, c.vel_y), dt)
        } else {
            0
        },
        heading: m.heading,
        lane_angle: m.lane_angle,
        current_lane: if done {
            c.target_lane
        } else {
            c.current_lane
        },
        target_lane: if done {
            0
        } else {
            c.target_lane
        },
        lane_change_progress: if done {
            0
        } else {
            progress
        },
        ..*c
    }
}

/// The record after a step: the motion taken over, the acceleration as
/// the change of velocity over the tick, and a lane change whose
/// progress has reached one completed: the target lane becomes the
/// current lane, the target is cleared and the progress starts over.
#[verifier::when_used_as_spec(settle_value)]
pub fn settle(c: &GpuCar, m: Motion, progress: i64, dt: i64) -> (r: GpuCar)
    ensures
        r == settle_value(c, m, progress, dt),
{
    let done = c.target_lane != 0 && progress >= SCALE;
    GpuCar {
        pos_x: m.pos_x,
        pos_y: m.pos_y,
        vel_x: m.vel_x,
        vel_y: m.vel_y,
        acc_x: if dt > 0 {
            fx_div(sat_sub(m.vel_x, c.vel_x), dt)
        } else {
            0
        },
        acc_y: if dt > 0 {
            fx_div(sat_sub(m.vel_y, c.vel_y), dt)
        } else {
            0
        },
        heading: m.heading,
        lane_angle: m.lane_angle,
        length: c.length,
        width: c.width,
        max_accel: c.max_accel,
        max_decel: c.max_decel,
        preferred_speed: c.preferred_speed,
        current_lane: if done {
            c.target_lane
        } else {
            c.current_lane
        },
        target_lane: if done {
            0
        } else {
            c.target_lane
        },
        lane_change_progress: if done {
            0
        } else {
            progress
        },
        following_distance_factor: c.following_distance_factor,
        target_speed: c.target_speed,
        reaction_time: c.reaction_time,
        last_lane_change_time: c.last_lane_change_time,
    }
}

/// The next record of car `i`, computed from the first `count` records
/// of the snapshot.
pub open spec fn advance(cars: Seq<GpuCar>, count: int, i: int, p: &RouteParams, dt: i64) -> GpuCar {
    let c = cars[i];
    let target = target_speed_of(cars, count, i, p);
    let speed = next_speed(target, c.speed(), dt, c.max_accel, c.max_decel);
    let progress = progress_step(&c, p, dt);
    let motion = match p.kind {
        GeometryKind::Donut => calculate_donut_update(&c, speed, progress, p, dt),
        GeometryKind::Cloverleaf => calculate_cloverleaf_path(&c, speed, progress, p, dt),
    };
    settle(&c, motion, progress, dt)
}

/// Runs the kernel for car `i`: finds the nearest car ahead, shapes the
/// target speed, bounds the acceleration, and integrates the motion on
/// the geometry of the road. The speed approaches the target speed
/// within the car's acceleration bounds, and the car advances along
/// its lane at that speed.
pub fn calculate_car_update(
    cars: &Vec<GpuCar>,
    count: usize,
    i: usize,
    p: &RouteParams,
    dt: i64,
) -> (r: GpuCar)
    requires
        i < count <= cars.len(),
        p.wf(),
        dt > 0,
    ensures
        r == advance(cars@, count as int, i as int, p, dt),
{
    let c = &cars[i];
    let target: i64 = kernel_target_speed(cars, count, i, p);
    let speed: i64 = next_speed(target, c.speed(), dt, c.max_accel, c.max_decel);
    let progress: i64 = progress_step(c, p, dt);
    let motion = match p.kind {
        GeometryKind::Donut => calculate_donut_update(c, speed, progress, p, dt),
        GeometryKind::Cloverleaf => calculate_cloverleaf_path(c, speed, progress, p, dt),
    };
    settle(c, motion, progress, dt)
}

/// The buffer after the first `count` records have taken their step;
/// the records behind them stay as they are.
pub open spec fn advance_all(cars: Seq<GpuCar>, count: int, p: &RouteParams, dt: i64) -> Seq<
    GpuCar,
> {
    Seq::new(
        cars.len(),
        |i: int|
            if i < count {
                advance(cars, count, i, p, dt)
            } else {
                cars[i]
            },
    )
}

/// Runs the kernel for each of the first `count` records of the buffer.
/// Each run reads the buffer as it was and writes its own slot, so the
/// runs are independent of each other and of their order.
pub fn run_kernel(cars: &Vec<GpuCar>, count: usize, p: &RouteParams, dt: i64) -> (r: Vec<GpuCar>)
    requires
        count <= cars.len(),
        p.wf(),
        dt > 0,
    ensures
        r@ == advance_all(cars@, count as int, p, dt),
{
    let mut out: Vec<GpuCar> = Vec::with_capacity(cars.len());
    let mut i: usize = 0;
    while i < cars.len()
        invariant
            i <= cars.len(),
            count <= cars.len(),
            p.wf(),
            dt > 0,
            out@.len() == i,
            forall|j: int|
                0 <= j < i ==> out@[j] == if j < count {
                    advance(cars@, count as int, j, p, dt)
                } else {
                    cars@[j]
                },
        decreases cars.len() - i,
    {
        if i < count {
            let next = calculate_car_update(cars, count, i, p, dt);
            out.push(next);
        } else {
            out.push(cars[i]);
        }
        i += 1;
    }
    assert(out@ =~= advance_all(cars@, count as int, p, dt));
    out
}

/// The nearest car ahead among the first `n` records depends on those
/// records only.
pub proof fn lemma_nearest_reads_prefix(
    a: Seq<GpuCar>,
    b: Seq<GpuCar>,
    count: int,
    i: int,
    p: &RouteParams,
    n: int,
)
    requires
        0 <= i < count,
        0 <= n <= count,
        count <= a.len(),
        count <= b.len(),
        forall|j: int| 0 <= j < count ==> a[j] == b[j],
    ensures
        nearest_ahead(a, i, p, n) == nearest_ahead(b, i, p, n),
    decreases n,
{
    if n > 0 {
        lemma_nearest_reads_prefix(a, b, count, i, p, n - 1);
        assert(a[n - 1] == b[n - 1]);
        assert(a[i] == b[i]);
    }
}

/// A kernel run on the first `count` records does not read what lies
/// behind them: two buffers that agree on those records give the same
/// next record.
pub proof fn lemma_kernel_reads_prefix(
    a: Seq<GpuCar>,
    b: Seq<GpuCar>,
    count: int,
    i: int,
    p: &RouteParams,
    dt: i64,
)
    requires
        0 <= i < count,
        count <= a.len(),
        count <= b.len(),
        count <= usize::MAX,
        forall|j: int| 0 <= j < count ==> a[j] == b[j],
    ensures
        advance(a, count, i, p, dt) == advance(b, count, i, p, dt),
{
    lemma_nearest_reads_prefix(a, b, count, i, p, count);
    assert(a[i] == b[i]);
    match nearest_ahead(a, i, p, count) {
        Some((k, gap)) => {
            lemma_nearest_in_range(a, i, p, count);
            assert(a[k as int] == b[k as int]);
        },
        None => {},
    }
}

/// The nearest car ahead among the first `n` records is one of them.
pub proof fn lemma_nearest_in_range(cars: Seq<GpuCar>, i: int, p: &RouteParams, n: int)
    requires
        0 <= n,
        n <= usize::MAX,
    ensures
        match nearest_ahead(cars, i, p, n) {
            Some((k, d)) => 0 <= k < n,
            None => true,
        },
    decreases n,
{
    if n > 0 {
        lemma_nearest_in_range(cars, i, p, n - 1);
    }
}

} // verus!
