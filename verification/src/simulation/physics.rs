//! The physics engine: one kinematic step for every car.
use vstd::prelude::*;
use crate::config::CollisionAvoidance;
use crate::config::RouteConfig;
use crate::fixed::fx_div;
use crate::fixed::lemma_quot_bound;
use crate::fixed::max_spec;
use crate::fixed::mul_spec;
use crate::fixed::quot;
use crate::fixed::sat_add;
use crate::fixed::sat_sub;
use crate::fixed::SCALE;
use crate::simulation::Car;
use crate::simulation::kernel::achievable_acceleration;
use crate::simulation::kernel::advance_all;
use crate::simulation::kernel::GpuCar;
use crate::simulation::kernel::nearest_ahead;
use crate::simulation::kernel::next_speed;
use crate::simulation::kernel::progress_step;
use crate::simulation::kernel::RouteParams;
use crate::simulation::kernel::run_kernel;
use crate::simulation::kernel::shaped_speed;
use crate::simulation::kernel::target_speed_of;
use crate::simulation::marshal::create_route_params;
use crate::simulation::marshal::pack_cars;
use crate::simulation::marshal::packed;
use crate::simulation::marshal::packed_all;
use crate::simulation::marshal::route_params_of;
use crate::simulation::marshal::unpack_cars;
use crate::simulation::marshal::unpacked_all;
use crate::simulation::SimulationState;
use crate::simulation::state::ids_unique;

verus! {

pub struct PhysicsEngine {
    collision_avoidance: CollisionAvoidance,
    route: RouteConfig,
    params: RouteParams,
}

/// The cars after one kinematic step: every car advanced by the kernel
/// on the snapshot of all cars before the step.
pub open spec fn stepped_cars(cars: Seq<Car>, p: &RouteParams, dt: i64) -> Seq<Car> {
    unpacked_all(cars, advance_all(packed_all(cars), cars.len() as int, p, dt))
}

/// A step keeps the ids, and with them their uniqueness.
pub proof fn lemma_step_keeps_ids(cars: Seq<Car>, p: &RouteParams, dt: i64)
    ensures
        stepped_cars(cars, p, dt).len() == cars.len(),
        forall|i: int|
            0 <= i < cars.len() ==> (#[trigger] stepped_cars(cars, p, dt)[i]).id == cars[i].id,
        ids_unique(cars) ==> ids_unique(stepped_cars(cars, p, dt)),
{
    let next = stepped_cars(cars, p, dt);
    assert forall|i: int| 0 <= i < cars.len() implies (#[trigger] next[i]).id == cars[i].id by {}
    if ids_unique(cars) {
        assert forall|i: int, j: int| 0 <= i < j < next.len() implies next[i].id != next[j].id by {
            assert(next[i].id == cars[i].id);
            assert(next[j].id == cars[j].id);
        }
    }
}

/// A step keeps lanes within the road and the lane change progress
/// between 0 and 1, and completes a lane change whose progress reaches 1:
/// the target lane becomes the current lane and the target is cleared.
pub proof fn lemma_step_keeps_lanes(cars: Seq<Car>, p: &RouteParams, dt: i64, i: int)
    requires
        0 <= i < cars.len(),
        p.wf(),
        dt > 0,
        cars[i].lanes_within(p.lane_count),
        cars[i].progress_in_range(),
    ensures
        stepped_cars(cars, p, dt)[i].lanes_within(p.lane_count),
        stepped_cars(cars, p, dt)[i].progress_in_range(),
        stepped_cars(cars, p, dt)[i].lane_change_progress < SCALE || stepped_cars(
            cars,
            p,
            dt,
        )[i].target_lane is None,
        cars[i].target_lane is None ==> stepped_cars(cars, p, dt)[i].current_lane
            == cars[i].current_lane && stepped_cars(cars, p, dt)[i].target_lane is None,
        cars[i].target_lane is Some ==> {
            let after = stepped_cars(cars, p, dt)[i];
            ||| (after.current_lane == cars[i].current_lane && after.target_lane
                == cars[i].target_lane)
            ||| (Some(after.current_lane) == cars[i].target_lane && after.target_lane is None
                && after.lane_change_progress == 0)
        },
{
    let records = packed_all(cars);
    let c = records[i];
    assert(c == packed(cars[i]));
    let progress = crate::simulation::kernel::progress_step(&c, p, dt);
    if c.target_lane != 0 {
        assert(dt * SCALE >= 0) by (nonlinear_arith)
            requires
                dt >= 0,
        ;
        assert((dt * SCALE) / (p.lane_change_time as int) >= 0) by (nonlinear_arith)
            requires
                dt * SCALE >= 0,
                p.lane_change_time > 0,
        ;
        assert(0 <= progress <= SCALE);
    }
}

impl PhysicsEngine {
    /// The engine holds the parameter record of its route.
    pub closed spec fn wf(&self) -> bool {
        &&& self.params.wf()
        &&& route_params_of(&self.route, &self.collision_avoidance) == Some(self.params)
    }

    /// The parameter record the engine runs the kernel with.
    pub closed spec fn params(&self) -> RouteParams {
        self.params
    }

    /// An engine for a valid route and valid collision thresholds.
    pub fn new(route: RouteConfig, collision_avoidance: CollisionAvoidance) -> (r: Self)
        requires
            route.valid(),
            collision_avoidance.valid(),
        ensures
            r.wf(),
            Some(r.params()) == route_params_of(&route, &collision_avoidance),
    {
        let params = create_route_params(&route, &collision_avoidance).unwrap();
        PhysicsEngine { collision_avoidance, route, params }
    }

    /// Advances every car by one tick and the clock by `dt`.
    ///
    /// All steps are computed from a snapshot of the cars before the
    /// tick and applied afterwards, so the result does not depend on the
    /// order of the cars.
    pub fn update(&self, state: &mut SimulationState)
        requires
            self.wf(),
            old(state).dt > 0,
        ensures
            final(state).cars@ == stepped_cars(old(state).cars@, &self.params(), old(state).dt),
            final(state).time == sat_add(old(state).time, old(state).dt),
            final(state).dt == old(state).dt,
            final(state).total_spawned == old(state).total_spawned,
            final(state).active_cars == old(state).active_cars,
            old(state).wf() ==> final(state).wf(),
            old(state).cars_sound(self.params().lane_count) ==> final(state).cars_sound(
                self.params().lane_count,
            ),
    {
        let dt = state.dt;
        let snapshot = pack_cars(&state.cars, state.time);
        let updates = run_kernel(&snapshot, snapshot.len(), &self.params, dt);
        unpack_cars(&mut state.cars, &updates);
        state.time = sat_add(state.time, dt);
        proof {
            lemma_step_keeps_ids(old(state).cars@, &self.params, dt);
            if old(state).cars_sound(self.params.lane_count) {
                assert forall|i: int| 0 <= i < state.cars@.len() implies (
                #[trigger] state.cars@[i]).lanes_within(self.params.lane_count)
                    && state.cars@[i].progress_in_range() by {
                    assert(old(state).cars@[i].lanes_within(self.params.lane_count));
                    lemma_step_keeps_lanes(old(state).cars@, &self.params, dt, i);
                }
            }
        }
    }
}

/// Collision avoidance: a car whose nearest car ahead is closer than the
/// emergency brake distance gets the target speed zero, so that it
/// brakes as hard as its deceleration bound allows.
pub proof fn lemma_emergency_brake(cars: Seq<GpuCar>, i: int, p: &RouteParams)
    requires
        0 <= i < cars.len(),
        match nearest_ahead(cars, i, p, cars.len() as int) {
            Some((lead, gap)) => gap < p.emergency_brake_distance,
            None => false,
        },
    ensures
        target_speed_of(cars, cars.len() as int, i, p) == 0,
{
}

/// Largest magnitude of a speed or an acceleration bound for which the
/// bounds on a speed change are stated (a million units).
pub const LAW_RANGE: i64 = 1_000_000_000_000;

/// The speed changes within the car's bounds and does not overshoot:
/// in one tick it rises by no more than the maximum acceleration over
/// the tick and falls by no more than the maximum deceleration over the
/// tick, but for the rounding of one division; it never goes negative;
/// and it ends between the current speed and the target.
pub proof fn lemma_speed_change_bounded(
    target: i64,
    current: i64,
    dt: i64,
    max_accel: i64,
    max_decel: i64,
)
    requires
        0 <= current <= LAW_RANGE,
        -LAW_RANGE <= target <= LAW_RANGE,
        0 < dt <= LAW_RANGE,
        0 <= max_accel <= LAW_RANGE,
        0 <= max_decel <= LAW_RANGE,
    ensures
        ({
            let next = next_speed(target, current, dt, max_accel, max_decel);
            &&& next >= 0
            &&& next - current <= mul_spec(max_accel as int, dt as int) + (dt as int) / (SCALE as int) + 1
            &&& current - next <= mul_spec(max_decel as int, dt as int) + (dt as int) / (SCALE as int) + 1
            &&& target >= current ==> current <= next <= target
            &&& target <= current ==> target <= next <= current || next == 0
        }),
{
    let diff = target - current;
    assert(sat_sub(target, current) == diff);
    let scaled = diff * SCALE;
    assert(-2_000_000_000_000_000_000 <= scaled <= 2_000_000_000_000_000_000) by (nonlinear_arith)
        requires
            scaled == diff * SCALE,
            -2_000_000_000_000 <= diff <= 2_000_000_000_000,
            SCALE == 1_000_000,
    ;
    lemma_quot_bound(scaled, dt as int);
    let wanted = quot(scaled, dt as int);
    assert(fx_div(diff as i64, dt) == wanted);
    let up = max_accel * dt;
    let down = max_decel * dt;
    assert(0 <= up <= 1_000_000_000_000_000_000_000_000) by (nonlinear_arith)
        requires
            up == max_accel * dt,
            0 <= max_accel <= 1_000_000_000_000,
            0 < dt <= 1_000_000_000_000,
    ;
    assert(0 <= down <= 1_000_000_000_000_000_000_000_000) by (nonlinear_arith)
        requires
            down == max_decel * dt,
            0 <= max_decel <= 1_000_000_000_000,
            0 < dt <= 1_000_000_000_000,
    ;
    let rise = up / (SCALE as int);
    let fall = down / (SCALE as int);
    assert(quot(up, SCALE as int) == rise);
    assert(quot(down, SCALE as int) == fall);
    assert(0 <= rise <= 1_000_000_000_000_000_000 && 0 <= fall <= 1_000_000_000_000_000_000);
    assert(mul_spec(max_accel as int, dt as int) == rise);
    assert(mul_spec(max_decel as int, dt as int) == fall);
    if diff > 0 {
        assert(scaled > 0) by (nonlinear_arith)
            requires
                scaled == diff * SCALE,
                diff > 0,
                SCALE == 1_000_000,
        ;
        assert(wanted == scaled / (dt as int));
        if wanted <= max_accel {
            // The bounds allow reaching the target within the tick.
            assert(scaled < (max_accel + 1) * dt) by (nonlinear_arith)
                requires
                    scaled / (dt as int) <= max_accel,
                    dt > 0,
                    scaled >= 0,
            ;
            assert(diff <= rise + (dt as int) / (SCALE as int) + 1) by (nonlinear_arith)
                requires
                    diff * SCALE < (max_accel + 1) * dt,
                    rise == (max_accel * dt) / (SCALE as int),
                    SCALE == 1_000_000,
                    dt > 0,
                    max_accel >= 0,
            ;
        } else {
            assert((max_accel + 1) * dt <= scaled) by (nonlinear_arith)
                requires
                    scaled / (dt as int) >= max_accel + 1,
                    dt > 0,
                    scaled >= 0,
            ;
            assert(rise < diff) by (nonlinear_arith)
                requires
                    (max_accel + 1) * dt <= diff * SCALE,
                    rise == (max_accel * dt) / (SCALE as int),
                    SCALE == 1_000_000,
                    dt > 0,
                    max_accel >= 0,
            ;
        }
    } else {
        let back = -scaled;
        assert(back >= 0) by (nonlinear_arith)
            requires
                back == -(diff * SCALE),
                diff <= 0,
                SCALE == 1_000_000,
        ;
        assert(wanted == -(back / (dt as int)));
        assert(sat_sub(0, max_decel) == -max_decel);
        if back / (dt as int) <= max_decel {
            assert(back < (max_decel + 1) * dt) by (nonlinear_arith)
                requires
                    back / (dt as int) <= max_decel,
                    dt > 0,
                    back >= 0,
            ;
            assert(-diff <= fall + (dt as int) / (SCALE as int) + 1) by (nonlinear_arith)
                requires
                    (-diff) * SCALE < (max_decel + 1) * dt,
                    fall == (max_decel * dt) / (SCALE as int),
                    SCALE == 1_000_000,
                    dt > 0,
                    max_decel >= 0,
            ;
        } else {
            assert((max_decel + 1) * dt <= back) by (nonlinear_arith)
                requires
                    back / (dt as int) >= max_decel + 1,
                    dt > 0,
                    back >= 0,
            ;
            assert(fall < -diff) by (nonlinear_arith)
                requires
                    (max_decel + 1) * dt <= (-diff) * SCALE,
                    fall == (max_decel * dt) / (SCALE as int),
                    SCALE == 1_000_000,
                    dt > 0,
                    max_decel >= 0,
            ;
            let lowered = (-max_decel) * dt;
            assert(lowered == -down) by (nonlinear_arith)
                requires
                    lowered == (-max_decel) * dt,
                    down == max_decel * dt,
            ;
            assert(quot(lowered, SCALE as int) == -fall);
            assert(mul_spec(-max_decel, dt as int) == -fall);
        }
    }
}

/// A car at or below its target speed either reaches the target within
/// the tick or gains exactly the maximum acceleration over the tick
/// and stays below the target.
pub proof fn lemma_speed_step_up(target: i64, current: i64, dt: i64, max_accel: i64, max_decel: i64)
    requires
        0 <= current <= target <= LAW_RANGE,
        0 < dt <= LAW_RANGE,
        0 <= max_accel <= LAW_RANGE,
        0 <= max_decel <= LAW_RANGE,
    ensures
        ({
            let next = next_speed(target, current, dt, max_accel, max_decel);
            let rise = mul_spec(max_accel as int, dt as int);
            &&& 0 <= rise
            &&& next == target || (next == current + rise && next < target)
        }),
{
    let diff = target - current;
    assert(sat_sub(target, current) == diff);
    let scaled = diff * SCALE;
    assert(0 <= scaled <= 1_000_000_000_000_000_000) by (nonlinear_arith)
        requires
            scaled == diff * SCALE,
            0 <= diff <= 1_000_000_000_000,
            SCALE == 1_000_000,
    ;
    lemma_quot_bound(scaled, dt as int);
    let wanted = quot(scaled, dt as int);
    assert(fx_div(diff as i64, dt) == wanted);
    let up = max_accel * dt;
    assert(0 <= up <= 1_000_000_000_000_000_000_000_000) by (nonlinear_arith)
        requires
            up == max_accel * dt,
            0 <= max_accel <= 1_000_000_000_000,
            0 < dt <= 1_000_000_000_000,
    ;
    let rise = up / (SCALE as int);
    assert(quot(up, SCALE as int) == rise);
    assert(0 <= rise <= 1_000_000_000_000_000_000);
    assert(mul_spec(max_accel as int, dt as int) == rise);
    if diff > 0 {
        assert(wanted == scaled / (dt as int));
        if wanted > max_accel {
            assert((max_accel + 1) * dt <= scaled) by (nonlinear_arith)
                requires
                    scaled / (dt as int) >= max_accel + 1,
                    dt > 0,
                    scaled >= 0,
            ;
            assert(rise < diff) by (nonlinear_arith)
                requires
                    (max_accel + 1) * dt <= diff * SCALE,
                    rise == (max_accel * dt) / (SCALE as int),
                    SCALE == 1_000_000,
                    dt > 0,
                    max_accel >= 0,
            ;
        }
    } else {
        assert(wanted == 0);
        assert(sat_sub(0, max_decel) == -max_decel);
    }
}

/// The speed of a car after a number of ticks in which its target
/// speed stays the same.
pub open spec fn speed_after(
    target: i64,
    start: i64,
    dt: i64,
    max_accel: i64,
    max_decel: i64,
    ticks: nat,
) -> i64
    decreases ticks,
{
    if ticks == 0 {
        start
    } else {
        next_speed(
            target,
            speed_after(target, start, dt, max_accel, max_decel, (ticks - 1) as nat),
            dt,
            max_accel,
            max_decel,
        )
    }
}

/// The speed converges to the target within the car's acceleration
/// bound: a car that starts at or below a target speed that stays the
/// same never exceeds it, gains the maximum acceleration over the tick
/// in every tick until it reaches it, has reached it as soon as that
/// many gains cover the distance, and keeps it from then on.
pub proof fn lemma_speed_converges(
    target: i64,
    start: i64,
    dt: i64,
    max_accel: i64,
    max_decel: i64,
    ticks: nat,
)
    requires
        0 <= start <= target <= LAW_RANGE,
        0 < dt <= LAW_RANGE,
        0 <= max_accel <= LAW_RANGE,
        0 <= max_decel <= LAW_RANGE,
    ensures
        ({
            let v = speed_after(target, start, dt, max_accel, max_decel, ticks);
            let rise = mul_spec(max_accel as int, dt as int);
            &&& start <= v <= target
            &&& v == target || (v == start + ticks * rise && v < target)
            &&& start + ticks * rise >= target ==> v == target
        }),
    decreases ticks,
{
    let rise = mul_spec(max_accel as int, dt as int);
    if ticks == 0 {
        assert(0 * rise == 0) by (nonlinear_arith);
    } else {
        let earlier = (ticks - 1) as nat;
        lemma_speed_converges(target, start, dt, max_accel, max_decel, earlier);
        let before = speed_after(target, start, dt, max_accel, max_decel, earlier);
        lemma_speed_step_up(target, before, dt, max_accel, max_decel);
        assert(ticks * rise == earlier * rise + rise) by (nonlinear_arith)
            requires
                ticks == earlier + 1,
        ;
        assert(0 <= earlier * rise) by (nonlinear_arith)
            requires
                0 <= rise,
                0 <= earlier,
        ;
    }
}

/// A car at or above its target speed either reaches the target within
/// the tick or loses exactly the maximum deceleration over the tick,
/// and does not go below zero.
pub proof fn lemma_speed_step_down(
    target: i64,
    current: i64,
    dt: i64,
    max_accel: i64,
    max_decel: i64,
)
    requires
        0 <= target <= current <= LAW_RANGE,
        0 < dt <= LAW_RANGE,
        0 <= max_accel <= LAW_RANGE,
        0 <= max_decel <= LAW_RANGE,
    ensures
        ({
            let next = next_speed(target, current, dt, max_accel, max_decel);
            let fall = mul_spec(max_decel as int, dt as int);
            &&& 0 <= fall
            &&& next == target || next == max_spec(0, current - fall)
            &&& target <= next <= current
        }),
{
    lemma_speed_change_bounded(target, current, dt, max_accel, max_decel);
    let diff = target - current;
    assert(sat_sub(target, current) == diff);
    let back = (-diff) * SCALE;
    assert(0 <= back <= 1_000_000_000_000_000_000) by (nonlinear_arith)
        requires
            back == (-diff) * SCALE,
            -1_000_000_000_000 <= diff <= 0,
            SCALE == 1_000_000,
    ;
    assert(diff * SCALE == -back) by (nonlinear_arith)
        requires
            back == (-diff) * SCALE,
    ;
    let wanted = quot(diff * SCALE, dt as int);
    lemma_quot_bound(diff * SCALE, dt as int);
    assert(fx_div(diff as i64, dt) == wanted);
    assert(sat_sub(0, max_decel) == -max_decel);
    let down = max_decel * dt;
    assert(0 <= down <= 1_000_000_000_000_000_000_000_000) by (nonlinear_arith)
        requires
            down == max_decel * dt,
            0 <= max_decel <= 1_000_000_000_000,
            0 < dt <= 1_000_000_000_000,
    ;
    let fall = down / (SCALE as int);
    assert(quot(down, SCALE as int) == fall);
    assert(0 <= fall <= 1_000_000_000_000_000_000);
    assert(mul_spec(max_decel as int, dt as int) == fall);
    let lowered = (-max_decel) * dt;
    assert(lowered == -down) by (nonlinear_arith)
        requires
            lowered == (-max_decel) * dt,
            down == max_decel * dt,
    ;
    assert(quot(lowered, SCALE as int) == -fall);
    assert(mul_spec(-max_decel, dt as int) == -fall);
    assert(wanted == -(back / (dt as int)));
    let next = next_speed(target, current, dt, max_accel, max_decel);
    if back / (dt as int) <= max_decel {
        assert(achievable_acceleration(target, current, dt, max_accel, max_decel) == wanted);
        assert(next == target);
    } else {
        assert((max_decel + 1) * dt <= back) by (nonlinear_arith)
            requires
                back / (dt as int) >= max_decel + 1,
                dt > 0,
                back >= 0,
        ;
        assert(fall < -diff) by (nonlinear_arith)
            requires
                (max_decel + 1) * dt <= (-diff) * SCALE,
                fall == (max_decel * dt) / (SCALE as int),
                SCALE == 1_000_000,
                dt > 0,
                max_decel >= 0,
        ;
        assert(achievable_acceleration(target, current, dt, max_accel, max_decel) == -max_decel);
        assert(next == max_spec(0, current - fall));
    }
}

/// A follower keeps the emergency distance: a car that drives at its
/// desired speed behind a standing car, at a gap between the emergency
/// distance and the warning distance and inside its following distance,
/// does not speed up, and in one tick advances no further than the
/// room that is left above the emergency distance. This holds where
/// the car covers less than the warning band in one tick and can stop
/// within the room that is left.
pub proof fn lemma_follower_keeps_distance(
    speed: i64,
    gap: i64,
    following: i64,
    dt: i64,
    max_accel: i64,
    max_decel: i64,
    p: &RouteParams,
)
    requires
        p.wf(),
        0 <= p.emergency_brake_distance <= gap <= p.warning_distance < following,
        p.warning_distance <= LAW_RANGE,
        0 <= speed <= LAW_RANGE,
        0 < dt <= LAW_RANGE,
        0 <= max_accel <= LAW_RANGE,
        0 < max_decel <= LAW_RANGE,
        mul_spec(speed as int, dt as int) < p.warning_distance - p.emergency_brake_distance,
        speed * speed <= 2 * max_decel * (gap - p.emergency_brake_distance),
    ensures
        ({
            let target = shaped_speed(speed, gap, 0, following, p);
            let next = next_speed(target, speed, dt, max_accel, max_decel);
            &&& 0 <= target <= speed
            &&& 0 <= next <= speed
            &&& 0 <= mul_spec(next as int, dt as int) <= gap - p.emergency_brake_distance
        }),
{
    let e = p.emergency_brake_distance as int;
    let w = p.warning_distance as int;
    let band = w - e;
    let room = gap - e;
    let target = shaped_speed(speed, gap, 0, following, p);
    assert(sat_sub(gap, p.emergency_brake_distance) == room);
    assert(sat_sub(p.warning_distance, p.emergency_brake_distance) == band);
    let share = speed * room;
    assert(0 <= share <= 1_000_000_000_000 * 1_000_000_000_000) by (nonlinear_arith)
        requires
            share == speed * room,
            0 <= speed <= 1_000_000_000_000,
            0 <= room <= 1_000_000_000_000,
    ;
    let cut = share / band;
    assert(0 <= cut && cut * band <= share && cut <= speed) by (nonlinear_arith)
        requires
            cut == share / band,
            share == speed * room,
            0 <= speed,
            0 <= room <= band,
            band > 0,
    ;
    assert(gap < p.warning_distance ==> target == cut) by {
        assert(quot(share, band) == cut);
    }
    assert(gap == p.warning_distance ==> target == 0);
    assert(0 <= target <= speed);
    assert(target * band <= speed * room) by {
        if gap == p.warning_distance {
            assert(0 * band == 0) by (nonlinear_arith);
        }
    }
    lemma_speed_step_down(target, speed, dt, max_accel, max_decel);
    let next = next_speed(target, speed, dt, max_accel, max_decel);
    let fall = mul_spec(max_decel as int, dt as int);
    let covered = speed * dt;
    assert(0 <= covered <= 1_000_000_000_000 * 1_000_000_000_000) by (nonlinear_arith)
        requires
            covered == speed * dt,
            0 <= speed <= 1_000_000_000_000,
            0 < dt <= 1_000_000_000_000,
    ;
    assert(mul_spec(speed as int, dt as int) == covered / (SCALE as int));
    assert(covered < band * SCALE) by (nonlinear_arith)
        requires
            covered / (SCALE as int) < band,
            0 <= covered,
            SCALE == 1_000_000,
    ;
    let moved = next * dt;
    assert(0 <= moved <= covered) by (nonlinear_arith)
        requires
            moved == next * dt,
            covered == speed * dt,
            0 <= next <= speed,
            0 < dt,
    ;
    let advance = moved / (SCALE as int);
    assert(mul_spec(next as int, dt as int) == advance);
    assert(0 <= advance && advance * SCALE <= moved) by (nonlinear_arith)
        requires
            advance == moved / (SCALE as int),
            0 <= moved,
            SCALE == 1_000_000,
    ;
    if next == target {
        if room == 0 {
            assert(target == 0) by (nonlinear_arith)
                requires
                    target * band <= speed * room,
                    room == 0,
                    band > 0,
                    0 <= target,
            ;
            assert(moved == 0) by (nonlinear_arith)
                requires
                    moved == next * dt,
                    next == 0,
            ;
        } else {
            // next band <= speed room and speed dt < band SCALE give
            // next dt < room SCALE.
            assert(moved * band <= covered * room) by (nonlinear_arith)
                requires
                    moved == next * dt,
                    covered == speed * dt,
                    next * band <= speed * room,
                    0 < dt,
            ;
            assert(covered * room < (band * SCALE) * room) by (nonlinear_arith)
                requires
                    covered < band * SCALE,
                    room > 0,
            ;
            assert(moved < room * SCALE) by (nonlinear_arith)
                requires
                    moved * band < (band * SCALE) * room,
                    band > 0,
            ;
            assert(advance <= room) by (nonlinear_arith)
                requires
                    advance * SCALE <= moved,
                    moved < room * SCALE,
                    SCALE == 1_000_000,
            ;
        }
    } else {
        assert(next == max_spec(0, speed - fall));
        if next == 0 {
            assert(moved == 0) by (nonlinear_arith)
                requires
                    moved == next * dt,
                    next == 0,
            ;
        } else {
            let down = max_decel * dt;
            assert(0 <= down) by (nonlinear_arith)
                requires
                    down == max_decel * dt,
                    0 < max_decel,
                    0 < dt,
            ;
            assert(quot(down, SCALE as int) == down / (SCALE as int));
            assert(fall == down / (SCALE as int));
            assert(down < (fall + 1) * SCALE) by (nonlinear_arith)
                requires
                    fall == down / (SCALE as int),
                    0 <= down,
                    SCALE == 1_000_000,
            ;
            let x = next as int;
            assert(speed == x + fall);
            // 2 dec x dt < 2 x (fall + 1) SCALE <= ((x + fall)^2 + 2 dec) SCALE
            //   <= 2 dec (room + 1) SCALE.
            assert(2 * x * down < 2 * x * ((fall + 1) * SCALE)) by (nonlinear_arith)
                requires
                    down < (fall + 1) * SCALE,
                    x > 0,
            ;
            assert(2 * x * (fall + 1) <= (x + fall) * (x + fall) + 2 * max_decel)
                by (nonlinear_arith)
                requires
                    x > 0,
                    fall >= 0,
                    max_decel >= 1,
            ;
            assert((x + fall) * (x + fall) + 2 * max_decel <= 2 * max_decel * (room + 1))
                by (nonlinear_arith)
                requires
                    (x + fall) * (x + fall) <= 2 * max_decel * room,
            ;
            assert(2 * x * ((fall + 1) * SCALE) <= (2 * max_decel * (room + 1)) * SCALE)
                by (nonlinear_arith)
                requires
                    2 * x * (fall + 1) <= 2 * max_decel * (room + 1),
                    SCALE == 1_000_000,
            ;
            assert(2 * x * down == 2 * max_decel * moved) by (nonlinear_arith)
                requires
                    down == max_decel * dt,
                    moved == x * dt,
            ;
            assert(moved < (room + 1) * SCALE) by (nonlinear_arith)
                requires
                    2 * max_decel * moved < (2 * max_decel * (room + 1)) * SCALE,
                    max_decel > 0,
            ;
            assert(advance <= room) by (nonlinear_arith)
                requires
                    advance * SCALE <= moved,
                    moved < (room + 1) * SCALE,
                    SCALE == 1_000_000,
            ;
        }
    }
}

} // verus!
