//! The rules of spawning and despawning: clearance at an entry, forcing
//! a gap, the speed of a new car, and which cars leave.
use vstd::prelude::*;
use crate::config::cars::car_weights;
use crate::config::CarType;
use crate::config::ExitPoint;
use crate::fixed::fx_max;
use crate::fixed::fx_min;
use crate::fixed::fx_mul;
use crate::fixed::hypot;
use crate::fixed::lemma_hypot_covers;
use crate::fixed::lemma_hypot_range;
use crate::fixed::lemma_quot_bound;
use crate::fixed::lemma_rescaled_length;
use crate::fixed::LENGTH_RANGE;
use crate::fixed::LIMIT;
use crate::fixed::mul_div;
use crate::fixed::sat_add;
use crate::fixed::sat_sub;
use crate::fixed::SCALE;
use crate::simulation::behavior::weighted_index;
use crate::simulation::BehaviorState;
use crate::simulation::Car;
use crate::simulation::CarId;
use crate::simulation::kernel::RouteParams;
use crate::simulation::Point;
use crate::simulation::road::EntryPose;
use crate::simulation::road::near_exit;
use crate::simulation::road::near_exit_value;
use crate::simulation::state::ids_unique;
use crate::simulation::Vec2;

verus! {

/// Clearance an entry needs for an ordinary spawn (5 m).
pub const MIN_SPAWN_DISTANCE: i64 = 5_000_000;

/// Clearance an entry needs for a manual spawn (2 m).
pub const PERMISSIVE_SPAWN_DISTANCE: i64 = 2_000_000;

/// Radius around an entry within which cars are slowed to open a gap (15 m).
pub const FORCE_GAP_DISTANCE: i64 = 15_000_000;

/// Clearance below which no spawn happens even with a forced gap (3 m).
pub const FORCED_SPAWN_FLOOR: i64 = 3_000_000;

/// Radius within which a forced gap brakes cars at once (9 m).
pub const IMMEDIATE_BRAKE_DISTANCE: i64 = 9_000_000;

/// Share of the target speed that the nearest cars keep (0.3).
pub const SLOWDOWN_BASE: i64 = 300_000;

/// Share of the target speed that grows with the distance (0.7).
pub const SLOWDOWN_RANGE: i64 = 700_000;

/// Share of the maximum deceleration that a forced gap applies (0.7).
pub const FORCED_BRAKE_SHARE: i64 = 700_000;

/// Lowest target speed that a forced gap leaves (2 m/s).
pub const FORCED_SPEED_FLOOR: i64 = 2_000_000;

/// Speed of a car on an entrance ramp with no traffic near (15.6 m/s).
pub const RAMP_SPEED: i64 = 15_600_000;

/// Radius within which traffic sets the speed of a new car (30 m).
pub const SPAWN_CHECK_RADIUS: i64 = 30_000_000;

/// The same radius for a manual spawn (25 m).
pub const MANUAL_CHECK_RADIUS: i64 = 25_000_000;

/// Range of the speed of a new car (10 to 35 m/s).
pub const SPAWN_SPEED_MIN: i64 = 10_000_000;

pub const SPAWN_SPEED_MAX: i64 = 35_000_000;

/// Range of the speed of a manually spawned car (5 to 30 m/s).
pub const MANUAL_SPEED_MIN: i64 = 5_000_000;

pub const MANUAL_SPEED_MAX: i64 = 30_000_000;

/// How near an exit must be for a car to leave there (5 degrees).
pub const EXIT_TOLERANCE: i64 = 5_000_000;

/// Time on the road after which a car may be evicted (600 s).
pub const EVICTION_AGE: i64 = 600_000_000;

/// Probability per tick that a car is evicted after that time (0.001).
pub const EVICTION_CHANCE: i64 = 1_000;

/// The value that `distance_to` computes.
pub open spec fn distance_to_value(c: &Car, pos: Point) -> i64 {
    hypot(sat_sub(c.position.x, pos.x), sat_sub(c.position.y, pos.y))
}

/// The straight-line distance of a car from a place.
#[verifier::when_used_as_spec(distance_to_value)]
pub fn distance_to(c: &Car, pos: Point) -> (r: i64)
    ensures
        r == distance_to_value(c, pos),
        0 <= r <= LIMIT,
{
    hypot(sat_sub(c.position.x, pos.x), sat_sub(c.position.y, pos.y))
}

/// No car is closer to the place than `min_distance`.
pub open spec fn entry_clear(cars: Seq<Car>, pos: Point, min_distance: i64) -> bool {
    forall|i: int| 0 <= i < cars.len() ==> distance_to(&#[trigger] cars[i], pos) >= min_distance
}

/// Checks that no car is closer to the place than `min_distance`.
pub fn can_spawn_at(cars: &Vec<Car>, pos: Point, min_distance: i64) -> (r: bool)
    ensures
        r == entry_clear(cars@, pos, min_distance),
{
    let mut i: usize = 0;
    while i < cars.len()
        invariant
            i <= cars.len(),
            forall|j: int| 0 <= j < i ==> distance_to(&#[trigger] cars@[j], pos) >= min_distance,
        decreases cars.len() - i,
    {
        if distance_to(&cars[i], pos) < min_distance {
            return false;
        }
        i += 1;
    }
    true
}

/// The strict clearance check of an ordinary spawn.
pub fn can_spawn_at_entry_static(cars: &Vec<Car>, pos: Point) -> (r: bool)
    ensures
        r == entry_clear(cars@, pos, MIN_SPAWN_DISTANCE),
{
    can_spawn_at(cars, pos, MIN_SPAWN_DISTANCE)
}

/// The permissive clearance check of a manual spawn.
pub fn can_spawn_at_entry_permissive(cars: &Vec<Car>, pos: Point) -> (r: bool)
    ensures
        r == entry_clear(cars@, pos, PERMISSIVE_SPAWN_DISTANCE),
{
    can_spawn_at(cars, pos, PERMISSIVE_SPAWN_DISTANCE)
}

/// The value that `scaled_to` computes.
pub open spec fn scaled_to_value(v: Vec2, speed: i64) -> Vec2 {
    let mag = hypot(v.x, v.y);
    if mag == 0 {
        v
    } else {
        Vec2 { x: mul_div(v.x, speed, mag), y: mul_div(v.y, speed, mag) }
    }
}

/// The vector with its direction kept and its length set to `speed`;
/// the zero vector stays as it is.
#[verifier::when_used_as_spec(scaled_to_value)]
pub fn scaled_to(v: Vec2, speed: i64) -> (r: Vec2)
    ensures
        r == scaled_to_value(v, speed),
{
    let mag: i64 = hypot(v.x, v.y);
    if mag == 0 {
        v
    } else {
        Vec2 { x: mul_div(v.x, speed, mag), y: mul_div(v.y, speed, mag) }
    }
}

/// The value that `slowed_target` computes.
pub open spec fn slowed_target_value(target: i64, distance: i64) -> i64 {
    let share = fx_min(mul_div(distance, SCALE, FORCE_GAP_DISTANCE), SCALE);
    fx_min(
        target,
        fx_max(
            fx_mul(target, sat_add(SLOWDOWN_BASE, fx_mul(SLOWDOWN_RANGE, share))),
            FORCED_SPEED_FLOOR,
        ),
    )
}

/// The target speed of a car that is slowed to open a gap: between 30 %
/// of its target speed next to the entry and all of it at the edge of
/// the gap zone, but no lower than the floor speed, and never higher
/// than the target speed the car had.
#[verifier::when_used_as_spec(slowed_target_value)]
pub fn slowed_target(target: i64, distance: i64) -> (r: i64)
    ensures
        r == slowed_target_value(target, distance),
        r <= target,
{
    let share: i64 = fx_min(mul_div(distance, SCALE, FORCE_GAP_DISTANCE), SCALE);
    fx_min(
        target,
        fx_max(
            fx_mul(target, sat_add(SLOWDOWN_BASE, fx_mul(SLOWDOWN_RANGE, share))),
            FORCED_SPEED_FLOOR,
        ),
    )
}

/// Inside the gap zone a target speed above the floor speed is lowered.
pub proof fn lemma_slowed_target_is_lower(target: i64, distance: i64)
    requires
        0 <= distance < FORCE_GAP_DISTANCE,
        FORCED_SPEED_FLOOR < target,
    ensures
        FORCED_SPEED_FLOOR <= slowed_target(target, distance) < target,
{
    let raw = (distance * SCALE) / (FORCE_GAP_DISTANCE as int);
    assert(0 <= raw <= 999_999) by (nonlinear_arith)
        requires
            raw == (distance * SCALE) / (FORCE_GAP_DISTANCE as int),
            0 <= distance < FORCE_GAP_DISTANCE,
            SCALE == 1_000_000,
            FORCE_GAP_DISTANCE == 15_000_000,
    ;
    assert(0 <= distance * SCALE) by (nonlinear_arith)
        requires
            0 <= distance,
            SCALE == 1_000_000,
    ;
    let share = fx_min(mul_div(distance, SCALE, FORCE_GAP_DISTANCE), SCALE);
    assert(share == raw);
    let part = (SLOWDOWN_RANGE * share) / (SCALE as int);
    assert(0 <= part <= 699_999) by (nonlinear_arith)
        requires
            part == (SLOWDOWN_RANGE * share) / (SCALE as int),
            0 <= share <= 999_999,
            SLOWDOWN_RANGE == 700_000,
            SCALE == 1_000_000,
    ;
    assert(0 <= SLOWDOWN_RANGE * share) by (nonlinear_arith)
        requires
            0 <= share,
            SLOWDOWN_RANGE == 700_000,
    ;
    assert(fx_mul(SLOWDOWN_RANGE, share) == part);
    let factor = sat_add(SLOWDOWN_BASE, fx_mul(SLOWDOWN_RANGE, share));
    assert(300_000 <= factor <= 999_999);
    let scaled = (target * factor) / (SCALE as int);
    assert(0 <= target * factor) by (nonlinear_arith)
        requires
            0 < target,
            0 < factor,
    ;
    assert(0 <= scaled < target) by (nonlinear_arith)
        requires
            scaled == (target * factor) / (SCALE as int),
            0 < target,
            300_000 <= factor <= 999_999,
            SCALE == 1_000_000,
    ;
    assert(fx_mul(target, factor) == scaled);
}

/// The value that `braked_speed` computes.
pub open spec fn braked_speed_value(current: i64, max_deceleration: i64, dt: i64) -> i64 {
    let change = fx_mul(fx_mul(max_deceleration, FORCED_BRAKE_SHARE), dt);
    fx_min(current, fx_max(sat_sub(current, change), fx_min(current, SCALE)))
}

/// The speed of a car that is braked at once: lower by 70 % of its
/// maximum deceleration over the tick, but no lower than 1 m/s or than
/// the speed it had, whichever is less, and never higher than the
/// speed it had.
#[verifier::when_used_as_spec(braked_speed_value)]
pub fn braked_speed(current: i64, max_deceleration: i64, dt: i64) -> (r: i64)
    ensures
        r == braked_speed_value(current, max_deceleration, dt),
        r <= current,
        current >= 0 ==> r >= 0,
{
    let change: i64 = fx_mul(fx_mul(max_deceleration, FORCED_BRAKE_SHARE), dt);
    fx_min(current, fx_max(sat_sub(current, change), fx_min(current, SCALE)))
}

/// The value that `braked_velocity` computes.
pub open spec fn braked_velocity_value(v: Vec2, max_deceleration: i64, dt: i64) -> Vec2 {
    scaled_to(v, braked_speed(hypot(v.x, v.y), max_deceleration, dt))
}

/// The velocity of a car that is braked at once: its direction kept,
/// its speed the braked speed.
#[verifier::when_used_as_spec(braked_velocity_value)]
pub fn braked_velocity(v: Vec2, max_deceleration: i64, dt: i64) -> (r: Vec2)
    ensures
        r == braked_velocity_value(v, max_deceleration, dt),
{
    scaled_to(v, braked_speed(hypot(v.x, v.y), max_deceleration, dt))
}

/// Braking at once does not speed a car up: the braked velocity is no
/// longer than the velocity was, for components within the length
/// range.
pub proof fn lemma_braked_is_no_faster(v: Vec2, max_deceleration: i64, dt: i64)
    requires
        -LENGTH_RANGE <= v.x <= LENGTH_RANGE,
        -LENGTH_RANGE <= v.y <= LENGTH_RANGE,
    ensures
        0 <= braked_velocity(v, max_deceleration, dt).magnitude_spec() <= v.magnitude_spec(),
{
    lemma_hypot_covers(v.x as int, v.y as int);
    lemma_hypot_range(v.x as int, v.y as int);
    let mag = hypot(v.x, v.y);
    let s = braked_speed(mag, max_deceleration, dt);
    assert(0 <= s <= mag);
    if mag > 0 {
        lemma_rescaled_length(v.x as int, v.y as int, s as int);
        lemma_quot_bound(v.x * s, mag as int);
        lemma_quot_bound(v.y * s, mag as int);
        assert(-0x4000_0000_0000_0000 * 0x7fff_ffff_ffff_ffff <= v.x * s
            <= 0x4000_0000_0000_0000 * 0x7fff_ffff_ffff_ffff) by (nonlinear_arith)
            requires
                -0x4000_0000_0000_0000 <= v.x <= 0x4000_0000_0000_0000,
                0 <= s <= 0x7fff_ffff_ffff_ffff,
        ;
        assert(-0x4000_0000_0000_0000 * 0x7fff_ffff_ffff_ffff <= v.y * s
            <= 0x4000_0000_0000_0000 * 0x7fff_ffff_ffff_ffff) by (nonlinear_arith)
            requires
                -0x4000_0000_0000_0000 <= v.y <= 0x4000_0000_0000_0000,
                0 <= s <= 0x7fff_ffff_ffff_ffff,
        ;
    }
}

/// A car as a forced gap at `pos` leaves it: unchanged beyond the gap
/// zone; inside it with the slowed target speed, the lower the nearer,
/// and braked at once where it is nearer than 60 % of the zone. The
/// car is never left with a higher target speed or a higher speed than
/// it had.
pub open spec fn forced(c: Car, pos: Point, dt: i64) -> Car {
    let d = distance_to(&c, pos);
    if d < FORCE_GAP_DISTANCE {
        Car {
            behavior: BehaviorState {
                target_speed: slowed_target(c.behavior.target_speed, d),
                ..c.behavior
            },
            velocity: if d < IMMEDIATE_BRAKE_DISTANCE {
                braked_velocity(c.velocity, c.max_deceleration, dt)
            } else {
                c.velocity
            },
            ..c
        }
    } else {
        c
    }
}

/// Slows one car for a forced gap.
pub fn force_car(c: &mut Car, pos: Point, dt: i64)
    ensures
        *final(c) == forced(*old(c), pos, dt),
        final(c).behavior.target_speed <= old(c).behavior.target_speed,
{
    let d: i64 = distance_to(c, pos);
    if d < FORCE_GAP_DISTANCE {
        c.behavior.target_speed = slowed_target(c.behavior.target_speed, d);
        if d < IMMEDIATE_BRAKE_DISTANCE {
            c.velocity = braked_velocity(c.velocity, c.max_deceleration, dt);
        }
    }
}

/// All cars as a forced gap at `pos` leaves them.
pub open spec fn forced_all(cars: Seq<Car>, pos: Point, dt: i64) -> Seq<Car> {
    Seq::new(cars.len(), |i: int| forced(cars[i], pos, dt))
}

/// Forcing a gap decelerates: a car beyond the gap zone stays as it is;
/// a car inside it gets a target speed that is no higher than the one
/// it had, and lower where that was above the floor speed; and its
/// speed is no higher than the one it had, for velocity components
/// within the length range.
pub proof fn lemma_forcing_decelerates(c: Car, pos: Point, dt: i64)
    ensures
        distance_to(&c, pos) >= FORCE_GAP_DISTANCE ==> forced(c, pos, dt) == c,
        forced(c, pos, dt).behavior.target_speed <= c.behavior.target_speed,
        distance_to(&c, pos) < FORCE_GAP_DISTANCE && c.behavior.target_speed
            > FORCED_SPEED_FLOOR ==> FORCED_SPEED_FLOOR <= forced(
            c,
            pos,
            dt,
        ).behavior.target_speed < c.behavior.target_speed,
        -LENGTH_RANGE <= c.velocity.x <= LENGTH_RANGE && -LENGTH_RANGE <= c.velocity.y
            <= LENGTH_RANGE ==> forced(c, pos, dt).speed_spec() <= c.speed_spec(),
{
    let d = distance_to(&c, pos);
    lemma_hypot_range(
        sat_sub(c.position.x, pos.x) as int,
        sat_sub(c.position.y, pos.y) as int,
    );
    if d < FORCE_GAP_DISTANCE {
        if c.behavior.target_speed > FORCED_SPEED_FLOOR {
            lemma_slowed_target_is_lower(c.behavior.target_speed, d);
        }
        if -LENGTH_RANGE <= c.velocity.x <= LENGTH_RANGE && -LENGTH_RANGE <= c.velocity.y
            <= LENGTH_RANGE {
            lemma_braked_is_no_faster(c.velocity, c.max_deceleration, dt);
        }
    }
}

/// Forces a gap at an entry: slows every car within the gap zone, and
/// says whether the entry can take a car now, which it can unless a car
/// is nearer than the floor distance. No car leaves with a higher
/// target speed than it had.
pub fn force_spawn_gap(cars: &mut Vec<Car>, pos: Point, dt: i64) -> (r: bool)
    ensures
        r == entry_clear(old(cars)@, pos, FORCED_SPAWN_FLOOR),
        final(cars)@ == forced_all(old(cars)@, pos, dt),
        forall|i: int|
            0 <= i < old(cars)@.len() ==> (#[trigger] final(cars)@[i]).behavior.target_speed
                <= old(cars)@[i].behavior.target_speed,
{
    let open = can_spawn_at(cars, pos, FORCED_SPAWN_FLOOR);
    let mut i: usize = 0;
    while i < cars.len()
        invariant
            i <= cars.len(),
            cars@.len() == old(cars)@.len(),
            forall|j: int| 0 <= j < i ==> cars@[j] == forced(old(cars)@[j], pos, dt),
            forall|j: int| i <= j < cars@.len() ==> cars@[j] == old(cars)@[j],
            forall|j: int|
                0 <= j < cars@.len() ==> (#[trigger] cars@[j]).behavior.target_speed
                    <= old(cars)@[j].behavior.target_speed,
        decreases cars.len() - i,
    {
        force_car(&mut cars[i], pos, dt);
        i += 1;
    }
    assert(cars@ =~= forced_all(old(cars)@, pos, dt));
    open
}

/// Whether a car counts as traffic near the place.
pub open spec fn is_nearby(c: &Car, pos: Point, radius: i64) -> bool {
    distance_to(c, pos) < radius
}

/// The number of cars among the first `n` within `radius` of the place.
pub open spec fn nearby_count(cars: Seq<Car>, pos: Point, radius: i64, n: int) -> int
    decreases n,
{
    if n <= 0 {
        0
    } else {
        nearby_count(cars, pos, radius, n - 1) + if is_nearby(&cars[n - 1], pos, radius) {
            1int
        } else {
            0int
        }
    }
}

/// The sum of the speeds of those cars.
pub open spec fn nearby_speed_sum(cars: Seq<Car>, pos: Point, radius: i64, n: int) -> int
    decreases n,
{
    if n <= 0 {
        0
    } else {
        nearby_speed_sum(cars, pos, radius, n - 1) + if is_nearby(&cars[n - 1], pos, radius) {
            cars[n - 1].speed_spec()
        } else {
            0int
        }
    }
}

/// The lowest speed among those cars; `LIMIT` for none.
pub open spec fn nearby_min_speed(cars: Seq<Car>, pos: Point, radius: i64, n: int) -> int
    decreases n,
{
    if n <= 0 {
        LIMIT as int
    } else {
        let rest = nearby_min_speed(cars, pos, radius, n - 1);
        if is_nearby(&cars[n - 1], pos, radius) && cars[n - 1].speed_spec() < rest {
            cars[n - 1].speed_spec()
        } else {
            rest
        }
    }
}

/// The speed of a new car at the place: the mean speed of the traffic
/// within the check radius, held between 10 and 35 m/s; the ramp speed
/// where no car is near.
pub open spec fn spawn_speed_value(cars: Seq<Car>, pos: Point) -> int {
    let n = cars.len() as int;
    let count = nearby_count(cars, pos, SPAWN_CHECK_RADIUS, n);
    if count == 0 {
        RAMP_SPEED as int
    } else {
        let mean = nearby_speed_sum(cars, pos, SPAWN_CHECK_RADIUS, n) / count;
        if mean < SPAWN_SPEED_MIN {
            SPAWN_SPEED_MIN as int
        } else if mean > SPAWN_SPEED_MAX {
            SPAWN_SPEED_MAX as int
        } else {
            mean
        }
    }
}

/// The speed of a manually spawned car at the place: the lowest speed
/// of the traffic within the check radius, held between 5 and 30 m/s;
/// the ramp speed where no car is near.
pub open spec fn manual_speed_value(cars: Seq<Car>, pos: Point) -> int {
    let n = cars.len() as int;
    let count = nearby_count(cars, pos, MANUAL_CHECK_RADIUS, n);
    if count == 0 {
        RAMP_SPEED as int
    } else {
        let low = nearby_min_speed(cars, pos, MANUAL_CHECK_RADIUS, n);
        if low < MANUAL_SPEED_MIN {
            MANUAL_SPEED_MIN as int
        } else if low > MANUAL_SPEED_MAX {
            MANUAL_SPEED_MAX as int
        } else {
            low
        }
    }
}

/// Bounds the sum and the count of nearby speeds.
pub proof fn lemma_nearby_bounds(cars: Seq<Car>, pos: Point, radius: i64, n: int)
    requires
        0 <= n <= cars.len(),
    ensures
        0 <= nearby_count(cars, pos, radius, n) <= n,
        0 <= nearby_speed_sum(cars, pos, radius, n) <= nearby_count(cars, pos, radius, n) * LIMIT,
        0 <= nearby_min_speed(cars, pos, radius, n) <= LIMIT,
    decreases n,
{
    if n > 0 {
        lemma_nearby_bounds(cars, pos, radius, n - 1);
        let c = nearby_count(cars, pos, radius, n - 1);
        assert((c + 1) * LIMIT == c * LIMIT + LIMIT) by (nonlinear_arith);
        lemma_hypot_range(cars[n - 1].velocity.x as int, cars[n - 1].velocity.y as int);
    }
}

/// Computes the adaptive speed of an ordinary spawn.
pub fn adaptive_spawn_speed(cars: &Vec<Car>, pos: Point) -> (r: i64)
    ensures
        r == spawn_speed_value(cars@, pos),
        r == RAMP_SPEED || SPAWN_SPEED_MIN <= r <= SPAWN_SPEED_MAX,
{
    let mut sum: i128 = 0;
    let mut count: u64 = 0;
    let mut i: usize = 0;
    while i < cars.len()
        invariant
            i <= cars.len(),
            count == nearby_count(cars@, pos, SPAWN_CHECK_RADIUS, i as int),
            sum == nearby_speed_sum(cars@, pos, SPAWN_CHECK_RADIUS, i as int),
            count <= i,
            0 <= sum <= count * LIMIT,
        decreases cars.len() - i,
    {
        proof {
            lemma_nearby_bounds(cars@, pos, SPAWN_CHECK_RADIUS, i as int + 1);
            assert(count * LIMIT <= 0xffff_ffff_ffff_ffff * LIMIT) by (nonlinear_arith)
                requires
                    0 <= count <= 0xffff_ffff_ffff_ffff,
                    LIMIT == 9_223_372_036_854_775_807,
            ;
        }
        if distance_to(&cars[i], pos) < SPAWN_CHECK_RADIUS {
            let speed: i64 = cars[i].speed();
            sum = sum + speed as i128;
            count = count + 1;
        }
        i += 1;
    }
    if count == 0 {
        RAMP_SPEED
    } else {
        let mean: i128 = sum / (count as i128);
        if mean < SPAWN_SPEED_MIN as i128 {
            SPAWN_SPEED_MIN
        } else if mean > SPAWN_SPEED_MAX as i128 {
            SPAWN_SPEED_MAX
        } else {
            mean as i64
        }
    }
}

/// Computes the conservative speed of a manual spawn.
pub fn manual_spawn_speed(cars: &Vec<Car>, pos: Point) -> (r: i64)
    ensures
        r == manual_speed_value(cars@, pos),
        r == RAMP_SPEED || MANUAL_SPEED_MIN <= r <= MANUAL_SPEED_MAX,
{
    let mut low: i64 = LIMIT;
    let mut count: u64 = 0;
    let mut i: usize = 0;
    while i < cars.len()
        invariant
            i <= cars.len(),
            count == nearby_count(cars@, pos, MANUAL_CHECK_RADIUS, i as int),
            low == nearby_min_speed(cars@, pos, MANUAL_CHECK_RADIUS, i as int),
            count <= i,
        decreases cars.len() - i,
    {
        if distance_to(&cars[i], pos) < MANUAL_CHECK_RADIUS {
            let speed: i64 = cars[i].speed();
            if speed < low {
                low = speed;
            }
            count = count + 1;
        }
        i += 1;
    }
    if count == 0 {
        RAMP_SPEED
    } else {
        fx_clamp_speed(low, MANUAL_SPEED_MIN, MANUAL_SPEED_MAX)
    }
}

/// `v` held between `low` and `high`, for `low <= high`.
fn fx_clamp_speed(v: i64, low: i64, high: i64) -> (r: i64)
    requires
        low <= high,
    ensures
        r == if v < low {
            low
        } else if v > high {
            high
        } else {
            v
        },
{
    if v < low {
        low
    } else if v > high {
        high
    } else {
        v
    }
}

/// A new car: at the pose of its entry, moving in the entry's direction
/// at the given speed, with the envelope of its type and the state of
/// its driver, in the entry's lane with no lane change pending, not
/// flagged for exit, and stamped with the time of its spawn.
pub open spec fn fresh_car(
    id: usize,
    pose: EntryPose,
    speed: i64,
    car_type: CarType,
    behavior: BehaviorState,
    behavior_name: String,
    lane: u32,
    now: i64,
) -> Car {
    Car {
        id: CarId(id),
        position: pose.position,
        velocity: Vec2 { x: fx_mul(pose.direction.x, speed), y: fx_mul(pose.direction.y, speed) },
        acceleration: Vec2 { x: 0, y: 0 },
        heading: pose.heading,
        lane_angle: pose.lane_angle,
        length: car_type.length,
        width: car_type.width,
        max_acceleration: car_type.max_acceleration,
        max_deceleration: car_type.max_deceleration,
        preferred_speed: car_type.preferred_speed,
        current_lane: lane,
        target_lane: None,
        lane_change_progress: 0,
        behavior,
        behavior_type: behavior_name,
        car_type: car_type.id,
        speed_history: [speed, speed, speed],
        marked_for_exit: false,
        spawn_time: now,
        exit_time: None,
    }
}

/// Builds a new car.
pub fn build_car(
    id: usize,
    pose: &EntryPose,
    speed: i64,
    car_type: &CarType,
    behavior: BehaviorState,
    behavior_name: String,
    lane: u32,
    now: i64,
) -> (r: Car)
    ensures
        r == fresh_car(id, *pose, speed, *car_type, behavior, behavior_name, lane, now),
        r.id == CarId(id),
        r.current_lane == lane,
        r.target_lane is None,
        r.lane_change_progress == 0,
        !r.marked_for_exit,
        r.spawn_time == now,
{
    Car {
        id: CarId(id),
        position: pose.position,
        velocity: Vec2 { x: fx_mul(pose.direction.x, speed), y: fx_mul(pose.direction.y, speed) },
        acceleration: Vec2 { x: 0, y: 0 },
        heading: pose.heading,
        lane_angle: pose.lane_angle,
        length: car_type.length,
        width: car_type.width,
        max_acceleration: car_type.max_acceleration,
        max_deceleration: car_type.max_deceleration,
        preferred_speed: car_type.preferred_speed,
        current_lane: lane,
        target_lane: None,
        lane_change_progress: 0,
        behavior,
        behavior_type: behavior_name,
        car_type: car_type.id.clone(),
        speed_history: [speed, speed, speed],
        marked_for_exit: false,
        spawn_time: now,
        exit_time: None,
    }
}

/// The car type that a value picks by weight.
pub open spec fn type_for_value(types: Seq<CarType>, value: int) -> CarType {
    types[weighted_index(car_weights(types), value, 0)]
}

/// Picks a car type by weight.
pub fn pick_car_type(types: &Vec<CarType>, value: u32) -> (r: usize)
    ensures
        r == weighted_index(car_weights(types@), value as int, 0),
        r <= types@.len(),
{
    let ghost weights = car_weights(types@);
    let mut left: u32 = value;
    let mut i: usize = 0;
    while i < types.len()
        invariant
            i <= types.len(),
            weights == car_weights(types@),
            weighted_index(weights, value as int, 0) == weighted_index(
                weights,
                left as int,
                i as int,
            ),
        decreases types.len() - i,
    {
        assert(weights[i as int] == types@[i as int].weight);
        if left < types[i].weight {
            return i;
        }
        left = left - types[i].weight;
        i += 1;
    }
    i
}

/// Whether a car leaves the road now: it drives in the lane of an exit
/// and is within the exit tolerance of it. Cars flagged for exit and
/// cars that are not leave alike.
pub open spec fn should_exit_value(c: &Car, exits: Seq<ExitPoint>, p: &RouteParams) -> bool {
    near_exit_value(c, exits, EXIT_TOLERANCE, p)
}

/// Decides whether the car leaves the road at an exit.
pub fn should_car_exit(c: &Car, exits: &Vec<ExitPoint>, p: &RouteParams) -> (r: bool)
    ensures
        r == should_exit_value(c, exits@, p),
{
    near_exit(c, exits, EXIT_TOLERANCE, p)
}

/// The value that `overstays` computes.
pub open spec fn overstays_value(c: &Car, now: i64) -> bool {
    sat_sub(now, c.spawn_time) > EVICTION_AGE
}

/// Whether the car has been on the road for longer than the eviction
/// age.
#[verifier::when_used_as_spec(overstays_value)]
pub fn overstays(c: &Car, now: i64) -> (r: bool)
    ensures
        r == overstays_value(c, now),
{
    sat_sub(now, c.spawn_time) > EVICTION_AGE
}

/// Whether a car leaves in this tick: it is at an exit, or it has
/// overstayed and the draw evicts it.
pub open spec fn leaves(c: &Car, evict_draw: i64, now: i64, exits: Seq<ExitPoint>, p: &RouteParams) -> bool {
    should_exit_value(c, exits, p) || (overstays(c, now) && evict_draw < EVICTION_CHANCE)
}

/// The cars among the first `n` that stay, in their order.
pub open spec fn staying(
    cars: Seq<Car>,
    draws: Seq<i64>,
    now: i64,
    exits: Seq<ExitPoint>,
    p: &RouteParams,
    n: int,
) -> Seq<Car>
    decreases n,
{
    if n <= 0 {
        Seq::empty()
    } else {
        let rest = staying(cars, draws, now, exits, p, n - 1);
        if leaves(&cars[n - 1], draws[n - 1], now, exits, p) {
            rest
        } else {
            rest.push(cars[n - 1])
        }
    }
}

/// Car `item` is one of the cars `lo..n` of the list that do not leave.
pub open spec fn stays_from(
    cars: Seq<Car>,
    draws: Seq<i64>,
    now: i64,
    exits: Seq<ExitPoint>,
    p: &RouteParams,
    item: Car,
    lo: int,
    n: int,
) -> bool {
    exists|j: int|
        lo <= j < n && #[trigger] cars[j] == item && !leaves(&cars[j], draws[j], now, exits, p)
}

/// Car `item` is among the cars of `out`.
pub open spec fn kept_in(out: Seq<Car>, item: Car) -> bool {
    exists|k: int| 0 <= k < out.len() && #[trigger] out[k] == item
}

/// The cars that stay are cars of the list that do not leave, in the
/// same order; every car that does not leave stays; unique ids stay
/// unique.
pub proof fn lemma_staying(
    cars: Seq<Car>,
    draws: Seq<i64>,
    now: i64,
    exits: Seq<ExitPoint>,
    p: &RouteParams,
    n: int,
)
    requires
        0 <= n <= cars.len(),
    ensures
        staying(cars, draws, now, exits, p, n).len() <= n,
        forall|k: int|
            0 <= k < staying(cars, draws, now, exits, p, n).len() ==> #[trigger] stays_from(
                cars,
                draws,
                now,
                exits,
                p,
                staying(cars, draws, now, exits, p, n)[k],
                k,
                n,
            ),
        forall|j: int|
            0 <= j < n && !leaves(&cars[j], draws[j], now, exits, p) ==> #[trigger] kept_in(
                staying(cars, draws, now, exits, p, n),
                cars[j],
            ),
        ids_unique(cars) ==> ids_unique(staying(cars, draws, now, exits, p, n)),
    decreases n,
{
    if n > 0 {
        lemma_staying(cars, draws, now, exits, p, n - 1);
        let rest = staying(cars, draws, now, exits, p, n - 1);
        let all = staying(cars, draws, now, exits, p, n);
        let gone = leaves(&cars[n - 1], draws[n - 1], now, exits, p);
        assert forall|k: int| 0 <= k < all.len() implies #[trigger] stays_from(
            cars,
            draws,
            now,
            exits,
            p,
            all[k],
            k,
            n,
        ) by {
            if k < rest.len() {
                assert(stays_from(cars, draws, now, exits, p, rest[k], k, n - 1));
                let j = choose|j: int|
                    k <= j < n - 1 && #[trigger] cars[j] == rest[k] && !leaves(
                        &cars[j],
                        draws[j],
                        now,
                        exits,
                        p,
                    );
                assert(k <= j < n && cars[j] == all[k]);
            } else {
                assert(cars[n - 1] == all[k]);
            }
        }
        assert forall|j: int|
            0 <= j < n && !leaves(&cars[j], draws[j], now, exits, p) implies #[trigger] kept_in(
            all,
            cars[j],
        ) by {
            if j < n - 1 {
                assert(kept_in(rest, cars[j]));
                let k = choose|k: int| 0 <= k < rest.len() && #[trigger] rest[k] == cars[j];
                assert(all[k] == cars[j]);
            } else {
                assert(all[rest.len() as int] == cars[j]);
            }
        }
        if ids_unique(cars) && !gone {
            assert forall|a: int, b: int| 0 <= a < b < all.len() implies all[a].id != all[b].id by {
                if b == rest.len() {
                    assert(stays_from(cars, draws, now, exits, p, rest[a], a, n - 1));
                    let j = choose|j: int|
                        a <= j < n - 1 && #[trigger] cars[j] == rest[a] && !leaves(
                            &cars[j],
                            draws[j],
                            now,
                            exits,
                            p,
                        );
                    assert(cars[j].id != cars[n - 1].id);
                }
            }
        }
    }
}

/// Every car that stays carries the id of a car of the list.
pub proof fn lemma_staying_ids(
    cars: Seq<Car>,
    draws: Seq<i64>,
    now: i64,
    exits: Seq<ExitPoint>,
    p: &RouteParams,
    bound: usize,
)
    requires
        forall|j: int| 0 <= j < cars.len() ==> (#[trigger] cars[j]).id.0 < bound,
    ensures
        forall|k: int|
            0 <= k < staying(cars, draws, now, exits, p, cars.len() as int).len() ==> (
            #[trigger] staying(cars, draws, now, exits, p, cars.len() as int)[k]).id.0 < bound,
{
    let n = cars.len() as int;
    let all = staying(cars, draws, now, exits, p, n);
    lemma_staying(cars, draws, now, exits, p, n);
    assert forall|k: int| 0 <= k < all.len() implies (#[trigger] all[k]).id.0 < bound by {
        assert(stays_from(cars, draws, now, exits, p, all[k], k, n));
        let j = choose|j: int|
            k <= j < n && #[trigger] cars[j] == all[k] && !leaves(
                &cars[j],
                draws[j],
                now,
                exits,
                p,
            );
        assert(cars[j].id.0 < bound);
    }
}

} // verus!
