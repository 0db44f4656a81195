//! The behavior engine: per-tick driver decisions from one random stream.
//!
//! Every decision is a function of the car, the snapshot of all cars and
//! the numbers drawn for the car. The decisions are intents written onto
//! the car; they do not move it.
use vstd::prelude::*;
use rand::rngs::StdRng;
use crate::config::cars::behavior_weights;
use crate::config::cars::copy_behaviors;
use crate::config::cars::total_weight;
use crate::config::cars::weight_sum;
use crate::config::CarsConfig;
use crate::config::DriverBehavior;
use crate::config::ExitPoint;
use crate::config::RouteConfig;
use crate::fixed::fx_abs;
use crate::fixed::fx_clamp;
use crate::fixed::fx_div;
use crate::fixed::fx_mul;
use crate::fixed::mul_div;
use crate::fixed::sat_add;
use crate::fixed::sat_sub;
use crate::fixed::SCALE;
use crate::rng::draw_below;
use crate::rng::draw_coin;
use crate::rng::draw_noise;
use crate::rng::draw_unit;
use crate::rng::new_rng;
use crate::rng::noise_spec;
use crate::simulation::BehaviorState;
use crate::simulation::Car;
use crate::simulation::kernel::RouteParams;
use crate::simulation::marshal::create_route_params;
use crate::simulation::marshal::route_params_of;
use crate::simulation::road::near_exit;
use crate::simulation::road::near_exit_value;
use crate::simulation::road::separation;
use crate::simulation::SimulationState;
use crate::simulation::state::ids_unique;
use crate::text::owned_text;

verus! {

/// A minute, in millionths of a second.
pub const MINUTE: i64 = 60_000_000;

/// Share of the speed variance that becomes the spread of the noise (0.1).
pub const NOISE_SHARE: i64 = 100_000;

/// Clearance a lane change needs beyond the car's own length (10 m).
pub const LANE_CHANGE_CLEARANCE: i64 = 10_000_000;

/// How near an exit must be for a driver to consider it (30 degrees).
pub const EXIT_INTENT_TOLERANCE: i64 = 30_000_000;

/// Target speed of a car before its first behavior update (25 m/s).
pub const INITIAL_TARGET_SPEED: i64 = 25_000_000;

/// The numbers drawn for one car in one tick.
#[derive(Debug, Clone, Copy, PartialEq, Eq, Structural)]
pub struct BehaviorDraws {
    /// Noise factor of the speed intent, around one.
    pub noise: i64,
    /// Unit draw against the lane change probability.
    pub lane_chance: i64,
    /// Which side to change to where both are open.
    pub go_left: bool,
    /// Unit draw against the exit probability.
    pub exit_chance: i64,
}

impl BehaviorDraws {
    /// The unit draws lie in `[0, 1)`.
    pub open spec fn admissible(&self) -> bool {
        &&& 0 <= self.lane_chance < SCALE
        &&& 0 <= self.exit_chance < SCALE
    }

    /// The numbers can be drawn for the car: the unit draws lie in
    /// `[0, 1)`, and the noise is the noise factor of a sum of twelve
    /// unit draws at the spread of the car's driver.
    pub open spec fn fits(&self, c: &Car) -> bool {
        &&& self.admissible()
        &&& exists|sum: int|
            0 <= sum <= 11_999_988 && self.noise == #[trigger] noise_spec(
                sum,
                noise_spread(c.behavior.speed_variance) as int,
            )
    }
}

/// The intents decided for one car in one tick.
#[derive(Debug, Clone, Copy, PartialEq, Eq, Structural)]
pub struct BehaviorUpdate {
    pub target_speed: i64,
    pub target_lane: Option<u32>,
    pub lane_change_requested: bool,
    pub exit_requested: bool,
}

/// The value that `noise_spread` computes.
pub open spec fn noise_spread_value(variance: i64) -> i64 {
    fx_mul(fx_abs(sat_sub(variance, SCALE)), NOISE_SHARE)
}

/// The spread of the speed noise of a driver: a tenth of the distance
/// of the speed variance from one.
#[verifier::when_used_as_spec(noise_spread_value)]
pub fn noise_spread(variance: i64) -> (r: i64)
    ensures
        r == noise_spread_value(variance),
{
    fx_mul(fx_abs(sat_sub(variance, SCALE)), NOISE_SHARE)
}

/// The value that `calculate_target_speed` computes.
pub open spec fn speed_intent_value(c: &Car, noise: i64, p: &RouteParams) -> i64 {
    let factor = if c.behavior.speed_variance != SCALE {
        noise
    } else {
        SCALE
    };
    fx_clamp(
        fx_mul(fx_mul(c.preferred_speed, c.behavior.speed_variance), factor),
        p.min_speed,
        p.speed_limit,
    )
}

/// The speed a driver wants: the preferred speed times the driver's
/// speed variance times the noise, held within the speed limits. A
/// driver with variance one takes no noise.
#[verifier::when_used_as_spec(speed_intent_value)]
pub fn calculate_target_speed(c: &Car, noise: i64, p: &RouteParams) -> (r: i64)
    ensures
        r == speed_intent_value(c, noise, p),
        p.min_speed <= p.speed_limit ==> p.min_speed <= r <= p.speed_limit,
{
    let factor: i64 = if c.behavior.speed_variance != SCALE {
        noise
    } else {
        SCALE
    };
    fx_clamp(
        fx_mul(fx_mul(c.preferred_speed, c.behavior.speed_variance), factor),
        p.min_speed,
        p.speed_limit,
    )
}

/// The value that `lane_change_due` computes.
pub open spec fn lane_change_due_value(c: &Car, now: i64) -> bool {
    c.behavior.lane_change_frequency > 0 && sat_sub(now, c.behavior.last_lane_change_time)
        > fx_div(MINUTE, c.behavior.lane_change_frequency)
}

/// Whether enough time has passed since the car's last lane change:
/// more than a minute divided by the driver's lane changes per minute.
/// A driver who never changes lanes is never due.
#[verifier::when_used_as_spec(lane_change_due_value)]
pub fn lane_change_due(c: &Car, now: i64) -> (r: bool)
    ensures
        r == lane_change_due_value(c, now),
{
    c.behavior.lane_change_frequency > 0 && sat_sub(now, c.behavior.last_lane_change_time)
        > fx_div(MINUTE, c.behavior.lane_change_frequency)
}

/// The value that `lane_change_chance` computes.
pub open spec fn lane_change_chance_value(c: &Car, dt: i64) -> i64 {
    mul_div(c.behavior.lane_change_frequency, dt, MINUTE)
}

/// The probability of a lane change within one tick.
#[verifier::when_used_as_spec(lane_change_chance_value)]
pub fn lane_change_chance(c: &Car, dt: i64) -> (r: i64)
    ensures
        r == lane_change_chance_value(c, dt),
{
    mul_div(c.behavior.lane_change_frequency, dt, MINUTE)
}

/// The value that `adjacent_lane` computes.
pub open spec fn adjacent_lane_value(lane: u32, lane_count: u32, go_left: bool) -> Option<u32> {
    let can_left = lane > 1;
    let can_right = lane < lane_count;
    if can_left && can_right {
        if go_left {
            Some((lane - 1) as u32)
        } else {
            Some((lane + 1) as u32)
        }
    } else if can_left {
        Some((lane - 1) as u32)
    } else if can_right {
        Some((lane + 1) as u32)
    } else {
        None
    }
}

/// The lane next to `lane` to change to: the left or the right one as
/// `go_left` says where both exist, the one that exists otherwise.
#[verifier::when_used_as_spec(adjacent_lane_value)]
pub fn adjacent_lane(lane: u32, lane_count: u32, go_left: bool) -> (r: Option<u32>)
    ensures
        r == adjacent_lane_value(lane, lane_count, go_left),
        match r {
            Some(t) => (t + 1 == lane || t == lane + 1) && (1 <= lane <= lane_count ==> 1 <= t
                <= lane_count),
            None => true,
        },
{
    let can_left = lane > 1;
    let can_right = lane < lane_count;
    if can_left && can_right {
        if go_left {
            Some(lane - 1)
        } else {
            Some(lane + 1)
        }
    } else if can_left {
        Some(lane - 1)
    } else if can_right {
        Some(lane + 1)
    } else {
        None
    }
}

/// The value that `safety_distance` computes.
pub open spec fn safety_distance_value(c: &Car) -> i64 {
    sat_add(c.length, LANE_CHANGE_CLEARANCE)
}

/// The clearance a car needs in a lane it changes to.
#[verifier::when_used_as_spec(safety_distance_value)]
pub fn safety_distance(c: &Car) -> (r: i64)
    ensures
        r == safety_distance_value(c),
{
    sat_add(c.length, LANE_CHANGE_CLEARANCE)
}

/// Whether car `j` occupies the lane `target` within the safety distance
/// of car `i`.
pub open spec fn blocks_lane(cars: Seq<Car>, i: int, j: int, target: u32, p: &RouteParams) -> bool {
    j != i && cars[j].current_lane == target && separation(&cars[i], &cars[j], p)
        < safety_distance(&cars[i])
}

/// No other car occupies the lane `target` within the safety distance of
/// car `i`.
pub open spec fn lane_clear(cars: Seq<Car>, i: int, target: u32, p: &RouteParams) -> bool {
    forall|j: int| 0 <= j < cars.len() ==> !#[trigger] blocks_lane(cars, i, j, target, p)
}

/// Checks that no other car occupies the target lane within the safety
/// distance of car `i`.
pub fn is_lane_change_safe(cars: &Vec<Car>, i: usize, target: u32, p: &RouteParams) -> (r: bool)
    requires
        i < cars.len(),
    ensures
        r == lane_clear(cars@, i as int, target, p),
{
    let needed: i64 = safety_distance(&cars[i]);
    let mut j: usize = 0;
    while j < cars.len()
        invariant
            j <= cars.len(),
            i < cars.len(),
            needed == safety_distance(&cars@[i as int]),
            forall|k: int| 0 <= k < j ==> !#[trigger] blocks_lane(cars@, i as int, k, target, p),
        decreases cars.len() - j,
    {
        if j != i && cars[j].current_lane == target {
            if separation(&cars[i], &cars[j], p) < needed {
                assert(blocks_lane(cars@, i as int, j as int, target, p));
                return false;
            }
        }
        j += 1;
    }
    true
}

/// The lane car `i` starts to change to, if it does: the car has no
/// change pending, is due for one, has a neighbouring lane, wins the
/// draw against its lane change probability, and the lane is clear.
pub open spec fn lane_decision(
    cars: Seq<Car>,
    i: int,
    draws: BehaviorDraws,
    now: i64,
    dt: i64,
    p: &RouteParams,
) -> Option<u32> {
    let c = cars[i];
    if c.target_lane is Some || !lane_change_due(&c, now) {
        None
    } else {
        match adjacent_lane(c.current_lane, p.lane_count, draws.go_left) {
            None => None,
            Some(t) => if draws.lane_chance < lane_change_chance(&c, dt) && lane_clear(
                cars,
                i,
                t,
                p,
            ) {
                Some(t)
            } else {
                None
            },
        }
    }
}

/// Decides whether car `i` starts a lane change, and to which lane.
pub fn check_lane_change_decision(
    cars: &Vec<Car>,
    i: usize,
    draws: &BehaviorDraws,
    now: i64,
    dt: i64,
    p: &RouteParams,
) -> (r: Option<u32>)
    requires
        i < cars.len(),
    ensures
        r == lane_decision(cars@, i as int, *draws, now, dt, p),
{
    let c = &cars[i];
    if c.target_lane.is_some() {
        return None;
    }
    if !lane_change_due(c, now) {
        return None;
    }
    match adjacent_lane(c.current_lane, p.lane_count, draws.go_left) {
        None => None,
        Some(t) => {
            if draws.lane_chance < lane_change_chance(c, dt) {
                if is_lane_change_safe(cars, i, t, p) {
                    return Some(t);
                }
            }
            None
        },
    }
}

/// Whether the driver decides to leave: the car is not yet flagged, it
/// is in the lane of an exit and near it, and the draw wins against the
/// driver's exit probability.
pub open spec fn exit_decision(c: &Car, draws: BehaviorDraws, exits: Seq<ExitPoint>, p: &RouteParams) -> bool {
    !c.marked_for_exit && near_exit_value(c, exits, EXIT_INTENT_TOLERANCE, p) && draws.exit_chance
        < c.behavior.exit_probability
}

/// Decides whether the driver of the car wants to take a nearby exit.
pub fn check_exit_decision_for_car(
    c: &Car,
    draws: &BehaviorDraws,
    exits: &Vec<ExitPoint>,
    p: &RouteParams,
) -> (r: bool)
    ensures
        r == exit_decision(c, *draws, exits@, p),
{
    if c.marked_for_exit {
        return false;
    }
    if !near_exit(c, exits, EXIT_INTENT_TOLERANCE, p) {
        return false;
    }
    draws.exit_chance < c.behavior.exit_probability
}

/// The intents of car `i` for the drawn numbers.
pub open spec fn decide(
    cars: Seq<Car>,
    i: int,
    draws: BehaviorDraws,
    now: i64,
    dt: i64,
    exits: Seq<ExitPoint>,
    p: &RouteParams,
) -> BehaviorUpdate {
    let c = cars[i];
    let change = lane_decision(cars, i, draws, now, dt, p);
    BehaviorUpdate {
        target_speed: calculate_target_speed(&c, draws.noise, p),
        target_lane: match change {
            Some(t) => Some(t),
            None => c.target_lane,
        },
        lane_change_requested: change is Some,
        exit_requested: exit_decision(&c, draws, exits, p),
    }
}

/// Decides the intents of car `i` from the snapshot and the draws.
pub fn calculate_car_behavior_update(
    cars: &Vec<Car>,
    i: usize,
    draws: &BehaviorDraws,
    now: i64,
    dt: i64,
    exits: &Vec<ExitPoint>,
    p: &RouteParams,
) -> (r: BehaviorUpdate)
    requires
        i < cars.len(),
    ensures
        r == decide(cars@, i as int, *draws, now, dt, exits@, p),
{
    let c = &cars[i];
    let change = check_lane_change_decision(cars, i, draws, now, dt, p);
    BehaviorUpdate {
        target_speed: calculate_target_speed(c, draws.noise, p),
        target_lane: match change {
            Some(t) => Some(t),
            None => c.target_lane,
        },
        lane_change_requested: change.is_some(),
        exit_requested: check_exit_decision_for_car(c, draws, exits, p),
    }
}

/// The car with the intents written onto it at time `now`. A requested
/// lane change resets the time of the last change and the progress; a
/// requested exit flags the car and stamps it.
pub open spec fn applied(c: Car, u: BehaviorUpdate, now: i64) -> Car {
    Car {
        behavior: BehaviorState {
            target_speed: u.target_speed,
            last_lane_change_time: if u.lane_change_requested {
                now
            } else {
                c.behavior.last_lane_change_time
            },
            ..c.behavior
        },
        target_lane: u.target_lane,
        lane_change_progress: if u.lane_change_requested {
            0
        } else {
            c.lane_change_progress
        },
        marked_for_exit: c.marked_for_exit || u.exit_requested,
        exit_time: if u.exit_requested {
            Some(now)
        } else {
            c.exit_time
        },
        ..c
    }
}

/// Writes the intents onto the car.
pub fn apply_update(c: &mut Car, u: &BehaviorUpdate, now: i64)
    ensures
        *final(c) == applied(*old(c), *u, now),
{
    c.behavior.target_speed = u.target_speed;
    c.target_lane = u.target_lane;
    if u.lane_change_requested {
        c.behavior.last_lane_change_time = now;
        c.lane_change_progress = 0;
    }
    if u.exit_requested {
        c.marked_for_exit = true;
        c.exit_time = Some(now);
    }
}

/// The cars after the behavior step under the given draws: every car
/// with the intents decided on the snapshot before the step.
pub open spec fn behaved(
    cars: Seq<Car>,
    draws: Seq<BehaviorDraws>,
    now: i64,
    dt: i64,
    exits: Seq<ExitPoint>,
    p: &RouteParams,
) -> Seq<Car> {
    Seq::new(cars.len(), |i: int| applied(cars[i], decide(cars, i, draws[i], now, dt, exits, p), now))
}

/// The draws of a tick: for each car one set of numbers that can be
/// drawn for it.
pub open spec fn admissible_draws(draws: Seq<BehaviorDraws>, cars: Seq<Car>) -> bool {
    draws.len() == cars.len() && forall|i: int|
        0 <= i < cars.len() ==> (#[trigger] draws[i]).fits(&cars[i])
}

/// Safety: whatever is drawn, a car that starts a lane change starts it
/// into a lane that no other car occupies within the safety distance,
/// measured on the cars as they are when the decision is made; the lane
/// is next to its own and a lane of the road.
pub proof fn lemma_lane_change_safe(
    cars: Seq<Car>,
    draws: Seq<BehaviorDraws>,
    now: i64,
    dt: i64,
    exits: Seq<ExitPoint>,
    p: &RouteParams,
    i: int,
)
    requires
        0 <= i < cars.len(),
        draws.len() == cars.len(),
    ensures
        ({
            let before = cars[i];
            let after = behaved(cars, draws, now, dt, exits, p)[i];
            after.target_lane != before.target_lane ==> {
                &&& before.target_lane is None
                &&& after.target_lane is Some
                &&& lane_clear(cars, i, after.target_lane->0, p)
                &&& (after.target_lane->0 + 1 == before.current_lane || after.target_lane->0
                    == before.current_lane + 1)
                &&& before.lanes_within(p.lane_count) ==> 1 <= after.target_lane->0
                    <= p.lane_count
                &&& after.lane_change_progress == 0
                &&& after.behavior.last_lane_change_time == now
            }
        }),
{
}

/// The behavior step writes intents only: identity, place, motion and
/// the car's envelope stay as they are, and so does the current lane.
pub proof fn lemma_behavior_frame(
    cars: Seq<Car>,
    draws: Seq<BehaviorDraws>,
    now: i64,
    dt: i64,
    exits: Seq<ExitPoint>,
    p: &RouteParams,
)
    requires
        draws.len() == cars.len(),
    ensures
        behaved(cars, draws, now, dt, exits, p).len() == cars.len(),
        forall|i: int|
            0 <= i < cars.len() ==> {
                let before = cars[i];
                let after = #[trigger] behaved(cars, draws, now, dt, exits, p)[i];
                &&& after.id == before.id
                &&& after.position == before.position
                &&& after.velocity == before.velocity
                &&& after.lane_angle == before.lane_angle
                &&& after.current_lane == before.current_lane
                &&& after.behavior_type == before.behavior_type
                &&& after.spawn_time == before.spawn_time
                &&& (before.marked_for_exit ==> after.marked_for_exit && after.exit_time
                    == before.exit_time)
                &&& (p.min_speed <= p.speed_limit ==> p.min_speed <= after.behavior.target_speed
                    <= p.speed_limit)
                &&& (before.lanes_within(p.lane_count) ==> after.lanes_within(p.lane_count))
                &&& (before.progress_in_range() ==> after.progress_in_range())
            },
        ids_unique(cars) ==> ids_unique(behaved(cars, draws, now, dt, exits, p)),
{
    let next = behaved(cars, draws, now, dt, exits, p);
    if ids_unique(cars) {
        assert forall|i: int, j: int| 0 <= i < j < next.len() implies next[i].id != next[j].id by {
            assert(next[i].id == cars[i].id);
            assert(next[j].id == cars[j].id);
        }
    }
}

/// The index of the first behavior from index `i` on with the name, or
/// the length of the list.
pub open spec fn behavior_index(list: Seq<(String, DriverBehavior)>, name: Seq<char>, i: int) -> int
    decreases list.len() - i,
{
    if i < 0 || i >= list.len() {
        list.len() as int
    } else if list[i].0@ == name {
        i
    } else {
        behavior_index(list, name, i + 1)
    }
}

/// The state a driver of the given parameters starts with.
pub open spec fn initial_state(b: DriverBehavior) -> BehaviorState {
    BehaviorState {
        following_distance_factor: b.following_distance_factor,
        lane_change_frequency: b.lane_change_frequency,
        speed_variance: b.speed_variance,
        reaction_time: b.reaction_time,
        exit_probability: b.exit_probability,
        last_lane_change_time: 0,
        target_speed: INITIAL_TARGET_SPEED,
    }
}

/// The state of a driver for whom no profile is configured.
pub open spec fn fallback_state() -> BehaviorState {
    BehaviorState {
        following_distance_factor: SCALE,
        lane_change_frequency: 800_000,
        speed_variance: SCALE,
        reaction_time: 1_200_000,
        exit_probability: 250_000,
        last_lane_change_time: 0,
        target_speed: INITIAL_TARGET_SPEED,
    }
}

/// The state a driver of the named profile starts with: that of the
/// profile, else that of the profile `normal`, else the fallback.
pub open spec fn behavior_state_for(list: Seq<(String, DriverBehavior)>, name: Seq<char>) -> BehaviorState {
    let k = behavior_index(list, name, 0);
    let n = behavior_index(list, "normal"@, 0);
    if k < list.len() {
        initial_state(list[k].1)
    } else if n < list.len() {
        initial_state(list[n].1)
    } else {
        fallback_state()
    }
}

/// Index of the first behavior with the name.
fn find_behavior(list: &Vec<(String, DriverBehavior)>, name: &str) -> (r: Option<usize>)
    ensures
        match r {
            Some(k) => k == behavior_index(list@, name@, 0) && k < list@.len(),
            None => behavior_index(list@, name@, 0) == list@.len(),
        },
{
    let wanted = owned_text(name);
    let mut i: usize = 0;
    while i < list.len()
        invariant
            i <= list.len(),
            wanted@ == name@,
            behavior_index(list@, name@, 0) == behavior_index(list@, name@, i as int),
        decreases list.len() - i,
    {
        if list[i].0 == wanted {
            return Some(i);
        }
        i += 1;
    }
    None
}

fn state_of(b: &DriverBehavior) -> (r: BehaviorState)
    ensures
        r == initial_state(*b),
{
    BehaviorState {
        following_distance_factor: b.following_distance_factor,
        lane_change_frequency: b.lane_change_frequency,
        speed_variance: b.speed_variance,
        reaction_time: b.reaction_time,
        exit_probability: b.exit_probability,
        last_lane_change_time: 0,
        target_speed: INITIAL_TARGET_SPEED,
    }
}

/// The index that a value picks from a list of weights, from index `i`
/// on: the first whose weight exceeds what is left of the value after
/// the weights before it are taken off; the length of the list if the
/// value is not below the sum of the weights.
pub open spec fn weighted_index(weights: Seq<int>, value: int, i: int) -> int
    decreases weights.len() - i,
{
    if i < 0 || i >= weights.len() {
        weights.len() as int
    } else if value < weights[i] {
        i
    } else {
        weighted_index(weights, value - weights[i], i + 1)
    }
}

/// A value below the total weight picks the index whose share of the
/// range `0..total` holds it: the sum of the weights before the index is
/// at most the value, and with the weight of the index it exceeds it.
pub proof fn lemma_weighted_index(weights: Seq<int>, value: int, i: int)
    requires
        0 <= i <= weights.len(),
        forall|k: int| 0 <= k < weights.len() ==> weights[k] >= 0,
        0 <= value,
        value + weight_sum(weights, i) < total_weight(weights),
    ensures
        ({
            let k = weighted_index(weights, value, i);
            &&& i <= k < weights.len()
            &&& weight_sum(weights, k) <= value + weight_sum(weights, i) < weight_sum(
                weights,
                k + 1,
            )
        }),
    decreases weights.len() - i,
{
    if i < weights.len() {
        if value >= weights[i] {
            assert(weight_sum(weights, i + 1) == weight_sum(weights, i) + weights[i]);
            lemma_weighted_index(weights, value - weights[i], i + 1);
        } else {
            assert(weight_sum(weights, i + 1) == weight_sum(weights, i) + weights[i]);
        }
    }
}

/// The name of the behavior that a value picks by weight.
pub open spec fn behavior_name_for_value(list: Seq<(String, DriverBehavior)>, value: int) -> Seq<
    char,
> {
    list[weighted_index(behavior_weights(list), value, 0)].0@
}

/// Picks a behavior by weight.
fn pick_behavior(list: &Vec<(String, DriverBehavior)>, value: u32) -> (r: usize)
    ensures
        r == weighted_index(behavior_weights(list@), value as int, 0),
        r <= list@.len(),
{
    let ghost weights = behavior_weights(list@);
    let mut left: u32 = value;
    let mut i: usize = 0;
    while i < list.len()
        invariant
            i <= list.len(),
            weights == behavior_weights(list@),
            weighted_index(weights, value as int, 0) == weighted_index(
                weights,
                left as int,
                i as int,
            ),
        decreases list.len() - i,
    {
        assert(weights[i as int] == list@[i as int].1.weight);
        if left < list[i].1.weight {
            return i;
        }
        left = left - list[i].1.weight;
        i += 1;
    }
    i
}

pub struct BehaviorEngine {
    behaviors: Vec<(String, DriverBehavior)>,
    route: RouteConfig,
    params: RouteParams,
    rng: StdRng,
}

impl BehaviorEngine {
    /// The engine holds a valid route with its parameter record and a
    /// catalog of behaviors whose weights sum to 100.
    pub closed spec fn wf(&self) -> bool {
        &&& self.route.valid()
        &&& self.params.wf()
        &&& self.params.lane_count == self.route.route.geometry.lane_count
        &&& self.params.min_speed < self.params.speed_limit
        &&& self.behaviors@.len() > 0
        &&& total_weight(behavior_weights(self.behaviors@)) == 100
    }

    /// The parameter record of the route.
    pub closed spec fn params(&self) -> RouteParams {
        self.params
    }

    /// The exits of the route.
    pub closed spec fn exits(&self) -> Seq<ExitPoint> {
        self.route.route.exits@
    }

    /// The behavior catalog.
    pub closed spec fn behaviors(&self) -> Seq<(String, DriverBehavior)> {
        self.behaviors@
    }

    /// An engine for a valid configuration, with its own random stream:
    /// the stream of the seed, or one seeded by the operating system.
    pub fn new(cars_config: &CarsConfig, route: RouteConfig, seed: Option<u64>) -> (r: Self)
        requires
            cars_config.valid(),
            route.valid(),
        ensures
            r.wf(),
            r.behaviors() == cars_config.behavior@,
            r.exits() == route.route.exits@,
            Some(r.params()) == route_params_of(&route, &cars_config.collision_avoidance),
    {
        let behaviors = copy_behaviors(&cars_config.behavior);
        let params = create_route_params(&route, &cars_config.collision_avoidance).unwrap();
        let rng = new_rng(seed);
        BehaviorEngine { behaviors, route, params, rng }
    }

    /// Draws the numbers of one car for one tick.
    fn draw_for(&mut self, c: &Car) -> (r: BehaviorDraws)
        ensures
            r.fits(c),
            final(self).behaviors == old(self).behaviors,
            final(self).route == old(self).route,
            final(self).params == old(self).params,
    {
        let noise = draw_noise(&mut self.rng, noise_spread(c.behavior.speed_variance));
        let lane_chance = draw_unit(&mut self.rng);
        let go_left = draw_coin(&mut self.rng);
        let exit_chance = draw_unit(&mut self.rng);
        BehaviorDraws { noise, lane_chance, go_left, exit_chance }
    }

    /// Decides and writes the intents of every car for this tick.
    ///
    /// The numbers are drawn from the engine's stream car by car, in the
    /// order of the cars. All decisions are made on the cars as they
    /// are before the step and written afterwards.
    pub fn update(&mut self, state: &mut SimulationState)
        requires
            old(self).wf(),
        ensures
            final(self).wf(),
            final(self).params() == old(self).params(),
            final(self).exits() == old(self).exits(),
            final(self).behaviors() == old(self).behaviors(),
            exists|draws: Seq<BehaviorDraws>|
                admissible_draws(draws, old(state).cars@) && final(state).cars@ == behaved(
                    old(state).cars@,
                    draws,
                    old(state).time,
                    old(state).dt,
                    old(self).exits(),
                    &old(self).params(),
                ),
            final(state).cars@.len() == old(state).cars@.len(),
            final(state).time == old(state).time,
            final(state).dt == old(state).dt,
            final(state).total_spawned == old(state).total_spawned,
            final(state).active_cars == old(state).active_cars,
            old(state).wf() ==> final(state).wf(),
            old(state).cars_sound(old(self).params().lane_count) ==> final(state).cars_sound(
                old(self).params().lane_count,
            ),
    {
        let now = state.time;
        let dt = state.dt;
        let mut updates: Vec<BehaviorUpdate> = Vec::new();
        let ghost mut drawn: Seq<BehaviorDraws> = Seq::empty();
        let mut i: usize = 0;
        while i < state.cars.len()
            invariant
                i <= state.cars.len(),
                *state == *old(state),
                self.behaviors == old(self).behaviors,
                self.route == old(self).route,
                self.params == old(self).params,
                updates@.len() == i,
                drawn.len() == i,
                forall|j: int| 0 <= j < i ==> (#[trigger] drawn[j]).fits(&state.cars@[j]),
                forall|j: int|
                    0 <= j < i ==> updates@[j] == decide(
                        state.cars@,
                        j,
                        drawn[j],
                        now,
                        dt,
                        self.route.route.exits@,
                        &self.params,
                    ),
            decreases state.cars.len() - i,
        {
            let draws = self.draw_for(&state.cars[i]);
            let update = calculate_car_behavior_update(
                &state.cars,
                i,
                &draws,
                now,
                dt,
                &self.route.route.exits,
                &self.params,
            );
            updates.push(update);
            proof {
                drawn = drawn.push(draws);
            }
            i += 1;
        }
        let mut k: usize = 0;
        while k < state.cars.len()
            invariant
                k <= state.cars.len(),
                state.cars@.len() == old(state).cars@.len(),
                updates@.len() == state.cars@.len(),
                state.time == old(state).time,
                state.dt == old(state).dt,
                state.total_spawned == old(state).total_spawned,
                state.active_cars == old(state).active_cars,
                now == old(state).time,
                forall|j: int| k <= j < state.cars@.len() ==> state.cars@[j] == old(state).cars@[j],
                forall|j: int|
                    0 <= j < k ==> state.cars@[j] == applied(old(state).cars@[j], updates@[j], now),
            decreases state.cars.len() - k,
        {
            apply_update(&mut state.cars[k], &updates[k], now);
            k += 1;
        }
        proof {
            let exits = old(self).route.route.exits@;
            let p = old(self).params;
            let expected = behaved(old(state).cars@, drawn, now, dt, exits, &p);
            assert(state.cars@ =~= expected);
            assert(admissible_draws(drawn, old(state).cars@));
            lemma_behavior_frame(old(state).cars@, drawn, now, dt, exits, &p);
            if old(state).cars_sound(p.lane_count) {
                assert forall|j: int| 0 <= j < state.cars@.len() implies (
                #[trigger] state.cars@[j]).lanes_within(p.lane_count)
                    && state.cars@[j].progress_in_range() by {
                    assert(old(state).cars@[j].lanes_within(p.lane_count));
                    assert(state.cars@[j] == expected[j]);
                }
            }
        }
    }

    /// The state a driver of the named profile starts with: that of the
    /// profile, else that of the profile `normal`, else a fixed default.
    pub fn create_behavior_state(&mut self, behavior_name: &str) -> (r: BehaviorState)
        ensures
            r == behavior_state_for(old(self).behaviors(), behavior_name@),
            *final(self) == *old(self),
    {
        match find_behavior(&self.behaviors, behavior_name) {
            Some(k) => state_of(&self.behaviors[k].1),
            None => match find_behavior(&self.behaviors, "normal") {
                Some(n) => state_of(&self.behaviors[n].1),
                None => BehaviorState {
                    following_distance_factor: SCALE,
                    lane_change_frequency: 800_000,
                    speed_variance: SCALE,
                    reaction_time: 1_200_000,
                    exit_probability: 250_000,
                    last_lane_change_time: 0,
                    target_speed: INITIAL_TARGET_SPEED,
                },
            },
        }
    }

    /// The name of the behavior that a value in `0..100` picks by weight.
    pub fn behavior_for_value(&self, value: u32) -> (r: String)
        requires
            self.wf(),
            value < 100,
        ensures
            r@ == behavior_name_for_value(self.behaviors(), value as int),
            ({
                let k = weighted_index(behavior_weights(self.behaviors()), value as int, 0);
                &&& 0 <= k < self.behaviors().len()
                &&& r@ == self.behaviors()[k].0@
                &&& weight_sum(behavior_weights(self.behaviors()), k) <= value < weight_sum(
                    behavior_weights(self.behaviors()),
                    k + 1,
                )
            }),
    {
        proof {
            lemma_weighted_index(behavior_weights(self.behaviors@), value as int, 0);
        }
        let k = pick_behavior(&self.behaviors, value);
        self.behaviors[k].0.clone()
    }

    /// Draws the name of a behavior: the one that a value drawn from
    /// `0..100` picks by weight.
    pub fn select_random_behavior(&mut self) -> (r: String)
        requires
            old(self).wf(),
        ensures
            final(self).wf(),
            final(self).params() == old(self).params(),
            final(self).exits() == old(self).exits(),
            final(self).behaviors() == old(self).behaviors(),
            exists|value: int|
                0 <= value < 100 && r@ == #[trigger] behavior_name_for_value(
                    old(self).behaviors(),
                    value,
                ),
            exists|k: int|
                0 <= k < old(self).behaviors().len() && r@ == (#[trigger] old(self).behaviors()[k]).0@,
    {
        let value = draw_below(&mut self.rng, 100);
        let name = self.behavior_for_value(value);
        proof {
            let k = weighted_index(behavior_weights(self.behaviors@), value as int, 0);
            assert(name@ == self.behaviors@[k].0@);
            assert(name@ == behavior_name_for_value(old(self).behaviors@, value as int));
        }
        name
    }
}

} // verus!
