//! The traffic manager: behavior, then spawning, then despawning.
use vstd::prelude::*;
use rand::rngs::StdRng;
use crate::config::cars::car_weights;
use crate::config::cars::copy_car_types;
use crate::config::CarsConfig;
use crate::config::CarType;
use crate::config::EntryInterval;
use crate::config::EntryPoint;
use crate::config::ExitPoint;
use crate::config::RouteConfig;
use crate::fixed::fx_div;
use crate::fixed::sat_sub;
use crate::fixed::SCALE;
use crate::rng::between;
use crate::rng::draw_below;
use crate::rng::draw_unit;
use crate::rng::new_rng;
use crate::simulation::behavior::admissible_draws;
use crate::simulation::behavior::behaved;
use crate::simulation::behavior::behavior_name_for_value;
use crate::simulation::behavior::behavior_state_for;
use crate::simulation::behavior::BehaviorDraws;
use crate::simulation::behavior::BehaviorEngine;
use crate::simulation::behavior::lemma_weighted_index;
use crate::simulation::BehaviorState;
use crate::simulation::Car;
use crate::simulation::kernel::RouteParams;
use crate::simulation::marshal::create_route_params;
use crate::simulation::marshal::route_params_of;
use crate::simulation::road::calculate_entry_position;
use crate::simulation::road::entry_pose_value;
use crate::simulation::road::EntryPose;
use crate::simulation::SimulationState;
use crate::simulation::spawn::adaptive_spawn_speed;
use crate::simulation::spawn::build_car;
use crate::simulation::spawn::can_spawn_at_entry_permissive;
use crate::simulation::spawn::can_spawn_at_entry_static;
use crate::simulation::spawn::entry_clear;
use crate::simulation::spawn::EVICTION_CHANCE;
use crate::simulation::spawn::force_spawn_gap;
use crate::simulation::spawn::forced;
use crate::simulation::spawn::forced_all;
use crate::simulation::spawn::FORCED_SPAWN_FLOOR;
use crate::simulation::spawn::fresh_car;
use crate::simulation::spawn::leaves;
use crate::simulation::spawn::lemma_staying;
use crate::simulation::spawn::lemma_staying_ids;
use crate::simulation::spawn::manual_spawn_speed;
use crate::simulation::spawn::manual_speed_value;
use crate::simulation::spawn::MIN_SPAWN_DISTANCE;
use crate::simulation::spawn::overstays;
use crate::simulation::spawn::PERMISSIVE_SPAWN_DISTANCE;
use crate::simulation::spawn::pick_car_type;
use crate::simulation::spawn::should_car_exit;
use crate::simulation::spawn::spawn_speed_value;
use crate::simulation::spawn::staying;
use crate::simulation::spawn::type_for_value;
use crate::simulation::state::has_id;
use crate::simulation::state::ids_unique;

verus! {

pub struct TrafficManager {
    car_types: Vec<CarType>,
    route: RouteConfig,
    cars_config: CarsConfig,
    behavior_engine: BehaviorEngine,
    next_car_id: usize,
    /// Time until the next spawn, for each entry of the route in order.
    spawn_timers: Vec<i64>,
    rng: StdRng,
    params: RouteParams,
}

/// Every car carries an id below `bound`.
pub open spec fn ids_below(cars: Seq<Car>, bound: usize) -> bool {
    forall|i: int| 0 <= i < cars.len() ==> (#[trigger] cars[i]).id.0 < bound
}

/// The car `after` is the car `before` with at most its velocity and its
/// target speed changed.
pub open spec fn slowed_only(before: Car, after: Car) -> bool {
    after == (Car {
        velocity: after.velocity,
        behavior: BehaviorState { target_speed: after.behavior.target_speed, ..before.behavior },
        ..before
    })
}

/// The car is as a spawn at time `now` makes it, but for its velocity
/// and target speed: it has the id, drives in a lane of the road with
/// no lane change pending, is not flagged for exit and is stamped `now`.
pub open spec fn newly_spawned(c: Car, id: int, now: i64, lane_count: u32) -> bool {
    &&& c.id.0 == id
    &&& 1 <= c.current_lane <= lane_count
    &&& c.target_lane is None
    &&& c.lane_change_progress == 0
    &&& !c.marked_for_exit
    &&& c.exit_time is None
    &&& c.spawn_time == now
}

/// What spawning may do to the cars: the cars that were there stay in
/// place, at most slowed, and new cars follow them, with ids counting
/// up from `first_id`.
pub open spec fn grown(
    before: Seq<Car>,
    after: Seq<Car>,
    first_id: usize,
    now: i64,
    lane_count: u32,
) -> bool {
    &&& after.len() >= before.len()
    &&& forall|i: int| 0 <= i < before.len() ==> slowed_only(before[i], #[trigger] after[i])
    &&& forall|i: int|
        before.len() <= i < after.len() ==> newly_spawned(
            #[trigger] after[i],
            first_id + (i - before.len()),
            now,
            lane_count,
        )
}

/// Every number of the sequence is a unit draw: it lies in `[0, 1)`.
pub open spec fn unit_draws(draws: Seq<i64>) -> bool {
    forall|i: int| 0 <= i < draws.len() ==> 0 <= #[trigger] draws[i] < SCALE
}

/// What spawning works on: the cars, the timers of the entries, the id
/// of the next car and the number of cars ever spawned.
pub struct SpawnState {
    pub cars: Seq<Car>,
    pub timers: Seq<i64>,
    pub next_id: usize,
    pub total_spawned: u32,
}

/// Whether one more car may be spawned: the population is below the
/// cap and the counters can still count.
pub open spec fn room_in(before: SpawnState, cap: u32) -> bool {
    &&& before.cars.len() < cap
    &&& before.total_spawned < u32::MAX
    &&& before.next_id < usize::MAX
}

/// Whether the turn of entry `e` tries to spawn: its timer runs out in
/// this tick and there is room for a car.
pub open spec fn turn_is_due(before: SpawnState, e: int, cap: u32, dt: i64) -> bool {
    sat_sub(before.timers[e], dt) <= 0 && room_in(before, cap)
}

/// Whether the turn of entry `e` spawns a car: it is due, and no car is
/// within the minimum spawn distance of the entry or, failing that,
/// none is within the floor distance.
pub open spec fn turn_spawns(
    before: SpawnState,
    e: int,
    entry: &EntryPoint,
    cap: u32,
    p: &RouteParams,
    dt: i64,
) -> bool {
    let place = entry_pose_value(entry, p).position;
    turn_is_due(before, e, cap, dt) && (entry_clear(before.cars, place, MIN_SPAWN_DISTANCE)
        || entry_clear(before.cars, place, FORCED_SPAWN_FLOOR))
}

/// The cars as the turn of entry `e` leaves those that were there: with
/// a gap forced at the entry where the turn is due and a car is within
/// the minimum spawn distance, unchanged otherwise.
pub open spec fn cars_after_gap(
    before: SpawnState,
    e: int,
    entry: &EntryPoint,
    cap: u32,
    p: &RouteParams,
    dt: i64,
) -> Seq<Car> {
    let place = entry_pose_value(entry, p).position;
    if turn_is_due(before, e, cap, dt) && !entry_clear(before.cars, place, MIN_SPAWN_DISTANCE) {
        forced_all(before.cars, place, dt)
    } else {
        before.cars
    }
}

/// The car that the turn of an entry adds is a new car at the entry:
/// of the type and of the driver profile that two values drawn from
/// `0..100` pick by weight, with the id that was next, at the adaptive
/// spawn speed.
pub open spec fn spawned_at(
    car: Car,
    id: usize,
    ready: Seq<Car>,
    entry: &EntryPoint,
    config: &CarsConfig,
    p: &RouteParams,
    now: i64,
) -> bool {
    let pose = entry_pose_value(entry, p);
    exists|type_value: int, behavior_value: int|
        0 <= type_value < 100 && 0 <= behavior_value < 100 && car.behavior_type@
            == #[trigger] behavior_name_for_value(config.behavior@, behavior_value) && car
            == fresh_car(
            id,
            pose,
            spawn_speed_value(ready, pose.position) as i64,
            #[trigger] type_for_value(config.car_types@, type_value),
            behavior_state_for(config.behavior@, car.behavior_type@),
            car.behavior_type,
            entry.lane,
            now,
        )
}

/// What the turn of entry `e` does. The timer of the entry is counted
/// down by the timestep. Where the turn spawns, the new car comes
/// behind the cars that were there, its id and the spawn counter count
/// up, and the timer starts over at an interval of the entry. Where it
/// does not, the timer keeps its count, run out or not. The timers of
/// the other entries stay as they are.
pub open spec fn entry_turn(
    before: SpawnState,
    after: SpawnState,
    e: int,
    entry: &EntryPoint,
    config: &CarsConfig,
    p: &RouteParams,
    now: i64,
    dt: i64,
) -> bool {
    let cap = config.simulation.total_cars;
    let ready = cars_after_gap(before, e, entry, cap, p, dt);
    &&& after.timers.len() == before.timers.len()
    &&& forall|k: int|
        0 <= k < before.timers.len() && k != e ==> #[trigger] after.timers[k] == before.timers[k]
    &&& if turn_spawns(before, e, entry, cap, p, dt) {
        &&& interval_allowed(config, entry.id@, after.timers[e])
        &&& after.cars.len() == ready.len() + 1
        &&& after.cars.take(ready.len() as int) == ready
        &&& spawned_at(after.cars.last(), before.next_id, ready, entry, config, p, now)
        &&& after.next_id == before.next_id + 1
        &&& after.total_spawned == before.total_spawned + 1
    } else {
        &&& after.timers[e] == sat_sub(before.timers[e], dt)
        &&& after.cars == ready
        &&& after.next_id == before.next_id
        &&& after.total_spawned == before.total_spawned
    }
}

/// Whether a manual spawn creates a car: the route has an entry, there
/// is room for a car, and no car is within the permissive spawn
/// distance of the first entry.
pub open spec fn manual_spawn_due(
    before: SpawnState,
    entries: Seq<EntryPoint>,
    cap: u32,
    p: &RouteParams,
) -> bool {
    &&& entries.len() > 0
    &&& room_in(before, cap)
    &&& entry_clear(
        before.cars,
        entry_pose_value(&entries[0], p).position,
        PERMISSIVE_SPAWN_DISTANCE,
    )
}

/// What a manual spawn of the named driver profile does. Where it is
/// due, one car comes behind the cars that were there: a new car at the
/// first entry, of the type that a value drawn from `0..100` picks by
/// weight, with the named profile and the state that the profile starts
/// with, with the id that was next, at the conservative spawn speed;
/// the next id and the spawn counter count up. Where it is not due,
/// nothing changes. The timers of the entries stay as they are.
pub open spec fn manually_spawned(
    before: SpawnState,
    after: SpawnState,
    behavior_name: Seq<char>,
    entries: Seq<EntryPoint>,
    config: &CarsConfig,
    p: &RouteParams,
    now: i64,
) -> bool {
    &&& after.timers == before.timers
    &&& if manual_spawn_due(before, entries, config.simulation.total_cars, p) {
        let pose = entry_pose_value(&entries[0], p);
        &&& after.cars.len() == before.cars.len() + 1
        &&& after.cars.take(before.cars.len() as int) == before.cars
        &&& after.total_spawned == before.total_spawned + 1
        &&& after.next_id == before.next_id + 1
        &&& after.cars.last().behavior_type@ == behavior_name
        &&& exists|type_value: int|
            0 <= type_value < 100 && after.cars.last() == fresh_car(
                before.next_id,
                pose,
                manual_speed_value(before.cars, pose.position) as i64,
                #[trigger] type_for_value(config.car_types@, type_value),
                behavior_state_for(config.behavior@, behavior_name),
                after.cars.last().behavior_type,
                entries[0].lane,
                now,
            )
    } else {
        &&& after.cars == before.cars
        &&& after.total_spawned == before.total_spawned
        &&& after.next_id == before.next_id
    }
}

/// Ids are not reused: the turn of an entry keeps the ids of the cars
/// that were there, gives a new car the id that was next, and never
/// lowers the next id. As every id on the road lies below the next id
/// and a despawn leaves the next id alone, a new car's id differs from
/// the id of every car spawned before it, on the road or not.
pub proof fn lemma_turn_keeps_ids_fresh(
    before: SpawnState,
    after: SpawnState,
    e: int,
    entry: &EntryPoint,
    config: &CarsConfig,
    p: &RouteParams,
    now: i64,
    dt: i64,
)
    requires
        0 <= e < before.timers.len(),
        entry_turn(before, after, e, entry, config, p, now, dt),
        ids_below(before.cars, before.next_id),
        ids_unique(before.cars),
    ensures
        after.next_id >= before.next_id,
        ids_below(after.cars, after.next_id),
        ids_unique(after.cars),
        forall|k: int|
            0 <= k < after.cars.len() ==> (if k < before.cars.len() {
                (#[trigger] after.cars[k]).id == before.cars[k].id
            } else {
                after.cars[k].id.0 == before.next_id
            }),
{
    let cap = config.simulation.total_cars;
    let ready = cars_after_gap(before, e, entry, cap, p, dt);
    assert(ready.len() == before.cars.len());
    assert forall|k: int| 0 <= k < ready.len() implies (#[trigger] ready[k]).id
        == before.cars[k].id by {
        let place = entry_pose_value(entry, p).position;
        assert(ready[k] == before.cars[k] || ready[k] == forced(before.cars[k], place, dt));
    }
    if turn_spawns(before, e, entry, cap, p, dt) {
        let added = after.cars.last();
        assert(after.cars.len() == ready.len() + 1);
        assert(added == after.cars[ready.len() as int]);
        assert(added.id.0 == before.next_id);
        assert forall|k: int| 0 <= k < ready.len() implies (#[trigger] after.cars[k]).id
            == before.cars[k].id by {
            assert(after.cars.take(ready.len() as int)[k] == ready[k]);
        }
        assert forall|i: int, j: int| 0 <= i < j < after.cars.len() implies after.cars[i].id
            != after.cars[j].id by {
            assert(after.cars[i].id == before.cars[i].id);
            if j < ready.len() {
                assert(after.cars[j].id == before.cars[j].id);
            } else {
                assert(before.cars[i].id.0 < before.next_id);
            }
        }
        assert forall|k: int| 0 <= k < after.cars.len() implies (#[trigger] after.cars[k]).id.0
            < after.next_id by {
            if k < ready.len() {
                assert(after.cars[k].id == before.cars[k].id);
                assert(before.cars[k].id.0 < before.next_id);
            }
        }
    } else {
        assert(after.cars == ready);
        assert forall|i: int, j: int| 0 <= i < j < after.cars.len() implies after.cars[i].id
            != after.cars[j].id by {
            assert(after.cars[i].id == before.cars[i].id);
            assert(after.cars[j].id == before.cars[j].id);
        }
        assert forall|k: int| 0 <= k < after.cars.len() implies (#[trigger] after.cars[k]).id.0
            < after.next_id by {
            assert(after.cars[k].id == before.cars[k].id);
            assert(before.cars[k].id.0 < before.next_id);
        }
    }
}

/// A deferred spawn stays due: where the timer of an entry runs out and
/// its turn does not spawn, the timer is still run out after the turn,
/// and it runs out again in every later tick.
pub proof fn lemma_deferred_spawn_stays_due(
    before: SpawnState,
    after: SpawnState,
    e: int,
    entry: &EntryPoint,
    config: &CarsConfig,
    p: &RouteParams,
    now: i64,
    dt: i64,
    later_dt: i64,
)
    requires
        0 <= e < before.timers.len(),
        entry_turn(before, after, e, entry, config, p, now, dt),
        sat_sub(before.timers[e], dt) <= 0,
        !turn_spawns(before, e, entry, config.simulation.total_cars, p, dt),
        later_dt >= 0,
    ensures
        after.timers[e] <= 0,
        sat_sub(after.timers[e], later_dt) <= 0,
        after.next_id == before.next_id,
        after.total_spawned == before.total_spawned,
{
}

/// A spawn that is due happens once the gap is open: an entry whose
/// timer has run out takes a car in the first tick in which there is
/// room for a car and no car is within the floor distance of the entry.
pub proof fn lemma_due_spawn_happens(
    before: SpawnState,
    e: int,
    entry: &EntryPoint,
    cap: u32,
    p: &RouteParams,
    dt: i64,
)
    requires
        0 <= e < before.timers.len(),
        before.timers[e] <= 0,
        dt >= 0,
        room_in(before, cap),
        entry_clear(before.cars, entry_pose_value(entry, p).position, FORCED_SPAWN_FLOOR),
    ensures
        turn_spawns(before, e, entry, cap, p, dt),
{
}

/// The states that spawning passes through in one tick: every entry of
/// the route has its turn, in the order of the route.
pub open spec fn spawning_trace(
    trace: Seq<SpawnState>,
    entries: Seq<EntryPoint>,
    config: &CarsConfig,
    p: &RouteParams,
    now: i64,
    dt: i64,
) -> bool {
    &&& trace.len() == entries.len() + 1
    &&& forall|e: int|
        0 <= e < entries.len() ==> entry_turn(
            #[trigger] trace[e],
            trace[e + 1],
            e,
            &entries[e],
            config,
            p,
            now,
            dt,
        )
}

/// What one tick of traffic management does, whatever is drawn: first
/// every car takes the intents decided for it on the cars as they were;
/// then every entry has its turn; then the cars that leave are taken
/// out, and the others keep their order.
pub open spec fn managed(
    before: SpawnState,
    after: SpawnState,
    entries: Seq<EntryPoint>,
    config: &CarsConfig,
    exits: Seq<ExitPoint>,
    p: &RouteParams,
    now: i64,
    dt: i64,
) -> bool {
    exists|draws: Seq<BehaviorDraws>, trace: Seq<SpawnState>, evictions: Seq<i64>|
        #![trigger admissible_draws(draws, before.cars), spawning_trace(trace, entries, config, p, now, dt), staying(trace.last().cars, evictions, now, exits, p, trace.last().cars.len() as int)]
        {
            &&& admissible_draws(draws, before.cars)
            &&& spawning_trace(trace, entries, config, p, now, dt)
            &&& trace[0] == (SpawnState {
                cars: behaved(before.cars, draws, now, dt, exits, p),
                ..before
            })
            &&& evictions.len() == trace.last().cars.len()
            &&& unit_draws(evictions)
            &&& after == (SpawnState {
                cars: staying(
                    trace.last().cars,
                    evictions,
                    now,
                    exits,
                    p,
                    trace.last().cars.len() as int,
                ),
                ..trace.last()
            })
        }
}

/// The index of the first spawn interval from index `i` on that names
/// the entry, or the length of the list.
pub open spec fn interval_index(list: Seq<EntryInterval>, entry_id: Seq<char>, i: int) -> int
    decreases list.len() - i,
{
    if i < 0 || i >= list.len() {
        list.len() as int
    } else if list[i].entry_id@ == entry_id {
        i
    } else {
        interval_index(list, entry_id, i + 1)
    }
}

/// Index of the first spawn interval that names the entry.
fn find_interval(list: &Vec<EntryInterval>, entry_id: &String) -> (r: Option<usize>)
    ensures
        match r {
            Some(k) => k == interval_index(list@, entry_id@, 0) && k < list@.len(),
            None => interval_index(list@, entry_id@, 0) == list@.len(),
        },
{
    let mut i: usize = 0;
    while i < list.len()
        invariant
            i <= list.len(),
            interval_index(list@, entry_id@, 0) == interval_index(list@, entry_id@, i as int),
        decreases list.len() - i,
    {
        if list[i].entry_id == *entry_id {
            return Some(i);
        }
        i += 1;
    }
    None
}

/// Whether `interval` is a spawn interval of the entry: within the
/// bounds configured for the entry, or the inverse of the spawn rate
/// where none are configured.
pub open spec fn interval_allowed(
    config: &CarsConfig,
    entry_id: Seq<char>,
    interval: i64,
) -> bool {
    let list = config.traffic_flow.entry_intervals@;
    let k = interval_index(list, entry_id, 0);
    if k < list.len() {
        list[k].min_interval <= interval <= list[k].max_interval
    } else {
        interval == fx_div(SCALE, config.simulation.spawn_rate)
    }
}

/// Draws the time until the next spawn at an entry.
fn draw_interval(rng: &mut StdRng, config: &CarsConfig, entry_id: &String) -> (r: i64)
    requires
        config.valid(),
    ensures
        interval_allowed(config, entry_id@, r),
{
    match find_interval(&config.traffic_flow.entry_intervals, entry_id) {
        Some(k) => {
            let interval = &config.traffic_flow.entry_intervals[k];
            assert(config.traffic_flow.entry_intervals@[k as int].defect() is None);
            between(rng, interval.min_interval, interval.max_interval)
        },
        None => fx_div(SCALE, config.simulation.spawn_rate),
    }
}

impl TrafficManager {
    /// The manager holds a valid configuration, a behavior engine for
    /// the same route, and one spawn timer for each entry.
    pub closed spec fn wf(&self) -> bool {
        &&& self.route.valid()
        &&& self.cars_config.valid()
        &&& self.car_types@ == self.cars_config.car_types@
        &&& self.behavior_engine.wf()
        &&& self.behavior_engine.params() == self.params
        &&& self.behavior_engine.exits() == self.route.route.exits@
        &&& self.behavior_engine.behaviors() == self.cars_config.behavior@
        &&& route_params_of(&self.route, &self.cars_config.collision_avoidance) == Some(self.params)
        &&& self.params.wf()
        &&& self.spawn_timers@.len() == self.route.route.entries@.len()
    }

    /// The population cap.
    pub open spec fn cap(&self) -> u32 {
        self.cars_config().simulation.total_cars
    }

    /// The id that the next car gets.
    pub closed spec fn next_id(&self) -> usize {
        self.next_car_id
    }

    /// The parameter record of the route.
    pub closed spec fn params(&self) -> RouteParams {
        self.params
    }

    /// The route.
    pub closed spec fn route(&self) -> RouteConfig {
        self.route
    }

    /// The configuration of the traffic.
    pub closed spec fn cars_config(&self) -> CarsConfig {
        self.cars_config
    }

    /// The spawn timers, one for each entry in order.
    pub closed spec fn timers(&self) -> Seq<i64> {
        self.spawn_timers@
    }

    /// What spawning works on, for the manager and a state.
    pub open spec fn phase(&self, state: &SimulationState) -> SpawnState {
        SpawnState {
            cars: state.cars@,
            timers: self.timers(),
            next_id: self.next_id(),
            total_spawned: state.total_spawned,
        }
    }

    /// The manager's configuration is that of `other`.
    pub closed spec fn same_setup(&self, other: &TrafficManager) -> bool {
        &&& self.route == other.route
        &&& self.cars_config == other.cars_config
        &&& self.car_types == other.car_types
        &&& self.params == other.params
        &&& self.behavior_engine.params() == other.behavior_engine.params()
        &&& self.behavior_engine.exits() == other.behavior_engine.exits()
        &&& self.behavior_engine.behaviors() == other.behavior_engine.behaviors()
    }

    /// A manager for a valid configuration. Each entry's timer starts
    /// at an interval drawn for the entry; car ids start at zero.
    pub fn new(cars_config: CarsConfig, route: RouteConfig, seed: Option<u64>) -> (r: Self)
        requires
            cars_config.valid(),
            route.valid(),
        ensures
            r.wf(),
            r.next_id() == 0,
            r.cap() == cars_config.simulation.total_cars,
            Some(r.params()) == route_params_of(&route, &cars_config.collision_avoidance),
            r.route() == route,
            r.cars_config() == cars_config,
            r.timers().len() == route.route.entries@.len(),
            forall|e: int|
                0 <= e < route.route.entries@.len() ==> interval_allowed(
                    &cars_config,
                    route.route.entries@[e].id@,
                    #[trigger] r.timers()[e],
                ),
    {
        let behavior_engine = BehaviorEngine::new(&cars_config, route.copy(), seed);
        let params = create_route_params(&route, &cars_config.collision_avoidance).unwrap();
        let mut rng = new_rng(seed);
        let mut spawn_timers: Vec<i64> = Vec::new();
        let mut e: usize = 0;
        while e < route.route.entries.len()
            invariant
                e <= route.route.entries.len(),
                cars_config.valid(),
                spawn_timers@.len() == e,
                forall|k: int|
                    0 <= k < e ==> interval_allowed(
                        &cars_config,
                        route.route.entries@[k].id@,
                        #[trigger] spawn_timers@[k],
                    ),
            decreases route.route.entries.len() - e,
        {
            let interval = draw_interval(&mut rng, &cars_config, &route.route.entries[e].id);
            spawn_timers.push(interval);
            e += 1;
        }
        let car_types = copy_car_types(&cars_config.car_types);
        TrafficManager {
            car_types,
            route,
            cars_config,
            behavior_engine,
            next_car_id: 0,
            spawn_timers,
            rng,
            params,
        }
    }

    /// The time until the next spawn at entry `e`; `None` where the
    /// route has no such entry.
    pub fn timer(&self, e: usize) -> (r: Option<i64>)
        ensures
            r == if e < self.timers().len() {
                Some(self.timers()[e as int])
            } else {
                None
            },
    {
        if e < self.spawn_timers.len() {
            Some(self.spawn_timers[e])
        } else {
            None
        }
    }

    /// The id that the next car gets.
    pub fn next_car_id(&self) -> (r: usize)
        ensures
            r == self.next_id(),
    {
        self.next_car_id
    }

    /// Whether the manager can take over the state: the state is well
    /// formed and all its car ids are below the next id of the manager.
    pub open spec fn accepts(&self, state: &SimulationState) -> bool {
        state.wf() && ids_below(state.cars@, self.next_id())
    }

    /// Checks whether the manager can take over the state.
    pub fn check_accepts(&self, state: &SimulationState) -> (r: bool)
        ensures
            r == self.accepts(state),
    {
        if state.active_cars as usize != state.cars.len() {
            return false;
        }
        if state.cars.len() > state.total_spawned as usize {
            return false;
        }
        let mut j: usize = 0;
        while j < state.cars.len()
            invariant
                j <= state.cars.len(),
                forall|a: int, b: int| 0 <= a < b < j ==> state.cars@[a].id != state.cars@[b].id,
                forall|a: int| 0 <= a < j ==> (#[trigger] state.cars@[a]).id.0 < self.next_car_id,
            decreases state.cars.len() - j,
        {
            if state.cars[j].id.0 >= self.next_car_id {
                return false;
            }
            let mut i: usize = 0;
            while i < j
                invariant
                    i <= j < state.cars.len(),
                    forall|a: int, b: int|
                        0 <= a < b < j ==> state.cars@[a].id != state.cars@[b].id,
                    forall|a: int| 0 <= a < i ==> state.cars@[a].id != state.cars@[j as int].id,
                decreases j - i,
            {
                if state.cars[i].id == state.cars[j].id {
                    return false;
                }
                i += 1;
            }
            j += 1;
        }
        true
    }

    /// Whether one more car may be spawned: the population is below the
    /// cap and the counters can still count.
    pub open spec fn has_room(&self, state: &SimulationState) -> bool {
        &&& state.active_cars < self.cap()
        &&& state.total_spawned < u32::MAX
        &&& self.next_id() < usize::MAX
    }

    /// Whether the counters can count one more car: the spawn counter
    /// and the next id are below the largest number they can hold.
    pub open spec fn can_count(&self, state: &SimulationState) -> bool {
        &&& state.total_spawned < u32::MAX
        &&& self.next_id() < usize::MAX
    }

    fn room(&self, state: &SimulationState) -> (r: bool)
        ensures
            r == self.has_room(state),
    {
        state.active_cars < self.cars_config.simulation.total_cars && state.total_spawned
            < u32::MAX && self.next_car_id < usize::MAX
    }

    /// Creates one car at the pose of an entry and adds it to the state.
    /// The type of the car is the one that a value drawn from `0..100`
    /// picks by weight; `behavior_name` names the driver's profile;
    /// `speed` is the speed of the car.
    fn spawn_car(
        &mut self,
        pose: &EntryPose,
        lane: u32,
        speed: i64,
        behavior_name: String,
        state: &mut SimulationState,
    )
        requires
            old(self).wf(),
            old(self).accepts(old(state)),
            old(self).can_count(old(state)),
        ensures
            final(self).wf(),
            final(self).same_setup(old(self)),
            final(self).timers() == old(self).timers(),
            final(self).next_id() == old(self).next_id() + 1,
            final(self).accepts(final(state)),
            final(state).cars@.last().id.0 == old(self).next_id(),
            !has_id(old(state).cars@, final(state).cars@.last().id),
            final(state).cars@.len() == old(state).cars@.len() + 1,
            final(state).cars@.take(old(state).cars@.len() as int) == old(state).cars@,
            exists|type_value: int|
                0 <= type_value < 100 && final(state).cars@.last() == fresh_car(
                    old(self).next_id(),
                    *pose,
                    speed,
                    #[trigger] type_for_value(old(self).cars_config().car_types@, type_value),
                    behavior_state_for(old(self).cars_config().behavior@, behavior_name@),
                    behavior_name,
                    lane,
                    old(state).time,
                ),
            final(state).total_spawned == old(state).total_spawned + 1,
            final(state).time == old(state).time,
            final(state).dt == old(state).dt,
    {
        let value = draw_below(&mut self.rng, 100);
        proof {
            let weights = car_weights(self.car_types@);
            assert forall|k: int| 0 <= k < weights.len() implies weights[k] >= 0 by {}
            lemma_weighted_index(weights, value as int, 0);
        }
        let k = pick_car_type(&self.car_types, value);
        let behavior_state = self.behavior_engine.create_behavior_state(behavior_name.as_str());
        let car = build_car(
            self.next_car_id,
            pose,
            speed,
            &self.car_types[k],
            behavior_state,
            behavior_name,
            lane,
            state.time,
        );
        proof {
            assert(!has_id(state.cars@, car.id)) by {
                if has_id(state.cars@, car.id) {
                    let i = choose|i: int|
                        0 <= i < state.cars@.len() && (#[trigger] state.cars@[i]).id == car.id;
                    assert(state.cars@[i].id.0 < self.next_car_id);
                }
            }
            assert(self.cars_config.car_types@[k as int] == self.car_types@[k as int]);
            assert(self.car_types@[k as int] == type_for_value(
                self.cars_config.car_types@,
                value as int,
            ));
        }
        state.add_car(car);
        self.next_car_id += 1;
        proof {
            assert(state.cars@.take(old(state).cars@.len() as int) =~= old(state).cars@);
            assert forall|i: int| 0 <= i < state.cars@.len() implies (#[trigger] state.cars@[i]).id.0
                < self.next_car_id by {
                if i < old(state).cars@.len() {
                    assert(old(state).cars@[i].id.0 < old(self).next_car_id);
                }
            }
        }
    }

    /// Creates one car at an entry, with a drawn driver profile and the
    /// adaptive speed of an ordinary spawn. The car takes the id that
    /// was next, which lies above the id of every car spawned before it,
    /// whether that car is still on the road or not; the cap is the
    /// caller's to mind.
    pub fn spawn_car_at_entry(&mut self, entry: &EntryPoint, state: &mut SimulationState)
        requires
            old(self).wf(),
            old(self).accepts(old(state)),
            old(self).can_count(old(state)),
        ensures
            final(self).wf(),
            final(self).same_setup(old(self)),
            final(self).timers() == old(self).timers(),
            final(self).next_id() == old(self).next_id() + 1,
            final(self).accepts(final(state)),
            final(state).cars@.last().id.0 == old(self).next_id(),
            !has_id(old(state).cars@, final(state).cars@.last().id),
            final(state).cars@.len() == old(state).cars@.len() + 1,
            final(state).cars@.take(old(state).cars@.len() as int) == old(state).cars@,
            spawned_at(
                final(state).cars@.last(),
                old(self).next_id(),
                old(state).cars@,
                entry,
                &old(self).cars_config(),
                &old(self).params(),
                old(state).time,
            ),
            final(state).total_spawned == old(state).total_spawned + 1,
            final(state).time == old(state).time,
            final(state).dt == old(state).dt,
    {
        let pose = calculate_entry_position(entry, &self.params);
        let speed = adaptive_spawn_speed(&state.cars, pose.position);
        let behavior_name = self.behavior_engine.select_random_behavior();
        let ghost behavior_value = choose|value: int|
            0 <= value < 100 && behavior_name@ == #[trigger] behavior_name_for_value(
                self.cars_config.behavior@,
                value,
            );
        self.spawn_car(&pose, entry.lane, speed, behavior_name, state);
        proof {
            let type_value = choose|value: int|
                0 <= value < 100 && state.cars@.last() == fresh_car(
                    old(self).next_car_id,
                    pose,
                    speed,
                    #[trigger] type_for_value(old(self).cars_config.car_types@, value),
                    behavior_state_for(old(self).cars_config.behavior@, behavior_name@),
                    behavior_name,
                    entry.lane,
                    old(state).time,
                );
            assert(state.cars@.last().behavior_type == behavior_name);
            assert(behavior_name@ == behavior_name_for_value(
                old(self).cars_config.behavior@,
                behavior_value,
            ));
        }
    }

    /// Gives one entry its turn in a tick: counts its timer down by the
    /// timestep and, where the timer has run out and there is room for
    /// a car, tries to spawn.
    ///
    /// The entry takes a car if no car is within the minimum spawn
    /// distance. Else the cars within the gap zone are slowed, and the
    /// entry takes a car unless a car is within the floor distance. A
    /// spawn draws a new interval for the timer. A spawn that cannot
    /// happen is deferred: the timer stays run out, and the next tick
    /// tries again. Returns whether a car was spawned.
    pub fn tick_entry(&mut self, e: usize, state: &mut SimulationState) -> (spawned: bool)
        requires
            old(self).wf(),
            old(self).accepts(old(state)),
            e < old(self).timers().len(),
        ensures
            final(self).wf(),
            final(self).same_setup(old(self)),
            final(self).cap() == old(self).cap(),
            final(self).params() == old(self).params(),
            final(self).route() == old(self).route(),
            final(self).cars_config() == old(self).cars_config(),
            final(self).accepts(final(state)),
            final(state).time == old(state).time,
            final(state).dt == old(state).dt,
            final(self).timers().len() == old(self).timers().len(),
            forall|k: int|
                0 <= k < old(self).timers().len() && k != e ==> final(self).timers()[k] == old(self).timers()[k],
            e < old(self).route().route.entries@.len(),
            spawned == turn_spawns(
                old(self).phase(old(state)),
                e as int,
                &old(self).route().route.entries@[e as int],
                old(self).cap(),
                &old(self).params(),
                old(state).dt,
            ),
            entry_turn(
                old(self).phase(old(state)),
                final(self).phase(final(state)),
                e as int,
                &old(self).route().route.entries@[e as int],
                &old(self).cars_config(),
                &old(self).params(),
                old(state).time,
                old(state).dt,
            ),
            spawned ==> 1 <= old(self).route().route.entries@[e as int].lane <= old(self).params().lane_count,
    {
        let dt = state.dt;
        let remaining: i64 = sat_sub(self.spawn_timers[e], dt);
        self.spawn_timers[e] = remaining;
        if !(remaining <= 0 && self.room(state)) {
            return false;
        }
        let entry = self.route.route.entries[e].copy();
        proof {
            assert(self.route.route.entries@[e as int].defect(self.route.route.geometry.lane_count)
                is None);
        }
        let pose = calculate_entry_position(&entry, &self.params);
        let clear = if can_spawn_at_entry_static(&state.cars, pose.position) {
            true
        } else {
            force_spawn_gap(&mut state.cars, pose.position, dt)
        };
        proof {
            let before = old(state).cars@;
            assert forall|i: int| 0 <= i < before.len() implies slowed_only(
                before[i],
                #[trigger] state.cars@[i],
            ) by {}
            assert forall|a: int, b: int| 0 <= a < b < state.cars@.len() implies state.cars@[a].id
                != state.cars@[b].id by {
                assert(slowed_only(before[a], state.cars@[a]));
                assert(slowed_only(before[b], state.cars@[b]));
            }
            assert forall|i: int| 0 <= i < state.cars@.len() implies (#[trigger] state.cars@[i]).id.0
                < self.next_car_id by {
                assert(slowed_only(before[i], state.cars@[i]));
                assert(before[i].id.0 < self.next_car_id);
            }
        }
        if !clear {
            return false;
        }
        self.spawn_car_at_entry(&entry, state);
        let interval = draw_interval(&mut self.rng, &self.cars_config, &entry.id);
        self.spawn_timers[e] = interval;
        true
    }

    /// Counts down the timer of every entry and spawns where a timer
    /// has run out: each entry has its turn, in the order of the route.
    ///
    /// Whatever is drawn: the cars that were there stay in place, at
    /// most slowed; new cars follow them with ids that count up from
    /// the next id; as many cars are counted as spawned as were added,
    /// at most one for each entry; and no car is added to a population
    /// that has reached the cap.
    pub fn update_spawning(&mut self, state: &mut SimulationState)
        requires
            old(self).wf(),
            old(self).accepts(old(state)),
        ensures
            final(self).wf(),
            final(self).same_setup(old(self)),
            final(self).accepts(final(state)),
            grown(
                old(state).cars@,
                final(state).cars@,
                old(self).next_id(),
                old(state).time,
                old(self).params().lane_count,
            ),
            final(self).next_id() - old(self).next_id() == final(state).cars@.len() - old(state).cars@.len(),
            final(state).total_spawned - old(state).total_spawned == final(state).cars@.len()
                - old(state).cars@.len(),
            final(state).cars@.len() <= old(state).cars@.len() || final(state).cars@.len()
                <= old(self).cap(),
            final(state).cars@.len() - old(state).cars@.len() <= old(self).timers().len(),
            exists|trace: Seq<SpawnState>|
                #[trigger] spawning_trace(
                    trace,
                    old(self).route().route.entries@,
                    &old(self).cars_config(),
                    &old(self).params(),
                    old(state).time,
                    old(state).dt,
                ) && trace[0] == old(self).phase(old(state)) && trace.last() == final(self).phase(
                    final(state),
                ),
            final(self).cap() == old(self).cap(),
            final(self).params() == old(self).params(),
            final(self).route() == old(self).route(),
            final(self).cars_config() == old(self).cars_config(),
            final(state).time == old(state).time,
            final(state).dt == old(state).dt,
    {
        let ghost before = old(state).cars@;
        let ghost first_id = old(self).next_car_id;
        let ghost mut trace: Seq<SpawnState> = seq![self.phase(state)];
        let ghost entries = self.route.route.entries@;
        let ghost now = old(state).time;
        let ghost lanes = old(self).params.lane_count;
        let count = self.spawn_timers.len();
        let mut e: usize = 0;
        while e < count
            invariant
                e <= count,
                count == self.spawn_timers@.len(),
                self.wf(),
                self.same_setup(old(self)),
                self.accepts(state),
                before == old(state).cars@,
                first_id == old(self).next_car_id,
                now == old(state).time,
                lanes == old(self).params.lane_count,
                grown(before, state.cars@, first_id, now, lanes),
                self.next_car_id - first_id == state.cars@.len() - before.len(),
                state.total_spawned - old(state).total_spawned == state.cars@.len() - before.len(),
                state.cars@.len() <= before.len() || state.cars@.len() <= self.cap(),
                state.cars@.len() - before.len() <= e,
                state.time == old(state).time,
                state.dt == old(state).dt,
                entries == old(self).route.route.entries@,
                count == entries.len(),
                trace.len() == e + 1,
                trace[0] == old(self).phase(old(state)),
                trace[e as int] == self.phase(state),
                forall|k: int|
                    0 <= k < e ==> entry_turn(
                        #[trigger] trace[k],
                        trace[k + 1],
                        k,
                        &entries[k],
                        &old(self).cars_config,
                        &old(self).params,
                        now,
                        old(state).dt,
                    ),
            decreases count - e,
        {
            let ghost mid = state.cars@;
            let ghost earlier = trace;
            let ghost mid_id = self.next_car_id;
            let ghost entry = self.route.route.entries@[e as int];
            let ghost pose = entry_pose_value(&entry, &self.params);
            let spawned = self.tick_entry(e, state);
            proof {
                trace = earlier.push(self.phase(state));
                assert forall|k: int| 0 <= k < e + 1 implies entry_turn(
                    #[trigger] trace[k],
                    trace[k + 1],
                    k,
                    &entries[k],
                    &old(self).cars_config,
                    &old(self).params,
                    now,
                    old(state).dt,
                ) by {
                    if k < e {
                        assert(trace[k] == earlier[k]);
                        assert(trace[k + 1] == earlier[k + 1]);
                    }
                }
                let ready = if spawned {
                    state.cars@.take(state.cars@.len() - 1)
                } else {
                    state.cars@
                };
                assert(ready.len() == mid.len());
                assert(ready == cars_after_gap(
                    earlier[e as int],
                    e as int,
                    &entries[e as int],
                    old(self).cars_config.simulation.total_cars,
                    &old(self).params,
                    state.dt,
                ));
                assert forall|i: int| 0 <= i < mid.len() implies slowed_only(
                    mid[i],
                    #[trigger] ready[i],
                ) by {
                    assert(ready[i] == mid[i] || ready[i] == forced(mid[i], pose.position, state.dt));
                }
                assert forall|i: int| 0 <= i < before.len() implies slowed_only(
                    before[i],
                    #[trigger] state.cars@[i],
                ) by {
                    assert(slowed_only(before[i], mid[i]));
                    assert(slowed_only(mid[i], ready[i]));
                    assert(state.cars@[i] == ready[i]);
                }
                assert forall|i: int| before.len() <= i < state.cars@.len() implies newly_spawned(
                    #[trigger] state.cars@[i],
                    first_id + (i - before.len()),
                    now,
                    lanes,
                ) by {
                    if i < mid.len() {
                        assert(newly_spawned(mid[i], first_id + (i - before.len()), now, lanes));
                        assert(slowed_only(mid[i], ready[i]));
                        assert(state.cars@[i] == ready[i]);
                    } else {
                        let added = state.cars@.last();
                        assert(state.cars@[i] == added);
                        assert(spawned_at(
                            added,
                            mid_id,
                            ready,
                            &entries[e as int],
                            &old(self).cars_config,
                            &old(self).params,
                            now,
                        ));
                    }
                }
            }
            e += 1;
        }
        proof {
            assert(trace.last() == self.phase(state));
            assert(spawning_trace(
                trace,
                old(self).route.route.entries@,
                &old(self).cars_config,
                &old(self).params,
                now,
                old(state).dt,
            ));
        }
    }

    /// Creates one car of the named driver profile at the first entry
    /// of the route. Nothing happens where the route has no entry, the
    /// population has reached the cap, or a car is within the
    /// permissive spawn distance of the entry. The car takes the
    /// conservative speed: the lowest speed of the traffic near it.
    pub fn spawn_manual_car(&mut self, behavior_name: &str, state: &mut SimulationState)
        requires
            old(self).wf(),
            old(self).accepts(old(state)),
        ensures
            final(self).wf(),
            final(self).same_setup(old(self)),
            final(self).cap() == old(self).cap(),
            final(self).params() == old(self).params(),
            final(self).route() == old(self).route(),
            final(self).cars_config() == old(self).cars_config(),
            final(self).timers() == old(self).timers(),
            final(self).accepts(final(state)),
            final(state).active_cars == final(state).cars@.len(),
            final(state).time == old(state).time,
            final(state).dt == old(state).dt,
            manually_spawned(
                old(self).phase(old(state)),
                final(self).phase(final(state)),
                behavior_name@,
                old(self).route().route.entries@,
                &old(self).cars_config(),
                &old(self).params(),
                old(state).time,
            ),
    {
        if self.route.route.entries.len() == 0 {
            return ;
        }
        if !self.room(state) {
            return ;
        }
        let entry = self.route.route.entries[0].copy();
        let pose = calculate_entry_position(&entry, &self.params);
        if !can_spawn_at_entry_permissive(&state.cars, pose.position) {
            return ;
        }
        let speed = manual_spawn_speed(&state.cars, pose.position);
        let name = crate::text::owned_text(behavior_name);
        self.spawn_car(&pose, entry.lane, speed, name, state);
    }

    /// Removes the cars that leave: those at an exit, and of those that
    /// have been on the road for longer than the eviction age the ones
    /// that the draw evicts. The other cars keep their order.
    pub fn update_despawning(&mut self, state: &mut SimulationState)
        requires
            old(self).wf(),
            old(self).accepts(old(state)),
        ensures
            final(self).wf(),
            final(self).same_setup(old(self)),
            final(self).timers() == old(self).timers(),
            final(self).next_id() == old(self).next_id(),
            final(self).accepts(final(state)),
            exists|draws: Seq<i64>|
                draws.len() == old(state).cars@.len() && unit_draws(draws) && final(state).cars@
                    == staying(
                    old(state).cars@,
                    draws,
                    old(state).time,
                    old(self).route().route.exits@,
                    &old(self).params(),
                    old(state).cars@.len() as int,
                ),
            final(state).cars@.len() <= old(state).cars@.len(),
            final(state).total_spawned == old(state).total_spawned,
            final(state).time == old(state).time,
            final(state).dt == old(state).dt,
    {
        let now = state.time;
        let mut kept: Vec<Car> = Vec::new();
        let ghost mut drawn: Seq<i64> = Seq::empty();
        let mut removed: u32 = 0;
        let mut i: usize = 0;
        while i < state.cars.len()
            invariant
                i <= state.cars.len(),
                *state == *old(state),
                now == state.time,
                self.wf(),
                self.same_setup(old(self)),
                self.spawn_timers == old(self).spawn_timers,
                self.next_car_id == old(self).next_car_id,
                drawn.len() == i,
                unit_draws(drawn),
                kept@ == staying(
                    state.cars@,
                    drawn,
                    now,
                    self.route.route.exits@,
                    &self.params,
                    i as int,
                ),
                kept@.len() + removed == i,
                state.cars@.len() == state.active_cars,
            decreases state.cars.len() - i,
        {
            let old_enough = overstays(&state.cars[i], now);
            let draw: i64 = if old_enough {
                draw_unit(&mut self.rng)
            } else {
                0
            };
            let ghost earlier = drawn;
            proof {
                drawn = drawn.push(draw);
                lemma_staying_prefix(
                    state.cars@,
                    earlier,
                    drawn,
                    now,
                    self.route.route.exits@,
                    &self.params,
                    i as int,
                );
            }
            let at_exit = should_car_exit(&state.cars[i], &self.route.route.exits, &self.params);
            if at_exit || (old_enough && draw < EVICTION_CHANCE) {
                removed = removed + 1;
            } else {
                kept.push(state.cars[i].copy());
            }
            i += 1;
        }
        proof {
            let exits = self.route.route.exits@;
            lemma_staying(state.cars@, drawn, now, exits, &self.params, state.cars@.len() as int);
            lemma_staying_ids(state.cars@, drawn, now, exits, &self.params, self.next_car_id);
        }
        state.cars = kept;
        state.active_cars = state.active_cars - removed;
    }

    /// One tick of traffic management: the behavior engine decides the
    /// intents of every car, then entries spawn, then cars that leave
    /// are removed.
    ///
    /// Whatever is drawn: the population counter equals the number of
    /// cars, ids stay unique and below the next id, the spawn counter
    /// grows by the number of cars spawned, which is at most one for
    /// each entry, and a population within the cap stays within it.
    pub fn update(&mut self, state: &mut SimulationState)
        requires
            old(self).wf(),
            old(self).accepts(old(state)),
        ensures
            final(self).wf(),
            final(self).same_setup(old(self)),
            final(self).cap() == old(self).cap(),
            final(self).params() == old(self).params(),
            final(self).route() == old(self).route(),
            final(self).cars_config() == old(self).cars_config(),
            final(self).accepts(final(state)),
            final(state).active_cars == final(state).cars@.len(),
            old(state).cars@.len() <= old(self).cap() ==> final(state).cars@.len() <= old(self).cap(),
            final(state).total_spawned >= old(state).total_spawned,
            final(state).total_spawned - old(state).total_spawned == final(self).next_id() - old(self).next_id(),
            final(state).total_spawned - old(state).total_spawned <= old(self).timers().len(),
            final(state).cars@.len() <= old(state).cars@.len() + (final(state).total_spawned
                - old(state).total_spawned),
            forall|k: int|
                0 <= k < final(state).cars@.len() ==> has_id(
                    old(state).cars@,
                    (#[trigger] final(state).cars@[k]).id,
                ) || old(self).next_id() <= final(state).cars@[k].id.0,
            old(state).cars_sound(old(self).params().lane_count) ==> final(state).cars_sound(
                old(self).params().lane_count,
            ),
            managed(
                old(self).phase(old(state)),
                final(self).phase(final(state)),
                old(self).route().route.entries@,
                &old(self).cars_config(),
                old(self).route().route.exits@,
                &old(self).params(),
                old(state).time,
                old(state).dt,
            ),
            final(state).time == old(state).time,
            final(state).dt == old(state).dt,
    {
        let ghost lanes = self.params.lane_count;
        self.behavior_engine.update(state);
        let ghost intent_draws = choose|draws: Seq<BehaviorDraws>|
            admissible_draws(draws, old(state).cars@) && state.cars@ == behaved(
                old(state).cars@,
                draws,
                old(state).time,
                old(state).dt,
                old(self).behavior_engine.exits(),
                &old(self).behavior_engine.params(),
            );
        let ghost decided = state.cars@;
        proof {
            assert forall|i: int| 0 <= i < decided.len() implies (#[trigger] decided[i]).id
                == old(state).cars@[i].id by {
                let draws = choose|draws: Seq<BehaviorDraws>|
                    admissible_draws(draws, old(state).cars@)
                        && state.cars@ == behaved(
                        old(state).cars@,
                        draws,
                        old(state).time,
                        old(state).dt,
                        old(self).behavior_engine.exits(),
                        &old(self).behavior_engine.params(),
                    );
            }
            assert(ids_below(decided, self.next_car_id)) by {
                assert forall|i: int| 0 <= i < decided.len() implies (#[trigger] decided[i]).id.0
                    < self.next_car_id by {
                    assert(old(state).cars@[i].id.0 < self.next_car_id);
                }
            }
        }
        let ghost start = self.phase(state);
        self.update_spawning(state);
        let ghost trace = choose|trace: Seq<SpawnState>|
            #[trigger] spawning_trace(
                trace,
                old(self).route.route.entries@,
                &old(self).cars_config,
                &old(self).params,
                old(state).time,
                old(state).dt,
            ) && trace[0] == start && trace.last() == self.phase(state);
        let ghost spawned = state.cars@;
        let ghost mid_id = self.next_car_id;
        proof {
            assert forall|k: int| 0 <= k < spawned.len() implies has_id(
                old(state).cars@,
                (#[trigger] spawned[k]).id,
            ) || old(self).next_car_id <= spawned[k].id.0 by {
                if k < decided.len() {
                    assert(slowed_only(decided[k], spawned[k]));
                    assert(spawned[k].id == old(state).cars@[k].id);
                } else {
                    assert(newly_spawned(
                        spawned[k],
                        old(self).next_car_id + (k - decided.len()),
                        old(state).time,
                        lanes,
                    ));
                }
            }
            if old(state).cars_sound(lanes) {
                assert forall|k: int| 0 <= k < spawned.len() implies (
                #[trigger] spawned[k]).lanes_within(lanes) && spawned[k].progress_in_range() by {
                    if k < decided.len() {
                        assert(decided[k].lanes_within(lanes));
                        assert(slowed_only(decided[k], spawned[k]));
                    } else {
                        assert(newly_spawned(
                            spawned[k],
                            old(self).next_car_id + (k - decided.len()),
                            old(state).time,
                            lanes,
                        ));
                    }
                }
            }
        }
        self.update_despawning(state);
        proof {
            let evictions = choose|draws: Seq<i64>|
                draws.len() == spawned.len() && unit_draws(draws) && state.cars@ == staying(
                    spawned,
                    draws,
                    state.time,
                    self.route.route.exits@,
                    &self.params,
                    spawned.len() as int,
                );
            assert(admissible_draws(intent_draws, old(state).cars@));
            assert(trace.last().cars == spawned);
            assert(unit_draws(evictions));
            assert(state.cars@ == staying(
                trace.last().cars,
                evictions,
                old(state).time,
                old(self).route.route.exits@,
                &old(self).params,
                trace.last().cars.len() as int,
            ));
            assert(trace[0] == (SpawnState {
                cars: behaved(
                    old(state).cars@,
                    intent_draws,
                    old(state).time,
                    old(state).dt,
                    old(self).route.route.exits@,
                    &old(self).params,
                ),
                ..old(self).phase(old(state))
            }));
            assert(self.phase(state) == (SpawnState {
                cars: staying(
                    trace.last().cars,
                    evictions,
                    old(state).time,
                    old(self).route.route.exits@,
                    &old(self).params,
                    trace.last().cars.len() as int,
                ),
                ..trace.last()
            }));
            assert(managed(
                old(self).phase(old(state)),
                self.phase(state),
                old(self).route.route.entries@,
                &old(self).cars_config,
                old(self).route.route.exits@,
                &old(self).params,
                old(state).time,
                old(state).dt,
            ));
            let draws = choose|draws: Seq<i64>|
                draws.len() == spawned.len() && unit_draws(draws) && state.cars@ == staying(
                    spawned,
                    draws,
                    state.time,
                    self.route.route.exits@,
                    &self.params,
                    spawned.len() as int,
                );
            lemma_staying(
                spawned,
                draws,
                state.time,
                self.route.route.exits@,
                &self.params,
                spawned.len() as int,
            );
            assert forall|k: int| 0 <= k < state.cars@.len() implies has_id(
                old(state).cars@,
                (#[trigger] state.cars@[k]).id,
            ) || old(self).next_car_id <= state.cars@[k].id.0 by {
                assert(crate::simulation::spawn::stays_from(
                    spawned,
                    draws,
                    state.time,
                    self.route.route.exits@,
                    &self.params,
                    state.cars@[k],
                    k,
                    spawned.len() as int,
                ));
                let j = choose|j: int|
                    k <= j < spawned.len() && #[trigger] spawned[j] == state.cars@[k] && !leaves(
                        &spawned[j],
                        draws[j],
                        state.time,
                        self.route.route.exits@,
                        &self.params,
                    );
                assert(has_id(old(state).cars@, spawned[j].id) || old(self).next_car_id
                    <= spawned[j].id.0);
            }
            if old(state).cars_sound(lanes) {
                assert forall|k: int| 0 <= k < state.cars@.len() implies (
                #[trigger] state.cars@[k]).lanes_within(lanes)
                    && state.cars@[k].progress_in_range() by {
                    assert(crate::simulation::spawn::stays_from(
                        spawned,
                        draws,
                        state.time,
                        self.route.route.exits@,
                        &self.params,
                        state.cars@[k],
                        k,
                        spawned.len() as int,
                    ));
                    let j = choose|j: int|
                        k <= j < spawned.len() && #[trigger] spawned[j] == state.cars@[k]
                            && !leaves(
                            &spawned[j],
                            draws[j],
                            state.time,
                            self.route.route.exits@,
                            &self.params,
                        );
                    assert(spawned[j].lanes_within(lanes));
                }
            }
        }
    }
}

/// The cars that stay among the first `n` do not depend on later draws.
pub proof fn lemma_staying_prefix(
    cars: Seq<Car>,
    draws: Seq<i64>,
    longer: Seq<i64>,
    now: i64,
    exits: Seq<ExitPoint>,
    p: &RouteParams,
    n: int,
)
    requires
        0 <= n <= draws.len(),
        draws.len() <= longer.len(),
        forall|j: int| 0 <= j < draws.len() ==> draws[j] == longer[j],
    ensures
        staying(cars, draws, now, exits, p, n) == staying(cars, longer, now, exits, p, n),
    decreases n,
{
    if n > 0 {
        lemma_staying_prefix(cars, draws, longer, now, exits, p, n - 1);
    }
}

} // verus!
