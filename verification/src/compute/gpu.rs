//! The data-parallel backend.
//!
//! Traffic management runs on the host, in order, so that the random
//! stream stays reproducible. The kinematics run as one independent
//! kernel run for each car on a buffer of records: the cars are packed
//! into the buffer, the kernel runs, and the records are unpacked into
//! the cars they came from.
use vstd::prelude::*;
use crate::compute::SimError;
use crate::compute::SimulationBackend;
use crate::compute::ticked;
use crate::config::CarsConfig;
use crate::config::RouteConfig;
use crate::fixed::sat_add;
use crate::simulation::Car;
use crate::simulation::kernel::advance_all;
use crate::simulation::kernel::GpuCar;
use crate::simulation::kernel::lemma_kernel_reads_prefix;
use crate::simulation::kernel::RouteParams;
use crate::simulation::kernel::run_kernel;
use crate::simulation::marshal::create_route_params;
use crate::simulation::marshal::packed;
use crate::simulation::marshal::packed_all;
use crate::simulation::marshal::unpack_cars;
use crate::simulation::marshal::unpacked;
use crate::simulation::marshal::unpacked_all;
use crate::simulation::marshal::route_params_of;
use crate::simulation::physics::lemma_step_keeps_ids;
use crate::simulation::physics::lemma_step_keeps_lanes;
use crate::simulation::physics::stepped_cars;
use crate::simulation::SimulationState;
use crate::simulation::traffic::managed;
use crate::simulation::traffic::manually_spawned;
use crate::simulation::traffic::SpawnState;
use crate::simulation::TrafficManager;

verus! {

/// Runs traffic management on the host and the kernel on a buffer of
/// records with one slot for each car up to the population cap.
pub struct GpuBackend {
    traffic_manager: TrafficManager,
    params: RouteParams,
    max_cars: usize,
}

impl Default for GpuCar {
    fn default() -> (r: Self)
        ensures
            r == empty_slot(),
    {
        GpuCar {
            pos_x: 0,
            pos_y: 0,
            vel_x: 0,
            vel_y: 0,
            acc_x: 0,
            acc_y: 0,
            heading: 0,
            lane_angle: 0,
            length: 0,
            width: 0,
            max_accel: 0,
            max_decel: 0,
            preferred_speed: 0,
            current_lane: 0,
            target_lane: 0,
            lane_change_progress: 0,
            following_distance_factor: 0,
            target_speed: 0,
            reaction_time: 0,
            last_lane_change_time: 0,
        }
    }
}

/// The record of a buffer slot that holds no car.
pub open spec fn empty_slot() -> GpuCar {
    GpuCar {
        pos_x: 0,
        pos_y: 0,
        vel_x: 0,
        vel_y: 0,
        acc_x: 0,
        acc_y: 0,
        heading: 0,
        lane_angle: 0,
        length: 0,
        width: 0,
        max_accel: 0,
        max_decel: 0,
        preferred_speed: 0,
        current_lane: 0,
        target_lane: 0,
        lane_change_progress: 0,
        following_distance_factor: 0,
        target_speed: 0,
        reaction_time: 0,
        last_lane_change_time: 0,
    }
}

/// The buffer of `slots` records that holds the cars: the record of
/// each car in the slot of its index, empty slots behind them.
pub open spec fn uploaded(cars: Seq<Car>, slots: int) -> Seq<GpuCar> {
    Seq::new(
        slots as nat,
        |i: int|
            if i < cars.len() {
                packed(cars[i])
            } else {
                empty_slot()
            },
    )
}

/// Cross-backend consistency of the kinematics: packing the cars into a
/// buffer with spare slots, running the kernel on the slots that hold
/// cars and unpacking the records gives exactly the cars that the
/// sequential step gives.
pub proof fn lemma_backends_agree(cars: Seq<Car>, slots: int, p: &RouteParams, dt: i64)
    requires
        cars.len() <= slots <= usize::MAX,
    ensures
        unpacked_all(cars, advance_all(uploaded(cars, slots), cars.len() as int, p, dt))
            == stepped_cars(cars, p, dt),
{
    let n = cars.len() as int;
    let buffer = uploaded(cars, slots);
    let exact = packed_all(cars);
    let via_buffer = unpacked_all(cars, advance_all(buffer, n, p, dt));
    let direct = stepped_cars(cars, p, dt);
    assert forall|i: int| 0 <= i < n implies via_buffer[i] == direct[i] by {
        lemma_kernel_reads_prefix(buffer, exact, n, i, p, dt);
    }
    assert(via_buffer =~= direct);
}

impl GpuBackend {
    /// The traffic manager is well formed, the parameter record is its
    /// own, and the buffer has one slot for each car up to the cap.
    pub closed spec fn wf(&self) -> bool {
        &&& self.traffic_manager.wf()
        &&& self.traffic_manager.params() == self.params
        &&& self.params.wf()
        &&& self.max_cars == self.traffic_manager.cap()
    }

    /// The traffic manager of the backend.
    pub closed spec fn manager(&self) -> TrafficManager {
        self.traffic_manager
    }

    /// The parameter record that the kernel runs with.
    pub closed spec fn params(&self) -> RouteParams {
        self.params
    }

    /// The number of slots of the record buffer.
    pub closed spec fn slots(&self) -> usize {
        self.max_cars
    }

    /// A data-parallel backend for a valid configuration. The kernel
    /// runs on the host, so construction does not fail.
    pub fn new(cars_config: CarsConfig, route_config: RouteConfig, seed: Option<u64>) -> (r: Result<
        Self,
        SimError,
    >)
        requires
            cars_config.valid(),
            route_config.valid(),
        ensures
            r is Ok,
            r->Ok_0.wf(),
            r->Ok_0.cap() == cars_config.simulation.total_cars,
            r->Ok_0.slots() == cars_config.simulation.total_cars,
            r->Ok_0.manager().next_id() == 0,
            r->Ok_0.manager().route() == route_config,
            r->Ok_0.manager().cars_config() == cars_config,
            Some(r->Ok_0.params()) == route_params_of(
                &route_config,
                &cars_config.collision_avoidance,
            ),
            forall|state: SimulationState|
                state.wf() && state.cars@.len() == 0 ==> #[trigger] r->Ok_0.ready(&state),
    {
        let params = create_route_params(&route_config, &cars_config.collision_avoidance).unwrap();
        let max_cars = cars_config.simulation.total_cars as usize;
        let traffic_manager = TrafficManager::new(cars_config, route_config, seed);
        Ok(GpuBackend { traffic_manager, params, max_cars })
    }

    /// Packs the cars into the record buffer. Fails where the state
    /// holds more cars than the buffer has slots.
    pub fn upload_cars_to_gpu(&self, state: &SimulationState) -> (r: Result<Vec<GpuCar>, SimError>)
        ensures
            state.cars@.len() > self.slots() <==> r is Err,
            r is Err ==> r == Err::<Vec<GpuCar>, SimError>(SimError::BufferTooSmall),
            r is Ok ==> r->Ok_0@ == uploaded(state.cars@, self.slots() as int),
    {
        if state.cars.len() > self.max_cars {
            return Err(SimError::BufferTooSmall);
        }
        let mut buffer: Vec<GpuCar> = Vec::with_capacity(self.max_cars);
        let mut i: usize = 0;
        while i < self.max_cars
            invariant
                i <= self.max_cars,
                state.cars@.len() <= self.max_cars,
                buffer@.len() == i,
                forall|j: int|
                    0 <= j < i ==> buffer@[j] == if j < state.cars@.len() {
                        packed(state.cars@[j])
                    } else {
                        empty_slot()
                    },
            decreases self.max_cars - i,
        {
            if i < state.cars.len() {
                buffer.push(GpuCar::from_car(&state.cars[i], state.time));
            } else {
                buffer.push(GpuCar::default());
            }
            i += 1;
        }
        assert(buffer@ =~= uploaded(state.cars@, self.max_cars as int));
        Ok(buffer)
    }

    /// Unpacks the records into the cars they came from. Fails, and
    /// leaves the state as it is, where fewer records came back than
    /// the state holds cars.
    pub fn download_cars_from_gpu(&self, state: &mut SimulationState, buffer: &Vec<GpuCar>) -> (r:
        Result<(), SimError>)
        ensures
            buffer@.len() < old(state).cars@.len() <==> r is Err,
            r is Err ==> r == Err::<(), SimError>(SimError::ReadbackTooShort) && *final(state)
                == *old(state),
            r is Ok ==> final(state).cars@ == unpacked_all(old(state).cars@, buffer@),
            final(state).time == old(state).time,
            final(state).dt == old(state).dt,
            final(state).total_spawned == old(state).total_spawned,
            final(state).active_cars == old(state).active_cars,
    {
        if buffer.len() < state.cars.len() {
            return Err(SimError::ReadbackTooShort);
        }
        unpack_cars(&mut state.cars, buffer);
        Ok(())
    }

    /// The kinematic step of one tick on the record buffer: upload, one
    /// kernel run for each car, download, and the clock. A state
    /// without cars skips the buffer.
    pub fn run_physics(&self, state: &mut SimulationState) -> (r: Result<(), SimError>)
        requires
            self.wf(),
            old(state).dt > 0,
        ensures
            old(state).cars@.len() > self.slots() <==> r is Err,
            r is Err ==> r == Err::<(), SimError>(SimError::BufferTooSmall) && *final(state)
                == *old(state),
            r is Ok ==> final(state).cars@ == stepped_cars(
                old(state).cars@,
                &self.params(),
                old(state).dt,
            ),
            r is Ok ==> final(state).time == sat_add(old(state).time, old(state).dt),
            final(state).dt == old(state).dt,
            final(state).total_spawned == old(state).total_spawned,
            final(state).active_cars == old(state).active_cars,
            r is Ok && old(state).wf() ==> final(state).wf(),
            r is Ok && old(state).cars_sound(self.params().lane_count) ==> final(state).cars_sound(self.params().lane_count),
    {
        let dt = state.dt;
        if state.cars.len() > 0 {
            let buffer = match self.upload_cars_to_gpu(state) {
                Ok(b) => b,
                Err(e) => {
                    return Err(e);
                },
            };
            let next = run_kernel(&buffer, state.cars.len(), &self.params, dt);
            unpack_cars(&mut state.cars, &next);
            proof {
                lemma_backends_agree(old(state).cars@, self.max_cars as int, &self.params, dt);
            }
        } else {
            assert(state.cars@ =~= stepped_cars(old(state).cars@, &self.params, dt));
        }
        state.time = sat_add(state.time, dt);
        proof {
            lemma_step_keeps_ids(old(state).cars@, &self.params, dt);
            if old(state).cars_sound(self.params.lane_count) {
                assert forall|i: int| 0 <= i < state.cars@.len() implies (
                #[trigger] state.cars@[i]).lanes_within(self.params.lane_count)
                    && state.cars@[i].progress_in_range() by {
                    assert(old(state).cars@[i].lanes_within(self.params.lane_count));
                    lemma_step_keeps_lanes(old(state).cars@, &self.params, dt, i);
                }
            }
        }
        Ok(())
    }

    /// Checks whether the backend can take over the state: the state is
    /// well formed and its car ids lie below the next id of the backend.
    pub fn check_accepts(&self, state: &SimulationState) -> (r: bool)
        ensures
            r == self.manager().accepts(state),
    {
        self.traffic_manager.check_accepts(state)
    }

    /// Runs traffic management for one tick, on the host.
    pub fn manage_traffic(&mut self, state: &mut SimulationState)
        requires
            old(self).ready(old(state)),
        ensures
            final(self).ready(final(state)),
            final(self).cap() == old(self).cap(),
            final(self).params() == old(self).params(),
            final(self).slots() == old(self).slots(),
            final(self).manager().route() == old(self).manager().route(),
            final(self).manager().cars_config() == old(self).manager().cars_config(),
            managed(
                old(self).manager().phase(old(state)),
                final(self).manager().phase(final(state)),
                old(self).manager().route().route.entries@,
                &old(self).manager().cars_config(),
                old(self).manager().route().route.exits@,
                &old(self).params(),
                old(state).time,
                old(state).dt,
            ),
            final(state).active_cars == final(state).cars@.len(),
            old(state).cars@.len() <= old(self).cap() ==> final(state).cars@.len() <= old(self).cap(),
            final(state).total_spawned >= old(state).total_spawned,
            old(state).cars_sound(old(self).params().lane_count) ==> final(state).cars_sound(
                old(self).params().lane_count,
            ),
            final(state).time == old(state).time,
            final(state).dt == old(state).dt,
    {
        self.traffic_manager.update(state);
    }

    /// Creates one car of the named driver profile at the first entry
    /// of the route, at the conservative spawn speed. Nothing happens
    /// where the route has no entry, the population has reached the
    /// cap, or a car is within the permissive spawn distance of the
    /// entry.
    pub fn spawn_manual_car(&mut self, behavior_name: &str, state: &mut SimulationState)
        requires
            old(self).ready(old(state)),
        ensures
            final(self).ready(final(state)),
            final(self).cap() == old(self).cap(),
            final(self).params() == old(self).params(),
            final(self).manager().route() == old(self).manager().route(),
            final(self).manager().cars_config() == old(self).manager().cars_config(),
            manually_spawned(
                old(self).manager().phase(old(state)),
                final(self).manager().phase(final(state)),
                behavior_name@,
                old(self).manager().route().route.entries@,
                &old(self).manager().cars_config(),
                &old(self).params(),
                old(state).time,
            ),
            final(state).active_cars == final(state).cars@.len(),
            final(state).cars@.len() <= old(state).cars@.len() + 1,
            final(state).cars@.len() >= old(state).cars@.len(),
            old(state).cars@.len() <= old(self).cap() ==> final(state).cars@.len() <= old(self).cap(),
            final(state).time == old(state).time,
            final(state).dt == old(state).dt,
    {
        self.traffic_manager.spawn_manual_car(behavior_name, state);
    }
}

impl SimulationBackend for GpuBackend {
    open spec fn ready(&self, state: &SimulationState) -> bool {
        self.wf() && self.manager().accepts(state)
    }

    closed spec fn cap(&self) -> u32 {
        self.traffic_manager.cap()
    }

    /// A tick fails only where traffic management leaves more cars than
    /// the buffer has slots, which a population within the cap never
    /// does. Traffic management has then run, the kinematics have not,
    /// and the clock stands.
    fn update(&mut self, state: &mut SimulationState) -> (r: Result<(), SimError>)
        ensures
            old(state).cars@.len() <= old(self).cap() ==> r is Ok,
            r is Err ==> r == Err::<(), SimError>(SimError::BufferTooSmall),
            final(self).params() == old(self).params(),
            r is Ok ==> ticked(
                old(self).manager().phase(old(state)),
                final(self).manager().phase(final(state)),
                old(self).manager().route().route.entries@,
                &old(self).manager().cars_config(),
                old(self).manager().route().route.exits@,
                &old(self).params(),
                old(state).time,
                old(state).dt,
            ),
            r is Ok ==> final(state).active_cars == final(state).cars@.len(),
            r is Ok && old(state).cars_sound(old(self).params().lane_count) ==> final(state).cars_sound(old(self).params().lane_count),
    {
        self.manage_traffic(state);
        let ghost mid = state.cars@;
        let ghost mid_phase = self.traffic_manager.phase(state);
        let done = self.run_physics(state);
        proof {
            if done is Ok {
                lemma_step_keeps_ids(mid, &self.params, state.dt);
                assert forall|i: int| 0 <= i < state.cars@.len() implies (
                #[trigger] state.cars@[i]).id.0 < self.traffic_manager.next_id() by {
                    assert(mid[i].id.0 < self.traffic_manager.next_id());
                }
                assert(managed(
                    old(self).traffic_manager.phase(old(state)),
                    mid_phase,
                    old(self).traffic_manager.route().route.entries@,
                    &old(self).traffic_manager.cars_config(),
                    old(self).traffic_manager.route().route.exits@,
                    &old(self).params,
                    old(state).time,
                    old(state).dt,
                ));
                assert(self.traffic_manager.phase(state) == (SpawnState {
                    cars: stepped_cars(mid_phase.cars, &old(self).params, old(state).dt),
                    ..mid_phase
                }));
            }
        }
        done
    }

    fn get_name(&self) -> (name: &'static str)
        ensures
            name@ == "OpenCL GPU"@,
    {
        "OpenCL GPU"
    }

    fn supports_gpu(&self) -> (parallel: bool)
        ensures
            parallel,
    {
        true
    }
}

} // verus!
