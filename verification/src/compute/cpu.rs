//! The sequential backend.
use vstd::prelude::*;
use crate::compute::SimError;
use crate::compute::SimulationBackend;
use crate::compute::ticked;
use crate::config::CarsConfig;
use crate::config::RouteConfig;
use crate::simulation::kernel::RouteParams;
use crate::simulation::marshal::route_params_of;
use crate::simulation::physics::lemma_step_keeps_ids;
use crate::simulation::physics::stepped_cars;
use crate::simulation::PhysicsEngine;
use crate::simulation::SimulationState;
use crate::simulation::traffic::managed;
use crate::simulation::traffic::manually_spawned;
use crate::simulation::traffic::SpawnState;
use crate::simulation::TrafficManager;

verus! {

/// Runs traffic management and the kernel in a plain loop.
pub struct CpuBackend {
    physics_engine: PhysicsEngine,
    traffic_manager: TrafficManager,
}

impl CpuBackend {
    /// The two engines are well formed and share one parameter record.
    pub closed spec fn wf(&self) -> bool {
        &&& self.physics_engine.wf()
        &&& self.traffic_manager.wf()
        &&& self.physics_engine.params() == self.traffic_manager.params()
    }

    /// The traffic manager of the backend.
    pub closed spec fn manager(&self) -> TrafficManager {
        self.traffic_manager
    }

    /// The parameter record that the kernel runs with.
    pub closed spec fn params(&self) -> RouteParams {
        self.physics_engine.params()
    }

    /// A sequential backend for a valid configuration.
    pub fn new(cars_config: CarsConfig, route_config: RouteConfig, seed: Option<u64>) -> (r: Self)
        requires
            cars_config.valid(),
            route_config.valid(),
        ensures
            r.wf(),
            r.cap() == cars_config.simulation.total_cars,
            r.manager().next_id() == 0,
            r.manager().route() == route_config,
            r.manager().cars_config() == cars_config,
            Some(r.params()) == route_params_of(&route_config, &cars_config.collision_avoidance),
            forall|state: SimulationState|
                state.wf() && state.cars@.len() == 0 ==> #[trigger] r.ready(&state),
    {
        let physics_engine = PhysicsEngine::new(
            route_config.copy(),
            cars_config.collision_avoidance,
        );
        let traffic_manager = TrafficManager::new(cars_config, route_config, seed);
        CpuBackend { physics_engine, traffic_manager }
    }

    /// Checks whether the backend can take over the state: the state is
    /// well formed and its car ids lie below the next id of the backend.
    pub fn check_accepts(&self, state: &SimulationState) -> (r: bool)
        ensures
            r == self.manager().accepts(state),
    {
        self.traffic_manager.check_accepts(state)
    }

    /// Creates one car of the named driver profile at the first entry
    /// of the route, at the conservative spawn speed. Nothing happens
    /// where the route has no entry, the population has reached the
    /// cap, or a car is within the permissive spawn distance of the
    /// entry.
    pub fn spawn_manual_car(&mut self, behavior_name: &str, state: &mut SimulationState)
        requires
            old(self).ready(old(state)),
        ensures
            final(self).ready(final(state)),
            final(self).cap() == old(self).cap(),
            final(self).params() == old(self).params(),
            final(self).manager().route() == old(self).manager().route(),
            final(self).manager().cars_config() == old(self).manager().cars_config(),
            manually_spawned(
                old(self).manager().phase(old(state)),
                final(self).manager().phase(final(state)),
                behavior_name@,
                old(self).manager().route().route.entries@,
                &old(self).manager().cars_config(),
                &old(self).params(),
                old(state).time,
            ),
            final(state).active_cars == final(state).cars@.len(),
            final(state).cars@.len() <= old(state).cars@.len() + 1,
            final(state).cars@.len() >= old(state).cars@.len(),
            old(state).cars@.len() <= old(self).cap() ==> final(state).cars@.len() <= old(self).cap(),
            final(state).time == old(state).time,
            final(state).dt == old(state).dt,
    {
        self.traffic_manager.spawn_manual_car(behavior_name, state);
    }
}

impl SimulationBackend for CpuBackend {
    open spec fn ready(&self, state: &SimulationState) -> bool {
        self.wf() && self.manager().accepts(state)
    }

    closed spec fn cap(&self) -> u32 {
        self.traffic_manager.cap()
    }

    fn update(&mut self, state: &mut SimulationState) -> (r: Result<(), SimError>)
        ensures
            r is Ok,
            final(self).params() == old(self).params(),
            ticked(
                old(self).manager().phase(old(state)),
                final(self).manager().phase(final(state)),
                old(self).manager().route().route.entries@,
                &old(self).manager().cars_config(),
                old(self).manager().route().route.exits@,
                &old(self).params(),
                old(state).time,
                old(state).dt,
            ),
            final(state).active_cars == final(state).cars@.len(),
            old(state).cars_sound(old(self).params().lane_count) ==> final(state).cars_sound(
                old(self).params().lane_count,
            ),
    {
        self.traffic_manager.update(state);
        let ghost mid = state.cars@;
        let ghost mid_phase = self.traffic_manager.phase(state);
        self.physics_engine.update(state);
        proof {
            lemma_step_keeps_ids(mid, &self.physics_engine.params(), state.dt);
            assert forall|i: int| 0 <= i < state.cars@.len() implies (#[trigger] state.cars@[i]).id.0
                < self.traffic_manager.next_id() by {
                assert(mid[i].id.0 < self.traffic_manager.next_id());
            }
            assert(managed(
                old(self).traffic_manager.phase(old(state)),
                mid_phase,
                old(self).traffic_manager.route().route.entries@,
                &old(self).traffic_manager.cars_config(),
                old(self).traffic_manager.route().route.exits@,
                &old(self).physics_engine.params(),
                old(state).time,
                old(state).dt,
            ));
            assert(self.traffic_manager.phase(state) == (SpawnState {
                cars: stepped_cars(mid_phase.cars, &old(self).physics_engine.params(), old(state).dt),
                ..mid_phase
            }));
        }
        Ok(())
    }

    fn get_name(&self) -> (name: &'static str)
        ensures
            name@ == "CPU"@,
    {
        "CPU"
    }

    fn supports_gpu(&self) -> (parallel: bool)
        ensures
            !parallel,
    {
        false
    }
}

} // verus!
