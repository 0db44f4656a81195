//! Execution strategies: one contract, a sequential and a data-parallel
//! backend that run the same kernel.
use vstd::prelude::*;
use crate::config::CarsConfig;
use crate::config::EntryPoint;
use crate::config::ExitPoint;
use crate::config::RouteConfig;
use crate::fixed::sat_add;
use crate::simulation::kernel::RouteParams;
use crate::simulation::marshal::route_params_of;
use crate::simulation::physics::stepped_cars;
use crate::simulation::SimulationState;
use crate::simulation::traffic::managed;
use crate::simulation::traffic::manually_spawned;
use crate::simulation::traffic::SpawnState;
use crate::simulation::TrafficManager;

pub mod cpu;
pub mod gpu;

pub use cpu::CpuBackend;
pub use gpu::GpuBackend;

verus! {

/// Why a backend could not finish a tick.
#[derive(Debug, Clone, Copy, PartialEq, Eq, Structural)]
pub enum SimError {
    /// The state holds more cars than the record buffer has slots.
    BufferTooSmall,
    /// Fewer records came back than the state holds cars.
    ReadbackTooShort,
}

impl SimError {
    /// The text of the error.
    pub open spec fn message_text(&self) -> Seq<char> {
        match self {
            SimError::BufferTooSmall => "More cars than the record buffer holds"@,
            SimError::ReadbackTooShort => "Fewer records read back than cars"@,
        }
    }

    /// The error in words.
    pub fn message(&self) -> (text: &'static str)
        ensures
            text@ == self.message_text(),
    {
        match self {
            SimError::BufferTooSmall => "More cars than the record buffer holds",
            SimError::ReadbackTooShort => "Fewer records read back than cars",
        }
    }
}

/// What one tick does, whatever is drawn: traffic management, then one
/// step of the kernel for every car on the cars as traffic management
/// left them. Both backends meet this relation, so with the same draws
/// they give the same cars.
pub open spec fn ticked(
    before: SpawnState,
    after: SpawnState,
    entries: Seq<EntryPoint>,
    config: &CarsConfig,
    exits: Seq<ExitPoint>,
    p: &RouteParams,
    now: i64,
    dt: i64,
) -> bool {
    exists|mid: SpawnState|
        #[trigger] managed(before, mid, entries, config, exits, p, now, dt) && after
            == (SpawnState { cars: stepped_cars(mid.cars, p, dt), ..mid })
}

/// The contract of an execution strategy.
pub trait SimulationBackend {
    /// The backend can advance the state: the state is well formed and
    /// its car ids lie below the next id that the backend hands out.
    spec fn ready(&self, state: &SimulationState) -> bool;

    /// The population cap that the backend keeps.
    spec fn cap(&self) -> u32;

    /// Advances the state by one tick: traffic management, then the
    /// kinematics of every car, then the clock.
    ///
    /// After a tick that succeeds the state is well formed, the clock
    /// has advanced by the timestep once, the spawn counter has not
    /// decreased, and a population within the cap is still within it.
    fn update(&mut self, state: &mut SimulationState) -> (r: Result<(), SimError>)
        requires
            old(self).ready(old(state)),
            old(state).dt > 0,
        ensures
            final(self).cap() == old(self).cap(),
            r is Ok ==> final(self).ready(final(state)),
            r is Ok ==> final(state).wf(),
            r is Ok ==> final(state).time == sat_add(old(state).time, old(state).dt),
            final(state).dt == old(state).dt,
            final(state).total_spawned >= old(state).total_spawned,
            old(state).cars@.len() <= old(self).cap() ==> final(state).cars@.len() <= old(self).cap(),
    ;

    /// The name of the strategy.
    fn get_name(&self) -> (name: &'static str);

    /// Whether the strategy runs the kernel data-parallel.
    fn supports_gpu(&self) -> (parallel: bool);
}

/// The execution strategy of a run.
pub enum ComputeBackend {
    Cpu(CpuBackend),
    Gpu(GpuBackend),
}

impl ComputeBackend {
    /// The sequential backend for a valid configuration.
    pub fn new_cpu(cars_config: CarsConfig, route_config: RouteConfig, seed: Option<u64>) -> (r:
        Self)
        requires
            cars_config.valid(),
            route_config.valid(),
        ensures
            r is Cpu,
            r.cap() == cars_config.simulation.total_cars,
            r.manager().next_id() == 0,
            r.manager().route() == route_config,
            r.manager().cars_config() == cars_config,
            Some(r.params()) == route_params_of(&route_config, &cars_config.collision_avoidance),
            forall|state: SimulationState|
                state.wf() && state.cars@.len() == 0 ==> #[trigger] r.ready(&state),
    {
        ComputeBackend::Cpu(CpuBackend::new(cars_config, route_config, seed))
    }

    /// The data-parallel backend for a valid configuration.
    pub fn new_gpu(cars_config: CarsConfig, route_config: RouteConfig, seed: Option<u64>) -> (r:
        Result<Self, SimError>)
        requires
            cars_config.valid(),
            route_config.valid(),
        ensures
            r is Ok,
            r->Ok_0 is Gpu,
            r->Ok_0.cap() == cars_config.simulation.total_cars,
            r->Ok_0.manager().next_id() == 0,
            r->Ok_0.manager().route() == route_config,
            r->Ok_0.manager().cars_config() == cars_config,
            Some(r->Ok_0.params()) == route_params_of(
                &route_config,
                &cars_config.collision_avoidance,
            ),
            forall|state: SimulationState|
                state.wf() && state.cars@.len() == 0 ==> #[trigger] r->Ok_0.ready(&state),
    {
        match GpuBackend::new(cars_config, route_config, seed) {
            Ok(backend) => Ok(ComputeBackend::Gpu(backend)),
            Err(e) => Err(e),
        }
    }
}

impl ComputeBackend {
    /// The traffic manager of the backend.
    pub open spec fn manager(&self) -> TrafficManager {
        match self {
            ComputeBackend::Cpu(backend) => backend.manager(),
            ComputeBackend::Gpu(backend) => backend.manager(),
        }
    }

    /// The parameter record that the kernel runs with.
    pub open spec fn params(&self) -> RouteParams {
        match self {
            ComputeBackend::Cpu(backend) => backend.params(),
            ComputeBackend::Gpu(backend) => backend.params(),
        }
    }

    /// Checks whether the backend can take over the state: the state is
    /// well formed and its car ids lie below the next id of the backend.
    pub fn check_accepts(&self, state: &SimulationState) -> (r: bool)
        ensures
            r == self.manager().accepts(state),
    {
        match self {
            ComputeBackend::Cpu(backend) => backend.check_accepts(state),
            ComputeBackend::Gpu(backend) => backend.check_accepts(state),
        }
    }

    /// Creates one car of the named driver profile at the first entry
    /// of the route, at the conservative spawn speed. Nothing happens
    /// where the route has no entry, the population has reached the
    /// cap, or a car is within the permissive spawn distance of the
    /// entry.
    pub fn spawn_manual_car(&mut self, behavior_name: &str, state: &mut SimulationState)
        requires
            old(self).ready(old(state)),
        ensures
            final(self).ready(final(state)),
            final(self).cap() == old(self).cap(),
            final(self).params() == old(self).params(),
            final(self).manager().route() == old(self).manager().route(),
            final(self).manager().cars_config() == old(self).manager().cars_config(),
            manually_spawned(
                old(self).manager().phase(old(state)),
                final(self).manager().phase(final(state)),
                behavior_name@,
                old(self).manager().route().route.entries@,
                &old(self).manager().cars_config(),
                &old(self).params(),
                old(state).time,
            ),
            final(state).active_cars == final(state).cars@.len(),
            final(state).cars@.len() <= old(state).cars@.len() + 1,
            final(state).cars@.len() >= old(state).cars@.len(),
            old(state).cars@.len() <= old(self).cap() ==> final(state).cars@.len() <= old(self).cap(),
            final(state).time == old(state).time,
            final(state).dt == old(state).dt,
    {
        match self {
            ComputeBackend::Cpu(backend) => backend.spawn_manual_car(behavior_name, state),
            ComputeBackend::Gpu(backend) => backend.spawn_manual_car(behavior_name, state),
        }
    }
}

impl SimulationBackend for ComputeBackend {
    open spec fn ready(&self, state: &SimulationState) -> bool {
        match self {
            ComputeBackend::Cpu(backend) => backend.ready(state),
            ComputeBackend::Gpu(backend) => backend.ready(state),
        }
    }

    open spec fn cap(&self) -> u32 {
        match self {
            ComputeBackend::Cpu(backend) => backend.cap(),
            ComputeBackend::Gpu(backend) => backend.cap(),
        }
    }

    fn update(&mut self, state: &mut SimulationState) -> (r: Result<(), SimError>)
        ensures
            *old(self) is Cpu ==> r is Ok && *final(self) is Cpu,
            *old(self) is Gpu ==> *final(self) is Gpu,
            old(state).cars@.len() <= old(self).cap() ==> r is Ok,
            final(self).params() == old(self).params(),
            r is Ok ==> ticked(
                old(self).manager().phase(old(state)),
                final(self).manager().phase(final(state)),
                old(self).manager().route().route.entries@,
                &old(self).manager().cars_config(),
                old(self).manager().route().route.exits@,
                &old(self).params(),
                old(state).time,
                old(state).dt,
            ),
    {
        match self {
            ComputeBackend::Cpu(backend) => backend.update(state),
            ComputeBackend::Gpu(backend) => backend.update(state),
        }
    }

    fn get_name(&self) -> (name: &'static str)
        ensures
            self is Cpu ==> name@ == "CPU"@,
            self is Gpu ==> name@ == "OpenCL GPU"@,
    {
        match self {
            ComputeBackend::Cpu(backend) => backend.get_name(),
            ComputeBackend::Gpu(backend) => backend.get_name(),
        }
    }

    fn supports_gpu(&self) -> (parallel: bool)
        ensures
            parallel == (self is Gpu),
    {
        match self {
            ComputeBackend::Cpu(backend) => backend.supports_gpu(),
            ComputeBackend::Gpu(backend) => backend.supports_gpu(),
        }
    }
}

} // verus!
