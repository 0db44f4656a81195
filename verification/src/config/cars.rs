//! The traffic: car types, driver behaviors, thresholds and spawn parameters.
use vstd::prelude::*;
use crate::config::ConfigError;
use crate::config::first_defect;
use crate::config::lemma_all_sound;
use crate::config::lemma_no_defect;
use crate::config::Validate;
use crate::fixed::SCALE;

verus! {

pub struct CarsConfig {
    pub simulation: SimulationParams,
    pub car_types: Vec<CarType>,
    /// The behavior profiles by name; no name occurs twice.
    pub behavior: Vec<(String, DriverBehavior)>,
    pub collision_avoidance: CollisionAvoidance,
    pub traffic_flow: TrafficFlow,
    pub random: RandomConfig,
    pub performance: PerformanceConfig,
}

/// The spawn rate is in millionths of a car per second.
#[derive(Debug, Clone, Copy, PartialEq, Eq, Structural)]
pub struct SimulationParams {
    pub total_cars: u32,
    pub spawn_rate: i64,
    pub simulation_duration: i64,
}

pub struct CarType {
    pub id: String,
    pub weight: u32,
    pub length: i64,
    pub width: i64,
    pub max_acceleration: i64,
    pub max_deceleration: i64,
    pub preferred_speed: i64,
}

pub struct DriverBehavior {
    pub name: String,
    pub weight: u32,
    pub following_distance_factor: i64,
    pub lane_change_frequency: i64,
    pub speed_variance: i64,
    pub reaction_time: i64,
    pub exit_probability: i64,
}

#[derive(Debug, Clone, Copy, PartialEq, Eq, Structural)]
pub struct CollisionAvoidance {
    pub safety_margin: i64,
    pub emergency_brake_distance: i64,
    pub warning_distance: i64,
    pub lateral_safety_margin: i64,
}

pub struct TrafficFlow {
    pub entry_intervals: Vec<EntryInterval>,
}

pub struct EntryInterval {
    pub entry_id: String,
    pub min_interval: i64,
    pub max_interval: i64,
}

#[derive(Debug, Clone, Copy, PartialEq, Eq, Structural)]
pub struct RandomConfig {
    pub seed: Option<u64>,
}

#[derive(Debug, Clone, Copy, PartialEq, Eq, Structural)]
pub struct PerformanceConfig {
    pub enable_gpu_timing: bool,
    pub enable_cpu_timing: bool,
    pub timing_samples: u32,
}

impl SimulationParams {
    pub open spec fn defect(&self) -> Option<ConfigError> {
        if self.total_cars == 0 {
            Some(ConfigError::ZeroTotalCars)
        } else if self.spawn_rate <= 0 {
            Some(ConfigError::NonPositiveSpawnRate)
        } else if self.simulation_duration <= 0 {
            Some(ConfigError::NonPositiveDuration)
        } else {
            None
        }
    }
}

impl CarType {
    pub open spec fn defect(&self) -> Option<ConfigError> {
        if self.length <= 0 || self.width <= 0 {
            Some(ConfigError::NonPositiveCarDimensions)
        } else if self.max_acceleration <= 0 || self.max_deceleration <= 0 {
            Some(ConfigError::NonPositiveCarAcceleration)
        } else if self.preferred_speed <= 0 {
            Some(ConfigError::NonPositivePreferredSpeed)
        } else {
            None
        }
    }

    pub fn copy(&self) -> (r: Self)
        ensures
            r == *self,
    {
        CarType {
            id: self.id.clone(),
            weight: self.weight,
            length: self.length,
            width: self.width,
            max_acceleration: self.max_acceleration,
            max_deceleration: self.max_deceleration,
            preferred_speed: self.preferred_speed,
        }
    }
}

impl Clone for CarType {
    fn clone(&self) -> (r: Self)
        ensures
            r == *self,
    {
        self.copy()
    }
}

impl DriverBehavior {
    pub open spec fn defect(&self) -> Option<ConfigError> {
        if self.following_distance_factor <= 0 {
            Some(ConfigError::NonPositiveFollowingFactor)
        } else if self.lane_change_frequency < 0 {
            Some(ConfigError::NegativeLaneChangeFrequency)
        } else if self.speed_variance <= 0 {
            Some(ConfigError::NonPositiveSpeedVariance)
        } else if self.reaction_time <= 0 {
            Some(ConfigError::NonPositiveReactionTime)
        } else if self.exit_probability < 0 || self.exit_probability > SCALE {
            Some(ConfigError::ExitProbabilityOutOfRange)
        } else {
            None
        }
    }

    pub fn copy(&self) -> (r: Self)
        ensures
            r == *self,
    {
        DriverBehavior {
            name: self.name.clone(),
            weight: self.weight,
            following_distance_factor: self.following_distance_factor,
            lane_change_frequency: self.lane_change_frequency,
            speed_variance: self.speed_variance,
            reaction_time: self.reaction_time,
            exit_probability: self.exit_probability,
        }
    }
}

impl Clone for DriverBehavior {
    fn clone(&self) -> (r: Self)
        ensures
            r == *self,
    {
        self.copy()
    }
}

impl CollisionAvoidance {
    pub open spec fn defect(&self) -> Option<ConfigError> {
        if self.safety_margin < 0 {
            Some(ConfigError::NegativeSafetyMargin)
        } else if self.emergency_brake_distance <= 0 || self.warning_distance <= 0 {
            Some(ConfigError::NonPositiveBrakeDistance)
        } else if self.emergency_brake_distance >= self.warning_distance {
            Some(ConfigError::EmergencyNotBelowWarning)
        } else {
            None
        }
    }

    pub open spec fn valid(&self) -> bool {
        self.defect() is None
    }
}

impl EntryInterval {
    pub open spec fn defect(&self) -> Option<ConfigError> {
        if self.min_interval > self.max_interval {
            Some(ConfigError::EntryIntervalOutOfOrder)
        } else {
            None
        }
    }

    pub fn copy(&self) -> (r: Self)
        ensures
            r == *self,
    {
        EntryInterval {
            entry_id: self.entry_id.clone(),
            min_interval: self.min_interval,
            max_interval: self.max_interval,
        }
    }
}

impl Clone for EntryInterval {
    fn clone(&self) -> (r: Self)
        ensures
            r == *self,
    {
        self.copy()
    }
}

/// The weights of a list of car types.
pub open spec fn car_weights(types: Seq<CarType>) -> Seq<int> {
    Seq::new(types.len(), |i: int| types[i].weight as int)
}

/// The weights of a list of behaviors.
pub open spec fn behavior_weights(list: Seq<(String, DriverBehavior)>) -> Seq<int> {
    Seq::new(list.len(), |i: int| list[i].1.weight as int)
}

/// The sum of the first `n` weights.
pub open spec fn weight_sum(weights: Seq<int>, n: int) -> int
    decreases n,
{
    if n <= 0 {
        0
    } else {
        weight_sum(weights, n - 1) + weights[n - 1]
    }
}

/// The sum of all weights.
pub open spec fn total_weight(weights: Seq<int>) -> int {
    weight_sum(weights, weights.len() as int)
}

/// No two behaviors of the list share a name.
pub open spec fn names_distinct(list: Seq<(String, DriverBehavior)>) -> bool {
    forall|i: int, j: int| 0 <= i < j < list.len() ==> list[i].0@ != list[j].0@
}

/// A copy of a list of car types.
pub fn copy_car_types(list: &Vec<CarType>) -> (r: Vec<CarType>)
    ensures
        r@ == list@,
{
    let mut out: Vec<CarType> = Vec::new();
    let mut i: usize = 0;
    while i < list.len()
        invariant
            i <= list.len(),
            out@ == list@.take(i as int),
        decreases list.len() - i,
    {
        out.push(list[i].copy());
        i += 1;
    }
    out
}

/// A copy of a list of named behaviors.
pub fn copy_behaviors(list: &Vec<(String, DriverBehavior)>) -> (r: Vec<(String, DriverBehavior)>)
    ensures
        r@ == list@,
{
    let mut out: Vec<(String, DriverBehavior)> = Vec::new();
    let mut i: usize = 0;
    while i < list.len()
        invariant
            i <= list.len(),
            out@ == list@.take(i as int),
        decreases list.len() - i,
    {
        out.push((list[i].0.clone(), list[i].1.copy()));
        i += 1;
    }
    out
}

/// A copy of a list of spawn intervals.
pub fn copy_intervals(list: &Vec<EntryInterval>) -> (r: Vec<EntryInterval>)
    ensures
        r@ == list@,
{
    let mut out: Vec<EntryInterval> = Vec::new();
    let mut i: usize = 0;
    while i < list.len()
        invariant
            i <= list.len(),
            out@ == list@.take(i as int),
        decreases list.len() - i,
    {
        out.push(list[i].copy());
        i += 1;
    }
    out
}

impl CarsConfig {
    pub open spec fn defect(&self) -> Option<ConfigError> {
        if self.simulation.defect() is Some {
            self.simulation.defect()
        } else if self.car_types@.len() == 0 {
            Some(ConfigError::NoCarTypes)
        } else if total_weight(car_weights(self.car_types@)) != 100 {
            Some(ConfigError::CarWeightsNotHundred)
        } else if first_defect(self.car_types@, |c: CarType| c.defect(), 0) is Some {
            first_defect(self.car_types@, |c: CarType| c.defect(), 0)
        } else if self.behavior@.len() == 0 {
            Some(ConfigError::NoBehaviors)
        } else if !names_distinct(self.behavior@) {
            Some(ConfigError::DuplicateBehaviorName)
        } else if total_weight(behavior_weights(self.behavior@)) != 100 {
            Some(ConfigError::BehaviorWeightsNotHundred)
        } else if first_defect(self.behavior@, |b: (String, DriverBehavior)| b.1.defect(), 0)
            is Some {
            first_defect(self.behavior@, |b: (String, DriverBehavior)| b.1.defect(), 0)
        } else if self.collision_avoidance.defect() is Some {
            self.collision_avoidance.defect()
        } else if first_defect(
            self.traffic_flow.entry_intervals@,
            |e: EntryInterval| e.defect(),
            0,
        ) is Some {
            first_defect(self.traffic_flow.entry_intervals@, |e: EntryInterval| e.defect(), 0)
        } else if self.performance.timing_samples == 0 {
            Some(ConfigError::ZeroTimingSamples)
        } else {
            None
        }
    }

    /// The configuration meets every documented constraint.
    pub open spec fn valid(&self) -> bool {
        &&& self.simulation.defect() is None
        &&& self.car_types@.len() > 0
        &&& total_weight(car_weights(self.car_types@)) == 100
        &&& forall|i: int|
            0 <= i < self.car_types@.len() ==> (#[trigger] self.car_types@[i]).defect() is None
        &&& self.behavior@.len() > 0
        &&& names_distinct(self.behavior@)
        &&& total_weight(behavior_weights(self.behavior@)) == 100
        &&& forall|i: int|
            0 <= i < self.behavior@.len() ==> (#[trigger] self.behavior@[i]).1.defect() is None
        &&& self.collision_avoidance.valid()
        &&& forall|i: int|
            0 <= i < self.traffic_flow.entry_intervals@.len() ==> (
            #[trigger] self.traffic_flow.entry_intervals@[i]).defect() is None
        &&& self.performance.timing_samples > 0
    }

    /// A configuration is valid exactly when validation finds no defect.
    pub proof fn lemma_valid_iff_no_defect(&self)
        ensures
            self.valid() <==> self.defect() is None,
    {
        let on_type = |c: CarType| c.defect();
        let on_behavior = |b: (String, DriverBehavior)| b.1.defect();
        let on_interval = |e: EntryInterval| e.defect();
        let intervals = self.traffic_flow.entry_intervals@;
        if self.valid() {
            assert forall|j: int| 0 <= j < self.car_types@.len() implies (#[trigger] on_type(
                self.car_types@[j],
            )) is None by {
                assert(self.car_types@[j].defect() is None);
            }
            lemma_all_sound(self.car_types@, on_type, 0);
            assert forall|j: int| 0 <= j < self.behavior@.len() implies (#[trigger] on_behavior(
                self.behavior@[j],
            )) is None by {
                assert(self.behavior@[j].1.defect() is None);
            }
            lemma_all_sound(self.behavior@, on_behavior, 0);
            assert forall|j: int| 0 <= j < intervals.len() implies (#[trigger] on_interval(
                intervals[j],
            )) is None by {
                assert(intervals[j].defect() is None);
            }
            lemma_all_sound(intervals, on_interval, 0);
        }
        if self.defect() is None {
            lemma_no_defect(self.car_types@, on_type, 0);
            lemma_no_defect(self.behavior@, on_behavior, 0);
            lemma_no_defect(intervals, on_interval, 0);
            assert forall|i: int| 0 <= i < self.car_types@.len() implies (
            #[trigger] self.car_types@[i]).defect() is None by {
                assert(on_type(self.car_types@[i]) is None);
            }
            assert forall|i: int| 0 <= i < self.behavior@.len() implies (
            #[trigger] self.behavior@[i]).1.defect() is None by {
                assert(on_behavior(self.behavior@[i]) is None);
            }
            assert forall|i: int| 0 <= i < intervals.len() implies (#[trigger] intervals[i]).defect()
                is None by {
                assert(on_interval(intervals[i]) is None);
            }
        }
    }

    /// A copy that agrees with its source on every field.
    pub fn copy(&self) -> (r: Self)
        ensures
            r.simulation == self.simulation,
            r.car_types@ == self.car_types@,
            r.behavior@ == self.behavior@,
            r.collision_avoidance == self.collision_avoidance,
            r.traffic_flow.entry_intervals@ == self.traffic_flow.entry_intervals@,
            r.random == self.random,
            r.performance == self.performance,
            r.valid() == self.valid(),
    {
        CarsConfig {
            simulation: self.simulation,
            car_types: copy_car_types(&self.car_types),
            behavior: copy_behaviors(&self.behavior),
            collision_avoidance: self.collision_avoidance,
            traffic_flow: TrafficFlow {
                entry_intervals: copy_intervals(&self.traffic_flow.entry_intervals),
            },
            random: self.random,
            performance: self.performance,
        }
    }
}

impl Clone for CarsConfig {
    fn clone(&self) -> (r: Self)
        ensures
            r.simulation == self.simulation,
            r.car_types@ == self.car_types@,
            r.behavior@ == self.behavior@,
            r.collision_avoidance == self.collision_avoidance,
            r.traffic_flow.entry_intervals@ == self.traffic_flow.entry_intervals@,
            r.valid() == self.valid(),
    {
        self.copy()
    }
}

fn check_simulation(sim: &SimulationParams) -> (r: Option<ConfigError>)
    ensures
        r == sim.defect(),
{
    if sim.total_cars == 0 {
        Some(ConfigError::ZeroTotalCars)
    } else if sim.spawn_rate <= 0 {
        Some(ConfigError::NonPositiveSpawnRate)
    } else if sim.simulation_duration <= 0 {
        Some(ConfigError::NonPositiveDuration)
    } else {
        None
    }
}

/// Whether the car type weights sum to 100.
fn car_weights_sum_to_hundred(types: &Vec<CarType>) -> (r: bool)
    ensures
        r == (total_weight(car_weights(types@)) == 100),
{
    let ghost weights = car_weights(types@);
    let mut capped: u64 = 0;
    let mut i: usize = 0;
    while i < types.len()
        invariant
            i <= types.len(),
            weights == car_weights(types@),
            weight_sum(weights, i as int) >= 0,
            capped <= 100 ==> capped == weight_sum(weights, i as int),
            capped > 100 ==> capped == 101 && weight_sum(weights, i as int) > 100,
        decreases types.len() - i,
    {
        let w: u64 = types[i].weight as u64;
        assert(weights[i as int] == w);
        if capped > 100 || w > 100 || capped + w > 100 {
            capped = 101;
        } else {
            capped = capped + w;
        }
        i += 1;
    }
    capped == 100
}

/// Whether the behavior weights sum to 100.
fn behavior_weights_sum_to_hundred(list: &Vec<(String, DriverBehavior)>) -> (r: bool)
    ensures
        r == (total_weight(behavior_weights(list@)) == 100),
{
    let ghost weights = behavior_weights(list@);
    let mut capped: u64 = 0;
    let mut i: usize = 0;
    while i < list.len()
        invariant
            i <= list.len(),
            weights == behavior_weights(list@),
            weight_sum(weights, i as int) >= 0,
            capped <= 100 ==> capped == weight_sum(weights, i as int),
            capped > 100 ==> capped == 101 && weight_sum(weights, i as int) > 100,
        decreases list.len() - i,
    {
        let w: u64 = list[i].1.weight as u64;
        assert(weights[i as int] == w);
        if capped > 100 || w > 100 || capped + w > 100 {
            capped = 101;
        } else {
            capped = capped + w;
        }
        i += 1;
    }
    capped == 100
}

fn check_car_types(types: &Vec<CarType>) -> (r: Option<ConfigError>)
    ensures
        r == first_defect(types@, |c: CarType| c.defect(), 0),
{
    let ghost check = |c: CarType| c.defect();
    let mut i: usize = 0;
    while i < types.len()
        invariant
            i <= types.len(),
            first_defect(types@, check, 0) == first_defect(types@, check, i as int),
            check == (|c: CarType| c.defect()),
        decreases types.len() - i,
    {
        let c = &types[i];
        if c.length <= 0 || c.width <= 0 {
            return Some(ConfigError::NonPositiveCarDimensions);
        }
        if c.max_acceleration <= 0 || c.max_deceleration <= 0 {
            return Some(ConfigError::NonPositiveCarAcceleration);
        }
        if c.preferred_speed <= 0 {
            return Some(ConfigError::NonPositivePreferredSpeed);
        }
        i += 1;
    }
    None
}

fn check_behavior(b: &DriverBehavior) -> (r: Option<ConfigError>)
    ensures
        r == b.defect(),
{
    if b.following_distance_factor <= 0 {
        Some(ConfigError::NonPositiveFollowingFactor)
    } else if b.lane_change_frequency < 0 {
        Some(ConfigError::NegativeLaneChangeFrequency)
    } else if b.speed_variance <= 0 {
        Some(ConfigError::NonPositiveSpeedVariance)
    } else if b.reaction_time <= 0 {
        Some(ConfigError::NonPositiveReactionTime)
    } else if b.exit_probability < 0 || b.exit_probability > SCALE {
        Some(ConfigError::ExitProbabilityOutOfRange)
    } else {
        None
    }
}

fn check_behaviors(list: &Vec<(String, DriverBehavior)>) -> (r: Option<ConfigError>)
    ensures
        r == first_defect(list@, |b: (String, DriverBehavior)| b.1.defect(), 0),
{
    let ghost check = |b: (String, DriverBehavior)| b.1.defect();
    let mut i: usize = 0;
    while i < list.len()
        invariant
            i <= list.len(),
            first_defect(list@, check, 0) == first_defect(list@, check, i as int),
            check == (|b: (String, DriverBehavior)| b.1.defect()),
        decreases list.len() - i,
    {
        if let Some(e) = check_behavior(&list[i].1) {
            return Some(e);
        }
        i += 1;
    }
    None
}

/// Whether no two behaviors share a name.
fn check_names_distinct(list: &Vec<(String, DriverBehavior)>) -> (r: bool)
    ensures
        r == names_distinct(list@),
{
    let mut j: usize = 0;
    while j < list.len()
        invariant
            j <= list.len(),
            forall|a: int, b: int| 0 <= a < b < j ==> list@[a].0@ != list@[b].0@,
        decreases list.len() - j,
    {
        let mut i: usize = 0;
        while i < j
            invariant
                i <= j < list.len(),
                forall|a: int, b: int| 0 <= a < b < j ==> list@[a].0@ != list@[b].0@,
                forall|a: int| 0 <= a < i ==> list@[a].0@ != list@[j as int].0@,
            decreases j - i,
        {
            if list[i].0 == list[j].0 {
                return false;
            }
            i += 1;
        }
        j += 1;
    }
    true
}

fn check_collision(c: &CollisionAvoidance) -> (r: Option<ConfigError>)
    ensures
        r == c.defect(),
{
    if c.safety_margin < 0 {
        Some(ConfigError::NegativeSafetyMargin)
    } else if c.emergency_brake_distance <= 0 || c.warning_distance <= 0 {
        Some(ConfigError::NonPositiveBrakeDistance)
    } else if c.emergency_brake_distance >= c.warning_distance {
        Some(ConfigError::EmergencyNotBelowWarning)
    } else {
        None
    }
}

fn check_intervals(list: &Vec<EntryInterval>) -> (r: Option<ConfigError>)
    ensures
        r == first_defect(list@, |e: EntryInterval| e.defect(), 0),
{
    let ghost check = |e: EntryInterval| e.defect();
    let mut i: usize = 0;
    while i < list.len()
        invariant
            i <= list.len(),
            first_defect(list@, check, 0) == first_defect(list@, check, i as int),
            check == (|e: EntryInterval| e.defect()),
        decreases list.len() - i,
    {
        if list[i].min_interval > list[i].max_interval {
            return Some(ConfigError::EntryIntervalOutOfOrder);
        }
        i += 1;
    }
    None
}

impl Validate for CarsConfig {
    open spec fn defect(&self) -> Option<ConfigError> {
        CarsConfig::defect(self)
    }

    fn validate(&self) -> (r: Result<(), ConfigError>) {
        if let Some(e) = check_simulation(&self.simulation) {
            return Err(e);
        }
        if self.car_types.len() == 0 {
            return Err(ConfigError::NoCarTypes);
        }
        if !car_weights_sum_to_hundred(&self.car_types) {
            return Err(ConfigError::CarWeightsNotHundred);
        }
        if let Some(e) = check_car_types(&self.car_types) {
            return Err(e);
        }
        if self.behavior.len() == 0 {
            return Err(ConfigError::NoBehaviors);
        }
        if !check_names_distinct(&self.behavior) {
            return Err(ConfigError::DuplicateBehaviorName);
        }
        if !behavior_weights_sum_to_hundred(&self.behavior) {
            return Err(ConfigError::BehaviorWeightsNotHundred);
        }
        if let Some(e) = check_behaviors(&self.behavior) {
            return Err(e);
        }
        if let Some(e) = check_collision(&self.collision_avoidance) {
            return Err(e);
        }
        if let Some(e) = check_intervals(&self.traffic_flow.entry_intervals) {
            return Err(e);
        }
        if self.performance.timing_samples == 0 {
            return Err(ConfigError::ZeroTimingSamples);
        }
        Ok(())
    }
}

} // verus!
