//! Immutable configuration of a run: the road network and the traffic on it.
use vstd::prelude::*;

pub mod cars;
pub mod route;

pub use cars::CarType;
pub use cars::CarsConfig;
pub use cars::CollisionAvoidance;
pub use cars::DriverBehavior;
pub use cars::EntryInterval;
pub use cars::PerformanceConfig;
pub use cars::RandomConfig;
pub use cars::SimulationParams;
pub use cars::TrafficFlow;
pub use route::EntryPoint;
pub use route::ExitPoint;
pub use route::GeometryKind;
pub use route::RoadSurface;
pub use route::Route;
pub use route::RouteConfig;
pub use route::RouteGeometry;
pub use route::TrafficRules;
pub use route::TrafficSignals;

verus! {

/// The first rule a configuration breaks.
#[derive(Debug, Clone, Copy, PartialEq, Eq, Structural)]
pub enum ConfigError {
    /// The geometry type is neither `donut` nor `cloverleaf`.
    UnsupportedGeometry,
    /// The inner radius is not below the outer radius.
    InnerRadiusNotBelowOuter,
    /// The lane width is not positive, or there is no lane.
    NonPositiveLanes,
    /// The inner radius is negative.
    NegativeInnerRadius,
    /// An entry names a lane outside `1..=lane_count`.
    EntryLaneOutOfRange,
    /// An entry angle is outside `[0, 360)` degrees.
    EntryAngleOutOfRange,
    /// An exit names a lane outside `1..=lane_count`.
    ExitLaneOutOfRange,
    /// An exit angle is outside `[0, 360)` degrees.
    ExitAngleOutOfRange,
    /// The speed limit or the minimum speed is not positive.
    NonPositiveSpeedLimits,
    /// The minimum speed is not below the speed limit.
    MinSpeedNotBelowLimit,
    /// The following distance or the lane change time is not positive.
    NonPositiveFollowingOrLaneChange,
    /// The friction coefficient is outside `(0, 1]`.
    FrictionOutOfRange,
    /// The population cap is zero.
    ZeroTotalCars,
    /// The spawn rate is not positive.
    NonPositiveSpawnRate,
    /// The simulation duration is not positive.
    NonPositiveDuration,
    /// No car type is defined.
    NoCarTypes,
    /// The car type weights do not sum to 100.
    CarWeightsNotHundred,
    /// A car type has a length or width that is not positive.
    NonPositiveCarDimensions,
    /// A car type has an acceleration bound that is not positive.
    NonPositiveCarAcceleration,
    /// A car type has a preferred speed that is not positive.
    NonPositivePreferredSpeed,
    /// No driver behavior is defined.
    NoBehaviors,
    /// Two driver behaviors share a name.
    DuplicateBehaviorName,
    /// The behavior weights do not sum to 100.
    BehaviorWeightsNotHundred,
    /// A behavior has a following distance factor that is not positive.
    NonPositiveFollowingFactor,
    /// A behavior has a negative lane change frequency.
    NegativeLaneChangeFrequency,
    /// A behavior has a speed variance that is not positive.
    NonPositiveSpeedVariance,
    /// A behavior has a reaction time that is not positive.
    NonPositiveReactionTime,
    /// A behavior has an exit probability outside `[0, 1]`.
    ExitProbabilityOutOfRange,
    /// The safety margin is negative.
    NegativeSafetyMargin,
    /// A brake distance is not positive.
    NonPositiveBrakeDistance,
    /// The emergency brake distance is not below the warning distance.
    EmergencyNotBelowWarning,
    /// The bounds of a spawn interval are out of order.
    EntryIntervalOutOfOrder,
    /// The number of timing samples is zero.
    ZeroTimingSamples,
}

impl ConfigError {
    /// The text of the error.
    pub open spec fn message_text(&self) -> Seq<char> {
        match self {
            ConfigError::UnsupportedGeometry => {
                "Only 'donut' and 'cloverleaf' geometry types are supported"@
            },
            ConfigError::InnerRadiusNotBelowOuter => "Inner radius must be less than outer radius"@,
            ConfigError::NonPositiveLanes => "Lane width and count must be positive"@,
            ConfigError::NegativeInnerRadius => "Inner radius must be non-negative"@,
            ConfigError::EntryLaneOutOfRange => "Entry lane is out of range"@,
            ConfigError::EntryAngleOutOfRange => "Entry angle must be in range [0, 360)"@,
            ConfigError::ExitLaneOutOfRange => "Exit lane is out of range"@,
            ConfigError::ExitAngleOutOfRange => "Exit angle must be in range [0, 360)"@,
            ConfigError::NonPositiveSpeedLimits => "Speed limits must be positive"@,
            ConfigError::MinSpeedNotBelowLimit => "Minimum speed must be less than speed limit"@,
            ConfigError::NonPositiveFollowingOrLaneChange => {
                "Following distance and lane change time must be positive"@
            },
            ConfigError::FrictionOutOfRange => "Friction coefficient must be in range (0, 1]"@,
            ConfigError::ZeroTotalCars => "Total cars must be greater than zero"@,
            ConfigError::NonPositiveSpawnRate => "Spawn rate must be positive"@,
            ConfigError::NonPositiveDuration => "Simulation duration must be positive"@,
            ConfigError::NoCarTypes => "At least one car type must be defined"@,
            ConfigError::CarWeightsNotHundred => "Car type weights must sum to 100"@,
            ConfigError::NonPositiveCarDimensions => "Car dimensions must be positive"@,
            ConfigError::NonPositiveCarAcceleration => "Car acceleration values must be positive"@,
            ConfigError::NonPositivePreferredSpeed => "Preferred speed must be positive"@,
            ConfigError::NoBehaviors => "At least one behavior must be defined"@,
            ConfigError::DuplicateBehaviorName => "Behavior names must be distinct"@,
            ConfigError::BehaviorWeightsNotHundred => "Behavior weights must sum to 100"@,
            ConfigError::NonPositiveFollowingFactor => "Following distance factor must be positive"@,
            ConfigError::NegativeLaneChangeFrequency => {
                "Lane change frequency must be non-negative"@
            },
            ConfigError::NonPositiveSpeedVariance => "Speed variance must be positive"@,
            ConfigError::NonPositiveReactionTime => "Reaction time must be positive"@,
            ConfigError::ExitProbabilityOutOfRange => "Exit probability must be in range [0, 1]"@,
            ConfigError::NegativeSafetyMargin => "Safety margin must be non-negative"@,
            ConfigError::NonPositiveBrakeDistance => "Brake distances must be positive"@,
            ConfigError::EmergencyNotBelowWarning => {
                "Emergency brake distance must be less than warning distance"@
            },
            ConfigError::EntryIntervalOutOfOrder => {
                "Minimum spawn interval must not exceed the maximum"@
            },
            ConfigError::ZeroTimingSamples => "Timing samples must be greater than zero"@,
        }
    }

    /// The error in words.
    pub fn message(&self) -> (text: &'static str)
        ensures
            text@ == self.message_text(),
    {
        match self {
            ConfigError::UnsupportedGeometry => {
                "Only 'donut' and 'cloverleaf' geometry types are supported"
            },
            ConfigError::InnerRadiusNotBelowOuter => "Inner radius must be less than outer radius",
            ConfigError::NonPositiveLanes => "Lane width and count must be positive",
            ConfigError::NegativeInnerRadius => "Inner radius must be non-negative",
            ConfigError::EntryLaneOutOfRange => "Entry lane is out of range",
            ConfigError::EntryAngleOutOfRange => "Entry angle must be in range [0, 360)",
            ConfigError::ExitLaneOutOfRange => "Exit lane is out of range",
            ConfigError::ExitAngleOutOfRange => "Exit angle must be in range [0, 360)",
            ConfigError::NonPositiveSpeedLimits => "Speed limits must be positive",
            ConfigError::MinSpeedNotBelowLimit => "Minimum speed must be less than speed limit",
            ConfigError::NonPositiveFollowingOrLaneChange => {
                "Following distance and lane change time must be positive"
            },
            ConfigError::FrictionOutOfRange => "Friction coefficient must be in range (0, 1]",
            ConfigError::ZeroTotalCars => "Total cars must be greater than zero",
            ConfigError::NonPositiveSpawnRate => "Spawn rate must be positive",
            ConfigError::NonPositiveDuration => "Simulation duration must be positive",
            ConfigError::NoCarTypes => "At least one car type must be defined",
            ConfigError::CarWeightsNotHundred => "Car type weights must sum to 100",
            ConfigError::NonPositiveCarDimensions => "Car dimensions must be positive",
            ConfigError::NonPositiveCarAcceleration => "Car acceleration values must be positive",
            ConfigError::NonPositivePreferredSpeed => "Preferred speed must be positive",
            ConfigError::NoBehaviors => "At least one behavior must be defined",
            ConfigError::DuplicateBehaviorName => "Behavior names must be distinct",
            ConfigError::BehaviorWeightsNotHundred => "Behavior weights must sum to 100",
            ConfigError::NonPositiveFollowingFactor => "Following distance factor must be positive",
            ConfigError::NegativeLaneChangeFrequency => {
                "Lane change frequency must be non-negative"
            },
            ConfigError::NonPositiveSpeedVariance => "Speed variance must be positive",
            ConfigError::NonPositiveReactionTime => "Reaction time must be positive",
            ConfigError::ExitProbabilityOutOfRange => "Exit probability must be in range [0, 1]",
            ConfigError::NegativeSafetyMargin => "Safety margin must be non-negative",
            ConfigError::NonPositiveBrakeDistance => "Brake distances must be positive",
            ConfigError::EmergencyNotBelowWarning => {
                "Emergency brake distance must be less than warning distance"
            },
            ConfigError::EntryIntervalOutOfOrder => {
                "Minimum spawn interval must not exceed the maximum"
            },
            ConfigError::ZeroTimingSamples => "Timing samples must be greater than zero",
        }
    }
}

/// The defect of the first element of `s`, from index `i` on, that has one.
pub open spec fn first_defect<T>(
    s: Seq<T>,
    check: spec_fn(T) -> Option<ConfigError>,
    i: int,
) -> Option<ConfigError>
    decreases s.len() - i,
{
    if i < 0 || i >= s.len() {
        None
    } else if check(s[i]) is Some {
        check(s[i])
    } else {
        first_defect(s, check, i + 1)
    }
}

/// A sequence without a first defect has no defective element.
pub proof fn lemma_no_defect<T>(s: Seq<T>, check: spec_fn(T) -> Option<ConfigError>, i: int)
    requires
        0 <= i,
        first_defect(s, check, i) is None,
    ensures
        forall|j: int| i <= j < s.len() ==> (#[trigger] check(s[j])) is None,
    decreases s.len() - i,
{
    if i < s.len() {
        lemma_no_defect(s, check, i + 1);
    }
}

/// A sequence whose elements are all sound has no first defect.
pub proof fn lemma_all_sound<T>(s: Seq<T>, check: spec_fn(T) -> Option<ConfigError>, i: int)
    requires
        0 <= i,
        forall|j: int| i <= j < s.len() ==> (#[trigger] check(s[j])) is None,
    ensures
        first_defect(s, check, i) is None,
    decreases s.len() - i,
{
    if i < s.len() {
        lemma_all_sound(s, check, i + 1);
    }
}

/// A configuration that can be checked against its documented constraints.
pub trait Validate {
    /// The first constraint the configuration breaks, if any.
    spec fn defect(&self) -> Option<ConfigError>;

    /// Reports the first broken constraint, or `Ok` when there is none.
    fn validate(&self) -> (r: Result<(), ConfigError>)
        ensures
            r == (match self.defect() {
                Some(e) => Err::<(), ConfigError>(e),
                None => Ok::<(), ConfigError>(()),
            }),
    ;
}

/// The two configuration aggregates of one run.
pub struct SimulationConfig {
    pub route: RouteConfig,
    pub cars: CarsConfig,
}

impl SimulationConfig {
    /// Both aggregates are free of defects.
    pub open spec fn valid(&self) -> bool {
        self.route.valid() && self.cars.valid()
    }

    /// The first defect of the route, else the first of the cars.
    pub open spec fn defect(&self) -> Option<ConfigError> {
        if self.route.defect() is Some {
            self.route.defect()
        } else {
            self.cars.defect()
        }
    }

    /// Checks the route first, then the cars, as loading does.
    pub fn validate(&self) -> (r: Result<(), ConfigError>)
        ensures
            r == (match self.defect() {
                Some(e) => Err::<(), ConfigError>(e),
                None => Ok::<(), ConfigError>(()),
            }),
            r is Ok <==> self.valid(),
    {
        proof {
            self.route.lemma_valid_iff_no_defect();
            self.cars.lemma_valid_iff_no_defect();
        }
        match self.route.validate() {
            Err(e) => Err(e),
            Ok(()) => self.cars.validate(),
        }
    }
}

} // verus!
