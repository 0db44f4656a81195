use traffic_sim::config::CarType;
use traffic_sim::config::CarsConfig;
use traffic_sim::config::CollisionAvoidance;
use traffic_sim::config::DriverBehavior;
use traffic_sim::config::EntryInterval;
use traffic_sim::config::EntryPoint;
use traffic_sim::config::ExitPoint;
use traffic_sim::config::PerformanceConfig;
use traffic_sim::config::RandomConfig;
use traffic_sim::config::RoadSurface;
use traffic_sim::config::Route;
use traffic_sim::config::RouteConfig;
use traffic_sim::config::RouteGeometry;
use traffic_sim::config::SimulationParams;
use traffic_sim::config::TrafficFlow;
use traffic_sim::config::TrafficRules;
use traffic_sim::config::TrafficSignals;
use traffic_sim::config::ConfigError;
use traffic_sim::config::GeometryKind;
use traffic_sim::config::SimulationConfig;
use traffic_sim::config::Validate;

fn fx(value: f64) -> i64 {
    (value * 1e6).round() as i64
}

fn entry(id: &str, kind: &str, angle_deg: f64, lane: u32) -> EntryPoint {
    EntryPoint {
        id: id.to_string(),
        entry_type: kind.to_string(),
        angle: fx(angle_deg),
        position: "outer".to_string(),
        lane,
        merge_distance: fx(50.0),
        loop_entry_angle: None,
    }
}

fn exit(id: &str, angle_deg: f64, lane: u32) -> ExitPoint {
    ExitPoint {
        id: id.to_string(),
        exit_type: "ramp".to_string(),
        angle: fx(angle_deg),
        position: "outer".to_string(),
        lane,
        exit_distance: fx(50.0),
        loop_exit_angle: None,
    }
}

fn donut_route() -> RouteConfig {
    RouteConfig {
        route: Route {
            name: "ring".to_string(),
            description: "a circular road".to_string(),
            geometry: RouteGeometry {
                geometry_type: "donut".to_string(),
                center_x: 0,
                center_y: 0,
                inner_radius: fx(100.0),
                outer_radius: fx(110.5),
                lane_width: fx(3.5),
                lane_count: 3,
                highway_width: None,
                highway_length: None,
                loop_radius: None,
                ramp_width: None,
                ramp_lanes: None,
            },
            entries: vec![entry("east", "ramp", 0.0, 1), entry("west", "ramp", 180.0, 2)],
            exits: vec![exit("north", 90.0, 3)],
            traffic_rules: TrafficRules {
                speed_limit: fx(30.0),
                min_speed: fx(5.0),
                following_distance: fx(2.0),
                lane_change_time: fx(3.0),
            },
            surface: RoadSurface { friction_coefficient: fx(0.8), banking_angle: 0 },
            signals: TrafficSignals {},
        },
    }
}

fn car_type(id: &str, weight: u32, length: f64, preferred: f64) -> CarType {
    CarType {
        id: id.to_string(),
        weight,
        length: fx(length),
        width: fx(1.8),
        max_acceleration: fx(3.0),
        max_deceleration: fx(8.0),
        preferred_speed: fx(preferred),
    }
}

fn behavior(name: &str, weight: u32, variance: f64, frequency: f64) -> (String, DriverBehavior) {
    (
        name.to_string(),
        DriverBehavior {
            name: name.to_string(),
            weight,
            following_distance_factor: fx(1.0),
            lane_change_frequency: fx(frequency),
            speed_variance: fx(variance),
            reaction_time: fx(1.2),
            exit_probability: fx(0.25),
        },
    )
}

fn cars_config(total_cars: u32) -> CarsConfig {
    CarsConfig {
        simulation: SimulationParams {
            total_cars,
            spawn_rate: fx(2.0),
            simulation_duration: fx(60.0),
        },
        car_types: vec![car_type("sedan", 60, 4.5, 25.0), car_type("truck", 40, 12.0, 20.0)],
        behavior: vec![
            behavior("aggressive", 30, 1.2, 4.0),
            behavior("cautious", 20, 0.8, 0.5),
            behavior("normal", 50, 1.0, 1.0),
        ],
        collision_avoidance: CollisionAvoidance {
            safety_margin: fx(2.0),
            emergency_brake_distance: fx(5.0),
            warning_distance: fx(15.0),
            lateral_safety_margin: fx(1.0),
        },
        traffic_flow: TrafficFlow {
            entry_intervals: vec![EntryInterval {
                entry_id: "east".to_string(),
                min_interval: fx(0.5),
                max_interval: fx(1.5),
            }],
        },
        random: RandomConfig { seed: Some(7) },
        performance: PerformanceConfig {
            enable_gpu_timing: false,
            enable_cpu_timing: true,
            timing_samples: 60,
        },
    }
}

#[test]
fn a_sound_configuration_passes() {
    assert_eq!(donut_route().validate(), Ok(()));
    assert_eq!(cars_config(10).validate(), Ok(()));
    let both = SimulationConfig { route: donut_route(), cars: cars_config(10) };
    assert_eq!(both.validate(), Ok(()));
}

#[test]
fn geometry_types_are_read_by_name() {
    assert_eq!(GeometryKind::parse("donut"), Some(GeometryKind::Donut));
    assert_eq!(GeometryKind::parse("cloverleaf"), Some(GeometryKind::Cloverleaf));
    assert_eq!(GeometryKind::parse("grid"), None);
    assert_eq!(GeometryKind::parse(""), None);
}

#[test]
fn an_unknown_geometry_is_rejected() {
    let mut route = donut_route();
    route.route.geometry.geometry_type = "spiral".to_string();
    assert_eq!(route.validate(), Err(ConfigError::UnsupportedGeometry));
}

#[test]
fn radii_must_be_ordered_and_not_negative() {
    let mut route = donut_route();
    route.route.geometry.inner_radius = route.route.geometry.outer_radius;
    assert_eq!(route.validate(), Err(ConfigError::InnerRadiusNotBelowOuter));
    let mut route = donut_route();
    route.route.geometry.inner_radius = -1;
    assert_eq!(route.validate(), Err(ConfigError::NegativeInnerRadius));
}

#[test]
fn lanes_must_exist_and_have_width() {
    let mut route = donut_route();
    route.route.geometry.lane_width = 0;
    assert_eq!(route.validate(), Err(ConfigError::NonPositiveLanes));
    let mut route = donut_route();
    route.route.geometry.lane_count = 0;
    assert_eq!(route.validate(), Err(ConfigError::NonPositiveLanes));
}

#[test]
fn entries_must_name_a_lane_and_an_angle_of_the_road() {
    let mut route = donut_route();
    route.route.entries[1].lane = 4;
    assert_eq!(route.validate(), Err(ConfigError::EntryLaneOutOfRange));
    let mut route = donut_route();
    route.route.entries[0].lane = 0;
    assert_eq!(route.validate(), Err(ConfigError::EntryLaneOutOfRange));
    let mut route = donut_route();
    route.route.entries[1].angle = fx(360.0);
    assert_eq!(route.validate(), Err(ConfigError::EntryAngleOutOfRange));
    let mut route = donut_route();
    route.route.entries[0].angle = -1;
    assert_eq!(route.validate(), Err(ConfigError::EntryAngleOutOfRange));
}

#[test]
fn the_first_defective_entry_decides_the_error() {
    let mut route = donut_route();
    route.route.entries[0].angle = fx(400.0);
    route.route.entries[1].lane = 9;
    assert_eq!(route.validate(), Err(ConfigError::EntryAngleOutOfRange));
    route.route.entries[0].lane = 9;
    assert_eq!(route.validate(), Err(ConfigError::EntryLaneOutOfRange));
}

#[test]
fn exits_must_name_a_lane_and_an_angle_of_the_road() {
    let mut route = donut_route();
    route.route.exits[0].lane = 4;
    assert_eq!(route.validate(), Err(ConfigError::ExitLaneOutOfRange));
    let mut route = donut_route();
    route.route.exits[0].angle = fx(360.0);
    assert_eq!(route.validate(), Err(ConfigError::ExitAngleOutOfRange));
}

#[test]
fn traffic_rules_must_be_positive_and_ordered() {
    let mut route = donut_route();
    route.route.traffic_rules.min_speed = 0;
    assert_eq!(route.validate(), Err(ConfigError::NonPositiveSpeedLimits));
    let mut route = donut_route();
    route.route.traffic_rules.min_speed = route.route.traffic_rules.speed_limit;
    assert_eq!(route.validate(), Err(ConfigError::MinSpeedNotBelowLimit));
    let mut route = donut_route();
    route.route.traffic_rules.lane_change_time = 0;
    assert_eq!(route.validate(), Err(ConfigError::NonPositiveFollowingOrLaneChange));
    let mut route = donut_route();
    route.route.traffic_rules.following_distance = -5;
    assert_eq!(route.validate(), Err(ConfigError::NonPositiveFollowingOrLaneChange));
}

#[test]
fn friction_must_lie_between_zero_and_one() {
    let mut route = donut_route();
    route.route.surface.friction_coefficient = 0;
    assert_eq!(route.validate(), Err(ConfigError::FrictionOutOfRange));
    let mut route = donut_route();
    route.route.surface.friction_coefficient = fx(1.0) + 1;
    assert_eq!(route.validate(), Err(ConfigError::FrictionOutOfRange));
    let mut route = donut_route();
    route.route.surface.friction_coefficient = fx(1.0);
    assert_eq!(route.validate(), Ok(()));
}

#[test]
fn simulation_parameters_must_be_positive() {
    let mut cars = cars_config(10);
    cars.simulation.total_cars = 0;
    assert_eq!(cars.validate(), Err(ConfigError::ZeroTotalCars));
    let mut cars = cars_config(10);
    cars.simulation.spawn_rate = 0;
    assert_eq!(cars.validate(), Err(ConfigError::NonPositiveSpawnRate));
    let mut cars = cars_config(10);
    cars.simulation.simulation_duration = 0;
    assert_eq!(cars.validate(), Err(ConfigError::NonPositiveDuration));
}

#[test]
fn car_types_must_exist_and_weigh_a_hundred() {
    let mut cars = cars_config(10);
    cars.car_types.clear();
    assert_eq!(cars.validate(), Err(ConfigError::NoCarTypes));
    let mut cars = cars_config(10);
    cars.car_types[0].weight = 61;
    assert_eq!(cars.validate(), Err(ConfigError::CarWeightsNotHundred));
    let mut cars = cars_config(10);
    cars.car_types[0].weight = u32::MAX;
    cars.car_types[1].weight = u32::MAX;
    assert_eq!(cars.validate(), Err(ConfigError::CarWeightsNotHundred));
}

#[test]
fn car_types_must_have_positive_dimensions_and_bounds() {
    let mut cars = cars_config(10);
    cars.car_types[1].width = 0;
    assert_eq!(cars.validate(), Err(ConfigError::NonPositiveCarDimensions));
    let mut cars = cars_config(10);
    cars.car_types[0].max_deceleration = 0;
    assert_eq!(cars.validate(), Err(ConfigError::NonPositiveCarAcceleration));
    let mut cars = cars_config(10);
    cars.car_types[1].preferred_speed = -3;
    assert_eq!(cars.validate(), Err(ConfigError::NonPositivePreferredSpeed));
}

#[test]
fn behaviors_must_exist_be_distinct_and_weigh_a_hundred() {
    let mut cars = cars_config(10);
    cars.behavior.clear();
    assert_eq!(cars.validate(), Err(ConfigError::NoBehaviors));
    let mut cars = cars_config(10);
    cars.behavior[2].0 = "aggressive".to_string();
    assert_eq!(cars.validate(), Err(ConfigError::DuplicateBehaviorName));
    let mut cars = cars_config(10);
    cars.behavior[1].1.weight = 21;
    assert_eq!(cars.validate(), Err(ConfigError::BehaviorWeightsNotHundred));
}

#[test]
fn behaviors_must_have_sound_parameters() {
    let mut cars = cars_config(10);
    cars.behavior[0].1.following_distance_factor = 0;
    assert_eq!(cars.validate(), Err(ConfigError::NonPositiveFollowingFactor));
    let mut cars = cars_config(10);
    cars.behavior[0].1.lane_change_frequency = -1;
    assert_eq!(cars.validate(), Err(ConfigError::NegativeLaneChangeFrequency));
    let mut cars = cars_config(10);
    cars.behavior[1].1.speed_variance = 0;
    assert_eq!(cars.validate(), Err(ConfigError::NonPositiveSpeedVariance));
    let mut cars = cars_config(10);
    cars.behavior[2].1.reaction_time = 0;
    assert_eq!(cars.validate(), Err(ConfigError::NonPositiveReactionTime));
    let mut cars = cars_config(10);
    cars.behavior[2].1.exit_probability = fx(1.0) + 1;
    assert_eq!(cars.validate(), Err(ConfigError::ExitProbabilityOutOfRange));
    let mut cars = cars_config(10);
    cars.behavior[2].1.lane_change_frequency = 0;
    assert_eq!(cars.validate(), Ok(()));
}

#[test]
fn collision_thresholds_must_be_ordered() {
    let mut cars = cars_config(10);
    cars.collision_avoidance.safety_margin = -1;
    assert_eq!(cars.validate(), Err(ConfigError::NegativeSafetyMargin));
    let mut cars = cars_config(10);
    cars.collision_avoidance.warning_distance = 0;
    assert_eq!(cars.validate(), Err(ConfigError::NonPositiveBrakeDistance));
    let mut cars = cars_config(10);
    cars.collision_avoidance.emergency_brake_distance = cars.collision_avoidance.warning_distance;
    assert_eq!(cars.validate(), Err(ConfigError::EmergencyNotBelowWarning));
}

#[test]
fn spawn_intervals_and_timing_samples() {
    let mut cars = cars_config(10);
    cars.traffic_flow.entry_intervals[0].min_interval = fx(2.0);
    assert_eq!(cars.validate(), Err(ConfigError::EntryIntervalOutOfOrder));
    let mut cars = cars_config(10);
    cars.performance.timing_samples = 0;
    assert_eq!(cars.validate(), Err(ConfigError::ZeroTimingSamples));
}

#[test]
fn the_route_is_checked_before_the_cars() {
    let mut route = donut_route();
    route.route.surface.friction_coefficient = 0;
    let mut cars = cars_config(10);
    cars.simulation.total_cars = 0;
    let both = SimulationConfig { route, cars };
    assert_eq!(both.validate(), Err(ConfigError::FrictionOutOfRange));
}

#[test]
fn errors_have_messages() {
    assert_eq!(ConfigError::ZeroTotalCars.message(), "Total cars must be greater than zero");
    assert_eq!(
        ConfigError::EmergencyNotBelowWarning.message(),
        "Emergency brake distance must be less than warning distance"
    );
}

#[test]
fn copies_agree_with_their_source() {
    let route = donut_route();
    let copy = route.clone();
    assert_eq!(copy.route.entries.len(), 2);
    assert_eq!(copy.route.entries[1].id, "west");
    assert_eq!(copy.route.geometry.inner_radius, route.route.geometry.inner_radius);
    assert_eq!(copy.route.exits[0].angle, fx(90.0));
    let cars = cars_config(12);
    let copy = cars.clone();
    assert_eq!(copy.simulation.total_cars, 12);
    assert_eq!(copy.car_types[1].id, "truck");
    assert_eq!(copy.behavior[0].0, "aggressive");
    assert_eq!(copy.traffic_flow.entry_intervals[0].max_interval, fx(1.5));
}
