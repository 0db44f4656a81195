use traffic_sim::simulation::kernel::get_lane_radius;
use traffic_sim::simulation::kernel::stretch;
use traffic_sim::simulation::marshal::create_route_params;
use traffic_sim::simulation::road::calculate_cloverleaf_entry_position;
use traffic_sim::simulation::road::calculate_donut_entry_position;
use traffic_sim::simulation::road::calculate_entry_position;
use traffic_sim::simulation::road::calculate_loop_ramp_entry_position;
use traffic_sim::simulation::road::ramp_corner;
use traffic_sim::simulation::spawn::adaptive_spawn_speed;
use traffic_sim::simulation::spawn::braked_speed;
use traffic_sim::simulation::spawn::braked_velocity;
use traffic_sim::simulation::spawn::can_spawn_at_entry_permissive;
use traffic_sim::simulation::spawn::can_spawn_at_entry_static;
use traffic_sim::simulation::spawn::force_car;
use traffic_sim::simulation::spawn::force_spawn_gap;
use traffic_sim::simulation::spawn::manual_spawn_speed;
use traffic_sim::simulation::spawn::pick_car_type;
use traffic_sim::simulation::spawn::scaled_to;
use traffic_sim::simulation::spawn::should_car_exit;
use traffic_sim::simulation::spawn::slowed_target;
use traffic_sim::simulation::BehaviorState;
use traffic_sim::simulation::Car;
use traffic_sim::simulation::CarId;
use traffic_sim::simulation::Point;
use traffic_sim::simulation::RouteParams;
use traffic_sim::simulation::SimulationState;
use traffic_sim::simulation::TrafficManager;
use traffic_sim::simulation::Vec2;
use traffic_sim::config::GeometryKind;
use traffic_sim::fixed::cos_fx;
use traffic_sim::fixed::sin_fx;
use traffic_sim::fixed::HALF_PI;
use traffic_sim::fixed::PI;
use traffic_sim::config::CarType;
use traffic_sim::config::CarsConfig;
use traffic_sim::config::CollisionAvoidance;
use traffic_sim::config::DriverBehavior;
use traffic_sim::config::EntryInterval;
use traffic_sim::config::EntryPoint;
use traffic_sim::config::ExitPoint;
use traffic_sim::config::PerformanceConfig;
use traffic_sim::config::RandomConfig;
use traffic_sim::config::RoadSurface;
use traffic_sim::config::Route;
use traffic_sim::config::RouteConfig;
use traffic_sim::config::RouteGeometry;
use traffic_sim::config::SimulationParams;
use traffic_sim::config::TrafficFlow;
use traffic_sim::config::TrafficRules;
use traffic_sim::config::TrafficSignals;

fn fx(value: f64) -> i64 {
    (value * 1e6).round() as i64
}

fn entry(id: &str, kind: &str, angle_deg: f64, lane: u32) -> EntryPoint {
    EntryPoint {
        id: id.to_string(),
        entry_type: kind.to_string(),
        angle: fx(angle_deg),
        position: "outer".to_string(),
        lane,
        merge_distance: fx(50.0),
        loop_entry_angle: None,
    }
}

fn exit(id: &str, angle_deg: f64, lane: u32) -> ExitPoint {
    ExitPoint {
        id: id.to_string(),
        exit_type: "ramp".to_string(),
        angle: fx(angle_deg),
        position: "outer".to_string(),
        lane,
        exit_distance: fx(50.0),
        loop_exit_angle: None,
    }
}

fn donut_route() -> RouteConfig {
    RouteConfig {
        route: Route {
            name: "ring".to_string(),
            description: "a circular road".to_string(),
            geometry: RouteGeometry {
                geometry_type: "donut".to_string(),
                center_x: 0,
                center_y: 0,
                inner_radius: fx(100.0),
                outer_radius: fx(110.5),
                lane_width: fx(3.5),
                lane_count: 3,
                highway_width: None,
                highway_length: None,
                loop_radius: None,
                ramp_width: None,
                ramp_lanes: None,
            },
            entries: vec![entry("east", "ramp", 0.0, 1), entry("west", "ramp", 180.0, 2)],
            exits: vec![exit("north", 90.0, 3)],
            traffic_rules: TrafficRules {
                speed_limit: fx(30.0),
                min_speed: fx(5.0),
                following_distance: fx(2.0),
                lane_change_time: fx(3.0),
            },
            surface: RoadSurface { friction_coefficient: fx(0.8), banking_angle: 0 },
            signals: TrafficSignals {},
        },
    }
}

fn car_type(id: &str, weight: u32, length: f64, preferred: f64) -> CarType {
    CarType {
        id: id.to_string(),
        weight,
        length: fx(length),
        width: fx(1.8),
        max_acceleration: fx(3.0),
        max_deceleration: fx(8.0),
        preferred_speed: fx(preferred),
    }
}

fn behavior(name: &str, weight: u32, variance: f64, frequency: f64) -> (String, DriverBehavior) {
    (
        name.to_string(),
        DriverBehavior {
            name: name.to_string(),
            weight,
            following_distance_factor: fx(1.0),
            lane_change_frequency: fx(frequency),
            speed_variance: fx(variance),
            reaction_time: fx(1.2),
            exit_probability: fx(0.25),
        },
    )
}

fn cars_config(total_cars: u32) -> CarsConfig {
    CarsConfig {
        simulation: SimulationParams {
            total_cars,
            spawn_rate: fx(2.0),
            simulation_duration: fx(60.0),
        },
        car_types: vec![car_type("sedan", 60, 4.5, 25.0), car_type("truck", 40, 12.0, 20.0)],
        behavior: vec![
            behavior("aggressive", 30, 1.2, 4.0),
            behavior("cautious", 20, 0.8, 0.5),
            behavior("normal", 50, 1.0, 1.0),
        ],
        collision_avoidance: CollisionAvoidance {
            safety_margin: fx(2.0),
            emergency_brake_distance: fx(5.0),
            warning_distance: fx(15.0),
            lateral_safety_margin: fx(1.0),
        },
        traffic_flow: TrafficFlow {
            entry_intervals: vec![EntryInterval {
                entry_id: "east".to_string(),
                min_interval: fx(0.5),
                max_interval: fx(1.5),
            }],
        },
        random: RandomConfig { seed: Some(7) },
        performance: PerformanceConfig {
            enable_gpu_timing: false,
            enable_cpu_timing: true,
            timing_samples: 60,
        },
    }
}

const DT: i64 = 16_667;

fn params() -> RouteParams {
    create_route_params(&donut_route(), &cars_config(10).collision_avoidance).unwrap()
}

fn car_at(id: usize, lane: u32, angle: f64, speed: f64) -> Car {
    let p = params();
    let a = fx(angle);
    let place = stretch(cos_fx(a), sin_fx(a), get_lane_radius(lane, &p));
    let along = stretch(-sin_fx(a), cos_fx(a), fx(speed));
    Car {
        id: CarId(id),
        position: Point { x: place.0, y: place.1 },
        velocity: Vec2 { x: along.0, y: along.1 },
        acceleration: Vec2 { x: 0, y: 0 },
        heading: 0,
        lane_angle: a,
        length: fx(4.5),
        width: fx(1.8),
        max_acceleration: fx(3.0),
        max_deceleration: fx(8.0),
        preferred_speed: fx(25.0),
        current_lane: lane,
        target_lane: None,
        lane_change_progress: 0,
        behavior: BehaviorState {
            following_distance_factor: fx(1.0),
            lane_change_frequency: 0,
            speed_variance: fx(1.0),
            reaction_time: fx(1.2),
            exit_probability: 0,
            last_lane_change_time: 0,
            target_speed: fx(25.0),
        },
        behavior_type: "normal".to_string(),
        car_type: "sedan".to_string(),
        speed_history: [fx(speed), fx(speed), fx(speed)],
        marked_for_exit: false,
        spawn_time: 0,
        exit_time: None,
    }
}

/// A car at a place given in metres, moving along the y axis.
fn car_near(id: usize, x: f64, y: f64, speed: f64) -> Car {
    let mut c = car_at(id, 2, 3.0, 0.0);
    c.position = Point { x: fx(x), y: fx(y) };
    c.velocity = Vec2 { x: 0, y: fx(speed) };
    c
}

/// One entry at angle zero in lane one, and no exit.
fn one_entry_route() -> RouteConfig {
    let mut route = donut_route();
    route.route.entries.truncate(1);
    route.route.exits.clear();
    route
}

fn ids_are_unique(state: &SimulationState) -> bool {
    let mut i = 0;
    while i < state.cars.len() {
        let mut j = i + 1;
        while j < state.cars.len() {
            if state.cars[i].id == state.cars[j].id {
                return false;
            }
            j += 1;
        }
        i += 1;
    }
    true
}

#[test]
fn clearance_is_the_distance_to_the_nearest_car() {
    let entry = Point { x: fx(101.75), y: 0 };
    let none: Vec<Car> = Vec::new();
    assert!(can_spawn_at_entry_static(&none, entry));
    assert!(can_spawn_at_entry_permissive(&none, entry));
    let near = vec![car_near(0, 101.75, 4.9, 10.0)];
    assert!(!can_spawn_at_entry_static(&near, entry));
    assert!(can_spawn_at_entry_permissive(&near, entry));
    let at_the_edge = vec![car_near(0, 101.75, 5.0, 10.0)];
    assert!(can_spawn_at_entry_static(&at_the_edge, entry));
    let closer = vec![car_near(0, 101.75, 30.0, 10.0), car_near(1, 101.75, -1.9, 10.0)];
    assert!(!can_spawn_at_entry_static(&closer, entry));
    assert!(!can_spawn_at_entry_permissive(&closer, entry));
    let two = vec![car_near(0, 101.75, 2.0, 10.0)];
    assert!(can_spawn_at_entry_permissive(&two, entry));
}

#[test]
fn a_forced_gap_slows_near_cars_more() {
    assert_eq!(slowed_target(fx(20.0), 0), fx(6.0));
    assert_eq!(slowed_target(fx(20.0), fx(7.5)), fx(13.0));
    assert_eq!(slowed_target(fx(20.0), fx(15.0)), fx(20.0));
    assert_eq!(slowed_target(fx(20.0), fx(30.0)), fx(20.0));
    assert_eq!(slowed_target(fx(5.0), 0), fx(2.0));
    assert_eq!(slowed_target(fx(2.5), fx(7.5)), fx(2.0));
}

#[test]
fn a_forced_gap_never_raises_a_target_speed() {
    assert_eq!(slowed_target(fx(1.0), fx(15.0)), fx(1.0));
    assert_eq!(slowed_target(fx(1.5), 0), fx(1.5));
    assert_eq!(slowed_target(fx(2.0), fx(3.0)), fx(2.0));
    assert_eq!(slowed_target(0, fx(3.0)), 0);
    assert_eq!(slowed_target(-fx(4.0), fx(3.0)), -fx(4.0));
    let entry = Point { x: fx(101.75), y: 0 };
    let mut cars = vec![car_near(0, 101.75, 4.0, 0.05), car_near(1, 101.75, -8.0, 0.5)];
    cars[0].behavior.target_speed = fx(1.2);
    cars[1].behavior.target_speed = fx(2.0);
    assert!(force_spawn_gap(&mut cars, entry, fx(0.1)));
    assert_eq!(cars[0].behavior.target_speed, fx(1.2));
    assert_eq!(cars[1].behavior.target_speed, fx(2.0));
    assert_eq!(cars[0].velocity, Vec2 { x: 0, y: fx(0.05) });
    assert_eq!(cars[1].velocity, Vec2 { x: 0, y: fx(0.5) });
}

#[test]
fn a_forced_gap_brakes_the_nearest_cars_at_once() {
    assert_eq!(
        braked_velocity(Vec2 { x: 0, y: fx(10.0) }, fx(8.0), DT),
        Vec2 { x: 0, y: fx(10.0) - 93_335 }
    );
    assert_eq!(
        braked_velocity(Vec2 { x: fx(3.0), y: fx(4.0) }, fx(8.0), fx(0.5)),
        Vec2 { x: fx(1.32), y: fx(1.76) }
    );
    assert_eq!(
        braked_velocity(Vec2 { x: 0, y: -fx(0.05) }, fx(8.0), DT),
        Vec2 { x: 0, y: -fx(0.05) }
    );
    assert_eq!(
        braked_velocity(Vec2 { x: 0, y: -fx(1.05) }, fx(8.0), DT),
        Vec2 { x: 0, y: -fx(1.0) }
    );
    assert_eq!(
        braked_velocity(Vec2 { x: fx(0.6), y: fx(0.8) }, fx(8.0), fx(0.5)),
        Vec2 { x: fx(0.6), y: fx(0.8) }
    );
    assert_eq!(braked_speed(fx(10.0), fx(8.0), DT), fx(10.0) - 93_335);
    assert_eq!(braked_speed(fx(1.05), fx(8.0), DT), fx(1.0));
    assert_eq!(braked_speed(fx(0.05), fx(8.0), DT), fx(0.05));
    assert_eq!(braked_speed(fx(3.0), -fx(8.0), DT), fx(3.0));
    assert_eq!(braked_velocity(Vec2 { x: 0, y: 0 }, fx(8.0), DT), Vec2 { x: 0, y: 0 });
    assert_eq!(scaled_to(Vec2 { x: fx(6.0), y: -fx(8.0) }, fx(5.0)), Vec2 { x: fx(3.0), y: -fx(4.0) });
}

#[test]
fn forcing_a_gap_changes_only_cars_in_the_zone() {
    let entry = Point { x: fx(101.75), y: 0 };
    let mut far = car_near(0, 101.75, 15.0, 10.0);
    let before = far.clone();
    force_car(&mut far, entry, DT);
    assert_eq!(far.behavior.target_speed, before.behavior.target_speed);
    assert_eq!(far.velocity, before.velocity);
    let mut mid = car_near(1, 101.75, 12.0, 10.0);
    force_car(&mut mid, entry, DT);
    assert_eq!(mid.behavior.target_speed, fx(21.5));
    assert_eq!(mid.velocity, Vec2 { x: 0, y: fx(10.0) });
    let mut near = car_near(2, 101.75, -6.0, 10.0);
    force_car(&mut near, entry, DT);
    assert_eq!(near.behavior.target_speed, fx(14.5));
    assert_eq!(near.velocity, Vec2 { x: 0, y: fx(10.0) - 93_335 });
    assert_eq!(near.position, Point { x: fx(101.75), y: -fx(6.0) });
    assert_eq!(near.id, CarId(2));
}

#[test]
fn a_forced_gap_is_refused_below_the_floor_but_still_slows_traffic() {
    let entry = Point { x: fx(101.75), y: 0 };
    let mut cars = vec![car_near(0, 101.75, 2.9, 10.0), car_near(1, 101.75, 12.0, 10.0)];
    assert!(!force_spawn_gap(&mut cars, entry, DT));
    assert!(cars[0].behavior.target_speed < fx(25.0));
    assert_eq!(cars[1].behavior.target_speed, fx(21.5));
    let mut open = vec![car_near(0, 101.75, 3.0, 10.0), car_near(1, 101.75, 40.0, 10.0)];
    assert!(force_spawn_gap(&mut open, entry, DT));
    assert_eq!(open[0].behavior.target_speed, fx(11.0));
    assert_eq!(open[1].behavior.target_speed, fx(25.0));
    let mut empty: Vec<Car> = Vec::new();
    assert!(force_spawn_gap(&mut empty, entry, DT));
}

#[test]
fn a_new_car_matches_the_speed_of_the_traffic_near_it() {
    let entry = Point { x: fx(101.75), y: 0 };
    let none: Vec<Car> = Vec::new();
    assert_eq!(adaptive_spawn_speed(&none, entry), fx(15.6));
    assert_eq!(manual_spawn_speed(&none, entry), fx(15.6));
    let far = vec![car_near(0, 101.75, 30.0, 20.0)];
    assert_eq!(adaptive_spawn_speed(&far, entry), fx(15.6));
    let near = vec![
        car_near(0, 101.75, 10.0, 20.0),
        car_near(1, 101.75, -20.0, 30.0),
        car_near(2, 101.75, 29.0, 13.0),
        car_near(3, 101.75, 26.0, 4.0),
        car_near(4, 101.75, 90.0, 1.0),
    ];
    assert_eq!(adaptive_spawn_speed(&near, entry), fx(16.75));
    assert_eq!(manual_spawn_speed(&near, entry), fx(20.0));
    let slow = vec![car_near(0, 101.75, 10.0, 3.0)];
    assert_eq!(adaptive_spawn_speed(&slow, entry), fx(10.0));
    assert_eq!(manual_spawn_speed(&slow, entry), fx(5.0));
    let fast = vec![car_near(0, 101.75, 10.0, 50.0), car_near(1, 101.75, 11.0, 40.0)];
    assert_eq!(adaptive_spawn_speed(&fast, entry), fx(35.0));
    assert_eq!(manual_spawn_speed(&fast, entry), fx(30.0));
}

#[test]
fn car_types_are_picked_by_weight() {
    let types = cars_config(10).car_types;
    assert_eq!(pick_car_type(&types, 0), 0);
    assert_eq!(pick_car_type(&types, 59), 0);
    assert_eq!(pick_car_type(&types, 60), 1);
    assert_eq!(pick_car_type(&types, 99), 1);
    assert_eq!(pick_car_type(&types, 100), 2);
}

#[test]
fn entries_of_the_circular_road_lie_on_the_lane() {
    let p = params();
    let east = calculate_donut_entry_position(0, 1, &p);
    assert_eq!(east.position, Point { x: fx(101.75), y: 0 });
    assert_eq!(east.direction, Vec2 { x: 0, y: fx(1.0) });
    assert_eq!(east.heading, HALF_PI);
    assert_eq!(east.lane_angle, 0);
    let west = calculate_donut_entry_position(fx(180.0), 2, &p);
    assert_eq!(west.position, Point { x: -fx(105.25), y: 0 });
    assert_eq!(west.direction, Vec2 { x: 0, y: -fx(1.0) });
    assert_eq!(west.heading, -HALF_PI);
    assert_eq!(west.lane_angle, PI);
    let entry = donut_route().route.entries[1].clone();
    assert_eq!(calculate_entry_position(&entry, &p), west);
}

#[test]
fn entries_of_the_interchange_lie_at_its_edges() {
    let mut p = params();
    p.kind = GeometryKind::Cloverleaf;
    let south = calculate_cloverleaf_entry_position(2, &p);
    assert_eq!(south.position, Point { x: -fx(25.0), y: fx(250.0) });
    assert_eq!(south.direction, Vec2 { x: 0, y: -fx(1.0) });
    assert_eq!(south.heading, -HALF_PI);
    let north = calculate_cloverleaf_entry_position(6, &p);
    assert_eq!(north.position, Point { x: fx(28.5), y: -fx(250.0) });
    let west = calculate_cloverleaf_entry_position(7, &p);
    assert_eq!(west.position, Point { x: fx(250.0), y: fx(21.5) });
    assert_eq!(west.heading, PI);
    let east = calculate_cloverleaf_entry_position(11, &p);
    assert_eq!(east.position, Point { x: -fx(250.0), y: -fx(25.0) });
    assert_eq!(east.direction, Vec2 { x: fx(1.0), y: 0 });
    let none = calculate_cloverleaf_entry_position(13, &p);
    assert_eq!(none.position, Point { x: 0, y: 0 });
    assert_eq!(ramp_corner(&"ne_loop_entry".to_string(), 11), 0);
    assert_eq!(ramp_corner(&"se_loop_entry".to_string(), 2), 1);
    assert_eq!(ramp_corner(&"sw_loop_entry".to_string(), 2), 2);
    assert_eq!(ramp_corner(&"nw_loop_entry".to_string(), 2), 3);
    assert_eq!(ramp_corner(&"ramp".to_string(), 2), 0);
    assert_eq!(ramp_corner(&"ramp".to_string(), 5), 2);
    assert_eq!(ramp_corner(&"ramp".to_string(), 8), 3);
    assert_eq!(ramp_corner(&"ramp".to_string(), 11), 1);
    assert_eq!(ramp_corner(&"ramp".to_string(), 13), 4);
    let ramp = calculate_loop_ramp_entry_position(1, &p);
    assert_eq!(ramp.position, Point { x: fx(100.0), y: -fx(100.0) });
    assert_eq!(ramp.direction, Vec2 { x: -707_107, y: 707_107 });
    let mut loop_entry = entry("nw_loop_entry", "loop_ramp", 0.0, 2);
    assert_eq!(calculate_entry_position(&loop_entry, &p).position, Point { x: -fx(100.0), y: fx(100.0) });
    loop_entry.entry_type = "highway".to_string();
    assert_eq!(calculate_entry_position(&loop_entry, &p).position, Point { x: -fx(25.0), y: fx(250.0) });
}

#[test]
fn cars_leave_at_an_exit_of_their_lane() {
    let p = params();
    let exits = donut_route().route.exits;
    assert!(should_car_exit(&car_at(0, 3, 1.5708, 10.0), &exits, &p));
    assert!(should_car_exit(&car_at(0, 3, 1.50, 10.0), &exits, &p));
    assert!(!should_car_exit(&car_at(0, 3, 1.45, 10.0), &exits, &p));
    assert!(!should_car_exit(&car_at(0, 2, 1.5708, 10.0), &exits, &p));
    let mut flagged = car_at(0, 3, 0.5, 10.0);
    flagged.marked_for_exit = true;
    assert!(!should_car_exit(&flagged, &exits, &p));
}

#[test]
fn a_manager_accepts_a_state_with_fresh_unique_ids() {
    let manager = TrafficManager::new(cars_config(10), donut_route(), Some(1));
    let mut state = SimulationState::new(DT);
    assert!(manager.check_accepts(&state));
    state.add_car(car_at(0, 1, 1.0, 10.0));
    assert!(!manager.check_accepts(&state));
    let mut broken = SimulationState::new(DT);
    broken.active_cars = 1;
    assert!(!manager.check_accepts(&broken));
}

#[test]
fn the_population_stays_within_the_cap_and_ids_stay_unique() {
    let mut manager = TrafficManager::new(cars_config(5), one_entry_route(), Some(11));
    let mut state = SimulationState::new(fx(0.25));
    let mut last_spawned = 0;
    let mut ticks = 0;
    while ticks < 400 {
        let before = state.cars.len();
        manager.update(&mut state);
        assert_eq!(state.active_cars as usize, state.cars.len());
        assert!(state.cars.len() <= 5);
        assert!(state.total_spawned >= last_spawned);
        assert!(state.total_spawned - last_spawned <= 1);
        assert!(state.cars.len() <= before + 1);
        assert!(ids_are_unique(&state));
        assert!(manager.check_accepts(&state));
        last_spawned = state.total_spawned;
        let mut i = 0;
        while i < state.cars.len() {
            let mut moved = state.cars[i].position;
            moved.y += fx(3.0);
            state.cars[i].position = moved;
            i += 1;
        }
        ticks += 1;
    }
    assert_eq!(state.cars.len(), 5);
    assert_eq!(state.total_spawned, 5);
    let mut i = 0;
    while i < 5 {
        assert_eq!(state.cars[i].id, CarId(i));
        assert_eq!(state.cars[i].current_lane, 1);
        assert_eq!(state.cars[i].target_lane, None);
        i += 1;
    }
}

#[test]
fn a_spawned_car_starts_at_its_entry() {
    let mut manager = TrafficManager::new(cars_config(5), one_entry_route(), Some(3));
    let mut state = SimulationState::new(fx(2.0));
    manager.update(&mut state);
    assert_eq!(state.cars.len(), 1);
    assert_eq!(state.total_spawned, 1);
    let c = &state.cars[0];
    assert_eq!(c.id, CarId(0));
    assert_eq!(c.position, Point { x: fx(101.75), y: 0 });
    assert_eq!(c.velocity, Vec2 { x: 0, y: fx(15.6) });
    assert_eq!(c.speed_history, [fx(15.6), fx(15.6), fx(15.6)]);
    assert_eq!(c.heading, HALF_PI);
    assert_eq!(c.lane_angle, 0);
    assert_eq!(c.current_lane, 1);
    assert_eq!(c.lane_change_progress, 0);
    assert_eq!(c.spawn_time, 0);
    assert_eq!(c.exit_time, None);
    assert!(!c.marked_for_exit);
    assert_eq!(c.behavior.target_speed, fx(25.0));
    assert!(c.car_type == "sedan" || c.car_type == "truck");
    if c.car_type == "sedan" {
        assert_eq!(c.length, fx(4.5));
        assert_eq!(c.preferred_speed, fx(25.0));
    } else {
        assert_eq!(c.length, fx(12.0));
        assert_eq!(c.preferred_speed, fx(20.0));
    }
    assert!(c.behavior_type == "aggressive" || c.behavior_type == "cautious" || c.behavior_type == "normal");
}

#[test]
fn the_same_seed_gives_the_same_run() {
    let mut first = TrafficManager::new(cars_config(8), donut_route(), Some(4242));
    let mut second = TrafficManager::new(cars_config(8), donut_route(), Some(4242));
    let mut a = SimulationState::new(fx(0.1));
    let mut b = SimulationState::new(fx(0.1));
    let mut ticks = 0;
    while ticks < 300 {
        first.update(&mut a);
        second.update(&mut b);
        assert_eq!(a.total_spawned, b.total_spawned);
        assert_eq!(a.cars.len(), b.cars.len());
        let mut i = 0;
        while i < a.cars.len() {
            assert_eq!(a.cars[i].id, b.cars[i].id);
            assert_eq!(a.cars[i].car_type, b.cars[i].car_type);
            assert_eq!(a.cars[i].behavior_type, b.cars[i].behavior_type);
            assert_eq!(a.cars[i].behavior, b.cars[i].behavior);
            assert_eq!(a.cars[i].target_lane, b.cars[i].target_lane);
            assert_eq!(a.cars[i].velocity, b.cars[i].velocity);
            assert_eq!(a.cars[i].marked_for_exit, b.cars[i].marked_for_exit);
            let mut moved = a.cars[i].position;
            moved.y += fx(2.0);
            a.cars[i].position = moved;
            b.cars[i].position = moved;
            i += 1;
        }
        a.time += fx(0.1);
        b.time += fx(0.1);
        ticks += 1;
    }
    assert!(a.total_spawned > 0);
}

#[test]
fn a_blocked_entry_defers_the_spawn_and_slows_the_traffic() {
    let mut manager = TrafficManager::new(cars_config(5), one_entry_route(), Some(5));
    let mut state = SimulationState::new(fx(2.0));
    manager.update(&mut state);
    assert_eq!(state.cars.len(), 1);
    state.cars[0].velocity = Vec2 { x: 0, y: fx(12.0) };
    let mut ticks = 0;
    while ticks < 10 {
        manager.update(&mut state);
        assert_eq!(state.cars.len(), 1, "a car was spawned onto the blocked entry");
        assert_eq!(state.total_spawned, 1);
        let blocker = &state.cars[0];
        assert!(blocker.behavior.target_speed <= fx(9.0), "the blocker aims for {}", blocker.behavior.target_speed);
        assert!(blocker.behavior.target_speed >= fx(2.0));
        ticks += 1;
    }
    assert!(state.cars[0].speed() < fx(12.0));
    state.cars[0].position = Point { x: fx(101.75), y: fx(4.0) };
    manager.update(&mut state);
    assert_eq!(state.cars.len(), 2, "the forced gap did not open the entry");
    assert_eq!(state.cars[1].id, CarId(1));
    assert!(state.cars[0].behavior.target_speed < fx(25.0));
    let speed = state.cars[1].speed();
    assert!(speed >= fx(10.0) && speed <= fx(35.0));
}

#[test]
fn a_spawn_that_was_deferred_happens_once_the_entry_is_clear() {
    let mut manager = TrafficManager::new(cars_config(5), one_entry_route(), Some(5));
    let mut state = SimulationState::new(fx(2.0));
    manager.update(&mut state);
    let mut ticks = 0;
    while ticks < 5 {
        manager.update(&mut state);
        ticks += 1;
    }
    assert_eq!(state.cars.len(), 1);
    state.cars[0].position = Point { x: -fx(101.75), y: 0 };
    state.cars[0].lane_angle = PI;
    manager.update(&mut state);
    assert_eq!(state.cars.len(), 2);
    assert_eq!(state.total_spawned, 2);
    assert_eq!(state.cars[1].velocity, Vec2 { x: 0, y: fx(15.6) });
}

#[test]
fn a_manual_spawn_creates_a_car_of_the_named_profile() {
    let mut manager = TrafficManager::new(cars_config(2), donut_route(), Some(8));
    let mut state = SimulationState::new(DT);
    manager.spawn_manual_car("cautious", &mut state);
    assert_eq!(state.cars.len(), 1);
    assert_eq!(state.total_spawned, 1);
    assert_eq!(state.active_cars, 1);
    assert_eq!(state.cars[0].behavior_type, "cautious");
    assert_eq!(state.cars[0].behavior.speed_variance, fx(0.8));
    assert_eq!(state.cars[0].position, Point { x: fx(101.75), y: 0 });
    assert_eq!(state.cars[0].velocity, Vec2 { x: 0, y: fx(15.6) });
    assert_eq!(state.cars[0].current_lane, 1);
    manager.spawn_manual_car("cautious", &mut state);
    assert_eq!(state.cars.len(), 1, "a car was spawned onto a car");
    state.cars[0].position = Point { x: fx(101.75), y: fx(2.0) };
    state.cars[0].velocity = Vec2 { x: 0, y: fx(3.0) };
    manager.spawn_manual_car("erratic", &mut state);
    assert_eq!(state.cars.len(), 2);
    assert_eq!(state.cars[1].id, CarId(1));
    assert_eq!(state.cars[1].behavior_type, "erratic");
    assert_eq!(state.cars[1].behavior.speed_variance, fx(1.0));
    assert_eq!(state.cars[1].velocity, Vec2 { x: 0, y: fx(5.0) });
    state.cars[0].position = Point { x: 0, y: fx(50.0) };
    state.cars[1].position = Point { x: 0, y: fx(60.0) };
    manager.spawn_manual_car("normal", &mut state);
    assert_eq!(state.cars.len(), 2, "the cap of two cars was passed");
    assert_eq!(state.total_spawned, 2);
}

#[test]
fn a_manual_spawn_needs_an_entry() {
    let mut route = donut_route();
    route.route.entries.clear();
    let mut manager = TrafficManager::new(cars_config(2), route, Some(8));
    let mut state = SimulationState::new(DT);
    manager.spawn_manual_car("normal", &mut state);
    assert_eq!(state.cars.len(), 0);
    assert_eq!(state.total_spawned, 0);
}

#[test]
fn the_manager_removes_cars_that_reach_an_exit() {
    let mut route = donut_route();
    route.route.entries = vec![entry("north", "ramp", 80.0, 3)];
    let mut cars = cars_config(3);
    cars.traffic_flow.entry_intervals.clear();
    cars.simulation.spawn_rate = fx(0.001);
    let mut manager = TrafficManager::new(cars, route, Some(21));
    let mut state = SimulationState::new(DT);
    manager.spawn_manual_car("normal", &mut state);
    manager.update(&mut state);
    assert_eq!(state.cars.len(), 1);
    assert_eq!(state.active_cars, 1);
    state.cars[0].lane_angle = fx(1.49);
    manager.update(&mut state);
    assert_eq!(state.cars.len(), 0);
    assert_eq!(state.active_cars, 0);
    assert_eq!(state.total_spawned, 1);
    manager.update(&mut state);
    assert_eq!(state.active_cars, 0);
    assert_eq!(state.total_spawned, 1);
}

#[test]
fn cars_that_overstay_are_evicted_now_and_then() {
    let mut route = donut_route();
    route.route.entries = vec![entry("south", "ramp", 270.0, 1)];
    route.route.exits.clear();
    let mut cars = cars_config(200);
    cars.traffic_flow.entry_intervals.clear();
    cars.simulation.spawn_rate = fx(0.000001);
    let mut manager = TrafficManager::new(cars, route, Some(77));
    let mut state = SimulationState::new(DT);
    let mut k = 0;
    while k < 200 {
        manager.spawn_manual_car("normal", &mut state);
        let last = state.cars.len() - 1;
        state.cars[last].position = Point { x: fx(1000.0 + 10.0 * k as f64), y: 0 };
        k += 1;
    }
    assert_eq!(state.cars.len(), 200);
    state.time = fx(600.0);
    let mut ticks = 0;
    while ticks < 20 {
        manager.update(&mut state);
        ticks += 1;
    }
    assert_eq!(state.cars.len(), 200, "cars were evicted before the eviction age");
    state.time = fx(900.0);
    let mut k = 0;
    while k < 200 {
        state.cars[k].spawn_time = fx(300.0);
        k += 1;
    }
    while ticks < 40 {
        manager.update(&mut state);
        ticks += 1;
    }
    assert_eq!(state.cars.len(), 200, "cars were evicted that had not overstayed");
    k = 0;
    while k < 200 {
        state.cars[k].spawn_time = 0;
        k += 1;
    }
    state.time = fx(600.1);
    while ticks < 140 {
        let before = state.cars.len();
        manager.update(&mut state);
        assert!(state.cars.len() <= before);
        assert_eq!(state.active_cars as usize, state.cars.len());
        assert!(ids_are_unique(&state));
        ticks += 1;
    }
    assert!(state.cars.len() < 200, "no car was evicted in a hundred ticks");
    assert!(state.cars.len() > 150, "{} cars are left", state.cars.len());
    assert_eq!(state.total_spawned, 200);
}

#[test]
fn timers_start_within_the_interval_of_their_entry() {
    let manager = TrafficManager::new(cars_config(5), donut_route(), Some(31));
    let east = manager.timer(0).unwrap();
    assert!(east >= fx(0.5) && east <= fx(1.5), "the timer of the east entry starts at {}", east);
    assert_eq!(manager.timer(1), Some(fx(0.5)));
    assert_eq!(manager.timer(2), None);
    assert_eq!(manager.next_car_id(), 0);
}

#[test]
fn an_entry_counts_its_timer_down_and_spawns_when_it_runs_out() {
    let mut manager = TrafficManager::new(cars_config(5), donut_route(), Some(31));
    let mut state = SimulationState::new(fx(0.2));
    let start = manager.timer(1).unwrap();
    assert_eq!(start, fx(0.5));
    assert!(!manager.tick_entry(1, &mut state));
    assert_eq!(manager.timer(1), Some(fx(0.3)));
    assert!(!manager.tick_entry(1, &mut state));
    assert_eq!(manager.timer(1), Some(fx(0.1)));
    assert_eq!(state.cars.len(), 0);
    let other = manager.timer(0);
    assert!(manager.tick_entry(1, &mut state));
    assert_eq!(manager.timer(1), Some(fx(0.5)));
    assert_eq!(manager.timer(0), other);
    assert_eq!(state.cars.len(), 1);
    assert_eq!(state.total_spawned, 1);
    assert_eq!(state.cars[0].id, CarId(0));
    assert_eq!(state.cars[0].current_lane, 2);
    assert_eq!(state.cars[0].position, Point { x: -fx(105.25), y: 0 });
    assert_eq!(manager.next_car_id(), 1);
}

#[test]
fn an_entry_that_is_due_waits_for_room_and_clearance() {
    let mut manager = TrafficManager::new(cars_config(1), donut_route(), Some(31));
    let mut state = SimulationState::new(fx(1.0));
    assert!(manager.tick_entry(1, &mut state));
    state.cars[0].position = Point { x: 0, y: fx(500.0) };
    assert!(!manager.tick_entry(1, &mut state));
    assert_eq!(manager.timer(1), Some(-fx(0.5)));
    assert!(!manager.tick_entry(1, &mut state));
    assert_eq!(manager.timer(1), Some(-fx(1.5)));
    assert_eq!(state.cars.len(), 1);
    let mut roomy = TrafficManager::new(cars_config(9), donut_route(), Some(31));
    let mut busy = SimulationState::new(fx(1.0));
    assert!(roomy.tick_entry(1, &mut busy));
    busy.cars[0].velocity = Vec2 { x: 0, y: -fx(20.0) };
    busy.cars[0].behavior.target_speed = fx(20.0);
    assert!(!roomy.tick_entry(1, &mut busy), "a car was spawned onto a car");
    assert_eq!(roomy.timer(1), Some(-fx(0.5)));
    assert_eq!(busy.cars.len(), 1);
    assert_eq!(busy.cars[0].behavior.target_speed, fx(6.0));
    assert_eq!(busy.cars[0].velocity, Vec2 { x: 0, y: -fx(14.4) });
    busy.cars[0].position = Point { x: -fx(105.25), y: -fx(4.0) };
    assert!(roomy.tick_entry(1, &mut busy), "the forced gap did not open the entry");
    assert_eq!(roomy.timer(1), Some(fx(0.5)));
    assert_eq!(busy.cars.len(), 2);
    assert!(busy.cars[0].behavior.target_speed < fx(6.0));
    assert_eq!(busy.cars[1].id, CarId(1));
    let speed = busy.cars[1].speed();
    assert!(speed >= fx(10.0) && speed <= fx(35.0));
    busy.cars[0].position = Point { x: 0, y: fx(500.0) };
    busy.cars[1].position = Point { x: -fx(105.25), y: fx(5.0) };
    busy.cars[1].behavior.target_speed = fx(20.0);
    assert!(roomy.tick_entry(1, &mut busy));
    assert_eq!(busy.cars.len(), 3);
    assert_eq!(busy.cars[1].behavior.target_speed, fx(20.0));
}
