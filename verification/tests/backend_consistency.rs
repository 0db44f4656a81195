use traffic_sim::compute::ComputeBackend;
use traffic_sim::compute::CpuBackend;
use traffic_sim::compute::GpuBackend;
use traffic_sim::compute::SimError;
use traffic_sim::compute::SimulationBackend;
use traffic_sim::graphics::UiRenderer;
use traffic_sim::simulation::kernel::run_kernel;
use traffic_sim::simulation::marshal::create_route_params;
use traffic_sim::simulation::BehaviorState;
use traffic_sim::simulation::Car;
use traffic_sim::simulation::CarId;
use traffic_sim::simulation::GpuCar;
use traffic_sim::simulation::PhysicsEngine;
use traffic_sim::simulation::Point;
use traffic_sim::simulation::SimulationState;
use traffic_sim::simulation::Vec2;
use traffic_sim::config::CarType;
use traffic_sim::config::CarsConfig;
use traffic_sim::config::CollisionAvoidance;
use traffic_sim::config::DriverBehavior;
use traffic_sim::config::EntryInterval;
use traffic_sim::config::EntryPoint;
use traffic_sim::config::ExitPoint;
use traffic_sim::config::PerformanceConfig;
use traffic_sim::config::RandomConfig;
use traffic_sim::config::RoadSurface;
use traffic_sim::config::Route;
use traffic_sim::config::RouteConfig;
use traffic_sim::config::RouteGeometry;
use traffic_sim::config::SimulationParams;
use traffic_sim::config::TrafficFlow;
use traffic_sim::config::TrafficRules;
use traffic_sim::config::TrafficSignals;

fn fx(value: f64) -> i64 {
    (value * 1e6).round() as i64
}

fn entry(id: &str, kind: &str, angle_deg: f64, lane: u32) -> EntryPoint {
    EntryPoint {
        id: id.to_string(),
        entry_type: kind.to_string(),
        angle: fx(angle_deg),
        position: "outer".to_string(),
        lane,
        merge_distance: fx(50.0),
        loop_entry_angle: None,
    }
}

fn exit(id: &str, angle_deg: f64, lane: u32) -> ExitPoint {
    ExitPoint {
        id: id.to_string(),
        exit_type: "ramp".to_string(),
        angle: fx(angle_deg),
        position: "outer".to_string(),
        lane,
        exit_distance: fx(50.0),
        loop_exit_angle: None,
    }
}

fn donut_route() -> RouteConfig {
    RouteConfig {
        route: Route {
            name: "ring".to_string(),
            description: "a circular road".to_string(),
            geometry: RouteGeometry {
                geometry_type: "donut".to_string(),
                center_x: 0,
                center_y: 0,
                inner_radius: fx(100.0),
                outer_radius: fx(110.5),
                lane_width: fx(3.5),
                lane_count: 3,
                highway_width: None,
                highway_length: None,
                loop_radius: None,
                ramp_width: None,
                ramp_lanes: None,
            },
            entries: vec![entry("east", "ramp", 0.0, 1), entry("west", "ramp", 180.0, 2)],
            exits: vec![exit("north", 90.0, 3)],
            traffic_rules: TrafficRules {
                speed_limit: fx(30.0),
                min_speed: fx(5.0),
                following_distance: fx(2.0),
                lane_change_time: fx(3.0),
            },
            surface: RoadSurface { friction_coefficient: fx(0.8), banking_angle: 0 },
            signals: TrafficSignals {},
        },
    }
}

fn car_type(id: &str, weight: u32, length: f64, preferred: f64) -> CarType {
    CarType {
        id: id.to_string(),
        weight,
        length: fx(length),
        width: fx(1.8),
        max_acceleration: fx(3.0),
        max_deceleration: fx(8.0),
        preferred_speed: fx(preferred),
    }
}

fn behavior(name: &str, weight: u32, variance: f64, frequency: f64) -> (String, DriverBehavior) {
    (
        name.to_string(),
        DriverBehavior {
            name: name.to_string(),
            weight,
            following_distance_factor: fx(1.0),
            lane_change_frequency: fx(frequency),
            speed_variance: fx(variance),
            reaction_time: fx(1.2),
            exit_probability: fx(0.25),
        },
    )
}

fn cars_config(total_cars: u32) -> CarsConfig {
    CarsConfig {
        simulation: SimulationParams {
            total_cars,
            spawn_rate: fx(2.0),
            simulation_duration: fx(60.0),
        },
        car_types: vec![car_type("sedan", 60, 4.5, 25.0), car_type("truck", 40, 12.0, 20.0)],
        behavior: vec![
            behavior("aggressive", 30, 1.2, 4.0),
            behavior("cautious", 20, 0.8, 0.5),
            behavior("normal", 50, 1.0, 1.0),
        ],
        collision_avoidance: CollisionAvoidance {
            safety_margin: fx(2.0),
            emergency_brake_distance: fx(5.0),
            warning_distance: fx(15.0),
            lateral_safety_margin: fx(1.0),
        },
        traffic_flow: TrafficFlow {
            entry_intervals: vec![EntryInterval {
                entry_id: "east".to_string(),
                min_interval: fx(0.5),
                max_interval: fx(1.5),
            }],
        },
        random: RandomConfig { seed: Some(7) },
        performance: PerformanceConfig {
            enable_gpu_timing: false,
            enable_cpu_timing: true,
            timing_samples: 60,
        },
    }
}

fn test_config() -> (CarsConfig, RouteConfig) {
    let mut route = donut_route();
    route.route.entries = vec![
        entry("east", "ramp", 0.0, 1),
        entry("west", "ramp", 180.0, 2),
        entry("south", "ramp", 270.0, 3),
    ];
    route.route.exits = vec![exit("north", 90.0, 3), exit("far", 300.0, 1)];
    (cars_config(40), route)
}

fn car_on_lane(id: usize, lane: u32, x: f64, y: f64, angle: f64) -> Car {
    Car {
        id: CarId(id),
        position: Point { x: fx(x), y: fx(y) },
        velocity: Vec2 { x: 0, y: fx(10.0) },
        acceleration: Vec2 { x: 0, y: 0 },
        heading: 0,
        lane_angle: fx(angle),
        length: fx(4.5),
        width: fx(1.8),
        max_acceleration: fx(3.0),
        max_deceleration: fx(8.0),
        preferred_speed: fx(25.0),
        current_lane: lane,
        target_lane: None,
        lane_change_progress: 0,
        behavior: BehaviorState {
            following_distance_factor: fx(1.0),
            lane_change_frequency: fx(1.0),
            speed_variance: fx(1.0),
            reaction_time: fx(1.2),
            exit_probability: fx(0.25),
            last_lane_change_time: 0,
            target_speed: fx(25.0),
        },
        behavior_type: "normal".to_string(),
        car_type: "sedan".to_string(),
        speed_history: [0, 0, 0],
        marked_for_exit: false,
        spawn_time: 0,
        exit_time: None,
    }
}

/// Both backends, with the same seed, agree on the state at every
/// snapshot.
#[test]
fn test_cpu_gpu_consistency() {
    let (cars, route) = test_config();
    let seed = Some(12345u64);
    let test_duration = 5.0;
    let tolerance = 0.01;
    let mut cpu_backend = ComputeBackend::new_cpu(cars.clone(), route.clone(), seed);
    let mut gpu_backend = match ComputeBackend::new_gpu(cars.clone(), route.clone(), seed) {
        Ok(backend) => backend,
        Err(e) => {
            println!("Skipping GPU test: {}", e.message());
            return;
        }
    };
    let dt = fx(1.0 / 60.0);
    let mut cpu_state = SimulationState::new(dt);
    let mut gpu_state = SimulationState::new(dt);
    let mut cpu_snapshots: Vec<(Vec<Car>, u32)> = Vec::new();
    let mut gpu_snapshots: Vec<(Vec<Car>, u32)> = Vec::new();
    let steps = (test_duration * 60.0) as usize;
    let mut step = 0;
    while step < steps {
        cpu_backend.update(&mut cpu_state).unwrap();
        gpu_backend.update(&mut gpu_state).unwrap();
        if step % 60 == 0 {
            cpu_snapshots.push((cpu_state.cars.clone(), cpu_state.total_spawned));
            gpu_snapshots.push((gpu_state.cars.clone(), gpu_state.total_spawned));
        }
        step += 1;
    }
    assert_eq!(cpu_snapshots.len(), gpu_snapshots.len(), "Snapshot count mismatch");
    let mut i = 0;
    while i < cpu_snapshots.len() {
        let (cpu_cars, cpu_spawned) = &cpu_snapshots[i];
        let (gpu_cars, gpu_spawned) = &gpu_snapshots[i];
        println!("Comparing snapshot {} at t={:.1}s", i, i as f32);
        assert_eq!(
            cpu_cars.len(),
            gpu_cars.len(),
            "Car count mismatch at snapshot {}: CPU={}, GPU={}",
            i,
            cpu_cars.len(),
            gpu_cars.len()
        );
        assert_eq!(
            cpu_spawned, gpu_spawned,
            "Total spawned mismatch at snapshot {}: CPU={}, GPU={}",
            i, cpu_spawned, gpu_spawned
        );
        let mut k = 0;
        while k < cpu_cars.len() {
            let cpu_car = &cpu_cars[k];
            let gpu_car = &gpu_cars[k];
            let cpu_x = cpu_car.position.x as f64 / 1e6;
            let cpu_y = cpu_car.position.y as f64 / 1e6;
            let gpu_x = gpu_car.position.x as f64 / 1e6;
            let gpu_y = gpu_car.position.y as f64 / 1e6;
            let pos_diff_x = (cpu_x - gpu_x).abs();
            let pos_diff_y = (cpu_y - gpu_y).abs();
            let max_pos = cpu_x.abs().max(cpu_y.abs()).max(1.0);
            let relative_error_x = pos_diff_x / max_pos;
            let relative_error_y = pos_diff_y / max_pos;
            assert!(
                relative_error_x < tolerance,
                "Car {} X position differs too much at snapshot {}: CPU={:.3}, GPU={:.3}, error={:.3}% (tolerance={:.1}%)",
                cpu_car.id.0, i, cpu_x, gpu_x, relative_error_x * 100.0, tolerance * 100.0
            );
            assert!(
                relative_error_y < tolerance,
                "Car {} Y position differs too much at snapshot {}: CPU={:.3}, GPU={:.3}, error={:.3}% (tolerance={:.1}%)",
                cpu_car.id.0, i, cpu_y, gpu_y, relative_error_y * 100.0, tolerance * 100.0
            );
            let cpu_vx = cpu_car.velocity.x as f64 / 1e6;
            let cpu_vy = cpu_car.velocity.y as f64 / 1e6;
            let gpu_vx = gpu_car.velocity.x as f64 / 1e6;
            let gpu_vy = gpu_car.velocity.y as f64 / 1e6;
            let vel_diff_x = (cpu_vx - gpu_vx).abs();
            let vel_diff_y = (cpu_vy - gpu_vy).abs();
            let max_vel = cpu_vx.abs().max(cpu_vy.abs()).max(1.0);
            let vel_error_x = vel_diff_x / max_vel;
            let vel_error_y = vel_diff_y / max_vel;
            assert!(
                vel_error_x < tolerance,
                "Car {} X velocity differs too much at snapshot {}: CPU={:.3}, GPU={:.3}, error={:.3}%",
                cpu_car.id.0, i, cpu_vx, gpu_vx, vel_error_x * 100.0
            );
            assert!(
                vel_error_y < tolerance,
                "Car {} Y velocity differs too much at snapshot {}: CPU={:.3}, GPU={:.3}, error={:.3}%",
                cpu_car.id.0, i, cpu_vy, gpu_vy, vel_error_y * 100.0
            );
            assert_eq!(cpu_car.position, gpu_car.position);
            assert_eq!(cpu_car.velocity, gpu_car.velocity);
            assert_eq!(cpu_car.id, gpu_car.id);
            assert_eq!(cpu_car.current_lane, gpu_car.current_lane);
            k += 1;
        }
        println!("✓ Snapshot {} passed with {} cars", i, cpu_cars.len());
        i += 1;
    }
    assert!(cpu_state.total_spawned > 0);
    println!("✓ All CPU/GPU consistency tests passed!");
}

/// Both backends, with the same seed, spawn the same cars.
#[test]
fn test_spawn_consistency() {
    let (cars, route) = test_config();
    let seed = Some(54321u64);
    let mut cpu_backend = ComputeBackend::new_cpu(cars.clone(), route.clone(), seed);
    let mut gpu_backend = match ComputeBackend::new_gpu(cars.clone(), route.clone(), seed) {
        Ok(backend) => backend,
        Err(_) => return,
    };
    let dt = fx(1.0 / 60.0);
    let mut cpu_state = SimulationState::new(dt);
    let mut gpu_state = SimulationState::new(dt);
    let mut step = 0;
    while step < (3.0 * 60.0) as usize {
        cpu_backend.update(&mut cpu_state).unwrap();
        gpu_backend.update(&mut gpu_state).unwrap();
        step += 1;
    }
    assert_eq!(
        cpu_state.total_spawned, gpu_state.total_spawned,
        "Different spawn counts: CPU={}, GPU={}",
        cpu_state.total_spawned, gpu_state.total_spawned
    );
    assert_eq!(
        cpu_state.cars.len(),
        gpu_state.cars.len(),
        "Different active car counts: CPU={}, GPU={}",
        cpu_state.cars.len(),
        gpu_state.cars.len()
    );
    assert!(cpu_state.total_spawned > 0);
    println!("✓ Spawn consistency test passed: {} cars spawned", cpu_state.total_spawned);
}

#[test]
fn a_long_run_keeps_the_bookkeeping_sound() {
    let (cars, route) = test_config();
    let mut backend = ComputeBackend::new_cpu(cars, route, Some(2));
    let dt = fx(1.0 / 60.0);
    let mut state = SimulationState::new(dt);
    let mut last_spawned = 0;
    let mut last_time = 0;
    let mut step = 0;
    let mut most = 0;
    while step < 3000 {
        backend.update(&mut state).unwrap();
        assert_eq!(state.active_cars as usize, state.cars.len());
        assert!(state.cars.len() <= 40);
        assert!(state.total_spawned >= last_spawned);
        assert_eq!(state.time, last_time + dt);
        let mut i = 0;
        while i < state.cars.len() {
            let c = &state.cars[i];
            assert!(c.current_lane >= 1 && c.current_lane <= 3);
            assert!(c.lane_change_progress >= 0 && c.lane_change_progress <= 1_000_000);
            if let Some(t) = c.target_lane {
                assert!(t >= 1 && t <= 3);
                assert!(c.lane_change_progress < 1_000_000);
            }
            let mut j = i + 1;
            while j < state.cars.len() {
                assert!(state.cars[j].id != c.id);
                j += 1;
            }
            i += 1;
        }
        if state.cars.len() > most {
            most = state.cars.len();
        }
        last_spawned = state.total_spawned;
        last_time = state.time;
        step += 1;
    }
    assert!(state.total_spawned >= 10, "only {} cars were spawned", state.total_spawned);
    assert!(most >= 3);
}

#[test]
fn backends_have_names() {
    let (cars, route) = test_config();
    let cpu = ComputeBackend::new_cpu(cars.clone(), route.clone(), Some(1));
    assert_eq!(cpu.get_name(), "CPU");
    assert!(!cpu.supports_gpu());
    let gpu = ComputeBackend::new_gpu(cars.clone(), route.clone(), Some(1)).unwrap();
    assert_eq!(gpu.get_name(), "OpenCL GPU");
    assert!(gpu.supports_gpu());
    let plain = CpuBackend::new(cars.clone(), route.clone(), Some(1));
    assert_eq!(plain.get_name(), "CPU");
    assert!(!plain.supports_gpu());
    let parallel = GpuBackend::new(cars, route, Some(1)).unwrap();
    assert_eq!(parallel.get_name(), "OpenCL GPU");
    assert!(parallel.supports_gpu());
    assert_eq!(SimError::BufferTooSmall.message(), "More cars than the record buffer holds");
    assert_eq!(UiRenderer::new(), Ok(UiRenderer {}));
}

#[test]
fn the_record_buffer_has_a_slot_for_each_car_up_to_the_cap() {
    let (mut cars, route) = test_config();
    cars.simulation.total_cars = 3;
    let backend = GpuBackend::new(cars, route, Some(1)).unwrap();
    let mut state = SimulationState::new(fx(1.0 / 60.0));
    state.add_car(car_on_lane(0, 1, 101.75, 0.0, 0.0));
    state.add_car(car_on_lane(1, 2, -105.25, 0.0, 3.141592));
    let buffer = backend.upload_cars_to_gpu(&state).unwrap();
    assert_eq!(buffer.len(), 3);
    assert_eq!(buffer[0], GpuCar::from_car(&state.cars[0], 0));
    assert_eq!(buffer[1], GpuCar::from_car(&state.cars[1], 0));
    assert_eq!(buffer[2], GpuCar::default());
    assert_eq!(buffer[2].current_lane, 0);
    state.add_car(car_on_lane(2, 3, 0.0, 108.75, 1.570796));
    state.add_car(car_on_lane(3, 3, 0.0, -108.75, 4.712388));
    assert_eq!(backend.upload_cars_to_gpu(&state), Err(SimError::BufferTooSmall));
    let time = state.time;
    assert_eq!(backend.run_physics(&mut state), Err(SimError::BufferTooSmall));
    assert_eq!(state.time, time);
    assert_eq!(state.cars[0].position, Point { x: fx(101.75), y: 0 });
}

#[test]
fn records_read_back_are_written_into_their_cars() {
    let (cars, route) = test_config();
    let backend = GpuBackend::new(cars, route, Some(1)).unwrap();
    let mut state = SimulationState::new(fx(1.0 / 60.0));
    state.add_car(car_on_lane(0, 1, 101.75, 0.0, 0.0));
    state.add_car(car_on_lane(1, 2, -105.25, 0.0, 3.141592));
    let mut buffer = backend.upload_cars_to_gpu(&state).unwrap();
    buffer[1].pos_x = fx(7.0);
    buffer[1].current_lane = 3;
    buffer[0].target_lane = 2;
    assert_eq!(backend.download_cars_from_gpu(&mut state, &buffer), Ok(()));
    assert_eq!(state.cars[1].position.x, fx(7.0));
    assert_eq!(state.cars[1].current_lane, 3);
    assert_eq!(state.cars[0].target_lane, Some(2));
    assert_eq!(state.cars[0].id, CarId(0));
    let short = vec![buffer[0]];
    assert_eq!(backend.download_cars_from_gpu(&mut state, &short), Err(SimError::ReadbackTooShort));
    assert_eq!(state.cars[1].position.x, fx(7.0));
}

#[test]
fn the_buffer_path_and_the_sequential_step_move_cars_alike() {
    let (cars, route) = test_config();
    let physics = PhysicsEngine::new(route.clone(), cars.collision_avoidance);
    let params = create_route_params(&route, &cars.collision_avoidance).unwrap();
    let backend = GpuBackend::new(cars, route, Some(1)).unwrap();
    let dt = fx(1.0 / 60.0);
    let mut one = SimulationState::new(dt);
    let mut two = SimulationState::new(dt);
    let mut k = 0;
    while k < 12 {
        let angle = 0.5 * k as f64;
        let lane = 1 + (k as u32 % 3);
        let radius = 101.75 + 3.5 * ((lane - 1) as f64);
        let c = car_on_lane(k, lane, radius * angle.cos(), radius * angle.sin(), angle);
        one.add_car(c.clone());
        two.add_car(c);
        k += 1;
    }
    one.cars[3].target_lane = Some(2);
    two.cars[3].target_lane = Some(2);
    let mut ticks = 0;
    while ticks < 200 {
        physics.update(&mut one);
        backend.run_physics(&mut two).unwrap();
        let mut i = 0;
        while i < 12 {
            assert_eq!(GpuCar::from_car(&one.cars[i], 0), GpuCar::from_car(&two.cars[i], 0));
            i += 1;
        }
        assert_eq!(one.time, two.time);
        ticks += 1;
    }
    let buffer = backend.upload_cars_to_gpu(&two).unwrap();
    let next = run_kernel(&buffer, 12, &params, dt);
    assert_eq!(next.len(), 40);
    assert_eq!(next[39], GpuCar::default());
}

#[test]
fn a_tick_without_cars_advances_the_clock() {
    let (mut cars, mut route) = test_config();
    route.route.entries.clear();
    cars.traffic_flow.entry_intervals.clear();
    let mut cpu = ComputeBackend::new_cpu(cars.clone(), route.clone(), Some(1));
    let mut gpu = ComputeBackend::new_gpu(cars, route, Some(1)).unwrap();
    let dt = fx(0.5);
    let mut a = SimulationState::new(dt);
    let mut b = SimulationState::new(dt);
    assert_eq!(cpu.update(&mut a), Ok(()));
    assert_eq!(gpu.update(&mut b), Ok(()));
    assert_eq!(a.time, dt);
    assert_eq!(b.time, dt);
    assert_eq!(a.cars.len(), 0);
    assert_eq!(b.cars.len(), 0);
    assert_eq!(b.total_spawned, 0);
}

#[test]
fn a_backend_spawns_a_manual_car_at_the_first_entry() {
    let (mut cars, route) = test_config();
    cars.simulation.total_cars = 2;
    let mut cpu = CpuBackend::new(cars.clone(), route.clone(), Some(4));
    let mut gpu = GpuBackend::new(cars.clone(), route.clone(), Some(4)).unwrap();
    let mut both = ComputeBackend::new_cpu(cars, route, Some(4));
    let dt = fx(1.0 / 60.0);
    let mut a = SimulationState::new(dt);
    let mut b = SimulationState::new(dt);
    let mut c = SimulationState::new(dt);
    cpu.spawn_manual_car("cautious", &mut a);
    gpu.spawn_manual_car("cautious", &mut b);
    both.spawn_manual_car("aggressive", &mut c);
    assert_eq!(a.cars.len(), 1);
    assert_eq!(b.cars.len(), 1);
    assert_eq!(c.cars.len(), 1);
    assert_eq!(a.total_spawned, 1);
    assert_eq!(b.active_cars, 1);
    assert_eq!(a.cars[0].id, CarId(0));
    assert_eq!(a.cars[0].behavior_type, "cautious");
    assert_eq!(c.cars[0].behavior_type, "aggressive");
    assert_eq!(c.cars[0].behavior.speed_variance, fx(1.2));
    assert_eq!(a.cars[0].position, Point { x: fx(101.75), y: 0 });
    assert_eq!(a.cars[0].velocity, Vec2 { x: 0, y: fx(15.6) });
    assert_eq!(a.cars[0].current_lane, 1);
    assert_eq!(GpuCar::from_car(&a.cars[0], 0), GpuCar::from_car(&b.cars[0], 0));
    cpu.spawn_manual_car("cautious", &mut a);
    assert_eq!(a.cars.len(), 1, "a car was spawned onto a car");
    a.cars[0].position = Point { x: 0, y: fx(50.0) };
    cpu.spawn_manual_car("normal", &mut a);
    assert_eq!(a.cars.len(), 2);
    assert_eq!(a.cars[1].id, CarId(1));
    a.cars[1].position = Point { x: 0, y: fx(70.0) };
    cpu.spawn_manual_car("normal", &mut a);
    assert_eq!(a.cars.len(), 2, "the cap of two cars was passed");
    assert_eq!(a.total_spawned, 2);
    assert!(cpu.check_accepts(&a));
}
