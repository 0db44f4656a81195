use traffic_sim::simulation::BehaviorState;
use traffic_sim::simulation::Car;
use traffic_sim::simulation::CarId;
use traffic_sim::simulation::Point;
use traffic_sim::simulation::SimulationState;
use traffic_sim::simulation::Vec2;

fn fx(value: f64) -> i64 {
    (value * 1e6).round() as i64
}

fn car(id: usize, behavior_type: &str, lane: u32, speed: f64) -> Car {
    Car {
        id: CarId(id),
        position: Point { x: fx(101.75), y: 0 },
        velocity: Vec2 { x: 0, y: fx(speed) },
        acceleration: Vec2 { x: 0, y: 0 },
        heading: 1_570_796,
        lane_angle: 0,
        length: fx(4.5),
        width: fx(1.8),
        max_acceleration: fx(3.0),
        max_deceleration: fx(8.0),
        preferred_speed: fx(25.0),
        current_lane: lane,
        target_lane: None,
        lane_change_progress: 0,
        behavior: BehaviorState {
            following_distance_factor: fx(1.0),
            lane_change_frequency: fx(1.0),
            speed_variance: fx(1.0),
            reaction_time: fx(1.2),
            exit_probability: fx(0.25),
            last_lane_change_time: 0,
            target_speed: fx(25.0),
        },
        behavior_type: behavior_type.to_string(),
        car_type: "sedan".to_string(),
        speed_history: [fx(speed), fx(speed), fx(speed)],
        marked_for_exit: false,
        spawn_time: 0,
        exit_time: None,
    }
}

#[test]
fn new_state_is_empty() {
    let state = SimulationState::new(16_667);
    assert_eq!(state.cars.len(), 0);
    assert_eq!(state.active_cars, 0);
    assert_eq!(state.total_spawned, 0);
    assert_eq!(state.time, 0);
    assert_eq!(state.dt, 16_667);
}

#[test]
fn adding_a_car_counts_it_as_spawned_and_active() {
    let mut state = SimulationState::new(16_667);
    state.add_car(car(0, "normal", 1, 20.0));
    state.add_car(car(1, "aggressive", 2, 22.0));
    assert_eq!(state.cars.len(), 2);
    assert_eq!(state.total_spawned, 2);
    assert_eq!(state.active_cars, 2);
    assert_eq!(state.cars[1].id, CarId(1));
}

#[test]
fn removing_a_car_counts_one_active_car_less() {
    let mut state = SimulationState::new(16_667);
    state.add_car(car(0, "normal", 1, 20.0));
    state.add_car(car(1, "aggressive", 2, 22.0));
    state.add_car(car(2, "cautious", 3, 18.0));
    state.remove_car(CarId(1));
    assert_eq!(state.cars.len(), 2);
    assert_eq!(state.active_cars, 2);
    assert_eq!(state.total_spawned, 3);
    assert_eq!(state.cars[0].id, CarId(0));
    assert_eq!(state.cars[1].id, CarId(2));
    state.remove_car(CarId(1));
    assert_eq!(state.cars.len(), 2);
    assert_eq!(state.active_cars, 2);
    state.remove_car(CarId(0));
    state.remove_car(CarId(2));
    assert_eq!(state.cars.len(), 0);
    assert_eq!(state.active_cars, 0);
    assert_eq!(state.total_spawned, 3);
}

#[test]
fn cars_are_found_by_id() {
    let mut state = SimulationState::new(16_667);
    state.add_car(car(4, "normal", 1, 20.0));
    state.add_car(car(9, "aggressive", 2, 22.0));
    assert_eq!(state.index_of(CarId(9)), Some(1));
    assert_eq!(state.index_of(CarId(5)), None);
    assert_eq!(state.get_car(CarId(9)).map(|c| c.current_lane), Some(2));
    assert!(state.get_car(CarId(1)).is_none());
    match state.get_car_mut(CarId(4)) {
        Some(found) => found.current_lane = 3,
        None => panic!("car 4 is in the state"),
    }
    assert_eq!(state.cars[0].current_lane, 3);
    assert!(state.get_car_mut(CarId(5)).is_none());
}

#[test]
fn marking_flags_the_first_unflagged_car_of_the_profile() {
    let mut state = SimulationState::new(16_667);
    state.time = fx(12.5);
    state.add_car(car(0, "normal", 1, 20.0));
    state.add_car(car(1, "aggressive", 2, 22.0));
    assert!(state.mark_car_for_exit("aggressive"));
    assert!(state.cars[1].marked_for_exit);
    assert_eq!(state.cars[1].exit_time, Some(fx(12.5)));
    assert!(!state.cars[0].marked_for_exit);
    assert_eq!(state.cars[0].exit_time, None);
    assert!(!state.mark_car_for_exit("aggressive"));
    assert!(state.cars[1].marked_for_exit);
    assert_eq!(state.cars[1].exit_time, Some(fx(12.5)));
    assert_eq!(state.cars.len(), 2);
    assert_eq!(state.active_cars, 2);
}

#[test]
fn marking_skips_flagged_cars_and_other_profiles() {
    let mut state = SimulationState::new(16_667);
    state.add_car(car(0, "aggressive", 1, 20.0));
    state.add_car(car(1, "normal", 1, 20.0));
    state.add_car(car(2, "aggressive", 2, 22.0));
    state.time = fx(1.0);
    assert!(state.mark_car_for_exit("aggressive"));
    state.time = fx(2.0);
    assert!(state.mark_car_for_exit("aggressive"));
    assert_eq!(state.cars[0].exit_time, Some(fx(1.0)));
    assert_eq!(state.cars[2].exit_time, Some(fx(2.0)));
    assert!(!state.cars[1].marked_for_exit);
    assert!(!state.mark_car_for_exit("aggressive"));
    assert!(!state.mark_car_for_exit("erratic"));
    assert!(!SimulationState::new(1).mark_car_for_exit("normal"));
}

#[test]
fn speed_history_keeps_the_last_three_speeds() {
    let mut one = car(0, "normal", 1, 20.0);
    one.velocity = Vec2 { x: fx(3.0), y: fx(4.0) };
    one.update_speed_history();
    assert_eq!(one.speed_history, [fx(20.0), fx(20.0), fx(5.0)]);
    one.velocity = Vec2 { x: 0, y: fx(8.0) };
    one.update_speed_history();
    assert_eq!(one.speed_history, [fx(20.0), fx(5.0), fx(8.0)]);
    assert_eq!(one.average_speed(), fx(11.0));
    one.speed_history = [1, 1, 0];
    assert_eq!(one.average_speed(), 0);
    one.speed_history = [-4, -4, 0];
    assert_eq!(one.average_speed(), -2);
}

#[test]
fn every_car_records_its_speed() {
    let mut state = SimulationState::new(16_667);
    state.add_car(car(0, "normal", 1, 20.0));
    state.add_car(car(1, "normal", 1, 10.0));
    state.cars[0].velocity = Vec2 { x: fx(6.0), y: fx(8.0) };
    state.update_car_speeds();
    assert_eq!(state.cars[0].speed_history, [fx(20.0), fx(20.0), fx(10.0)]);
    assert_eq!(state.cars[1].speed_history, [fx(10.0), fx(10.0), fx(10.0)]);
}

#[test]
fn cars_are_counted_by_behavior() {
    let mut state = SimulationState::new(16_667);
    assert_eq!(state.get_behavior_counts().len(), 0);
    state.add_car(car(0, "normal", 1, 20.0));
    state.add_car(car(1, "aggressive", 2, 22.0));
    state.add_car(car(2, "normal", 3, 18.0));
    state.add_car(car(3, "normal", 3, 18.0));
    let counts = state.get_behavior_counts();
    assert_eq!(counts, vec![("normal".to_string(), 3), ("aggressive".to_string(), 1)]);
}

#[test]
fn speeds_fall_into_equal_buckets() {
    let mut state = SimulationState::new(16_667);
    assert_eq!(state.get_velocity_distribution(4), vec![0, 0, 0, 0]);
    state.add_car(car(0, "normal", 1, 0.0));
    assert_eq!(state.get_velocity_distribution(4), vec![0, 0, 0, 0]);
    state.add_car(car(1, "normal", 1, 5.0));
    state.add_car(car(2, "normal", 1, 10.0));
    state.add_car(car(3, "normal", 1, 19.9));
    state.add_car(car(4, "normal", 1, 20.0));
    assert_eq!(state.top_speed(), fx(20.0));
    assert_eq!(state.get_velocity_distribution(4), vec![1, 1, 1, 2]);
    assert_eq!(state.get_velocity_distribution(1), vec![5]);
    assert_eq!(state.get_velocity_distribution(0), Vec::<usize>::new());
}

#[test]
fn a_copy_of_a_car_equals_the_car() {
    let one = car(3, "cautious", 2, 14.0);
    let copy = one.clone();
    assert_eq!(copy.id, CarId(3));
    assert_eq!(copy.behavior_type, "cautious");
    assert_eq!(copy.current_lane, 2);
    assert_eq!(copy.velocity, one.velocity);
    assert_eq!(copy.speed(), fx(14.0));
}

#[test]
fn points_and_vectors() {
    let a = Point::new(fx(1.0), fx(2.0));
    let b = Point::new(fx(4.0), fx(6.0));
    assert_eq!(b.minus(&a), Vec2::new(fx(3.0), fx(4.0)));
    assert_eq!(a.distance(&b), fx(5.0));
    assert_eq!(Vec2::zeros().magnitude(), 0);
}
