//! Marshalling between cars and the records the kernel works on.
use vstd::prelude::*;
use crate::config::CollisionAvoidance;
use crate::config::GeometryKind;
use crate::config::RouteConfig;
use crate::simulation::Car;
use crate::simulation::kernel::DEFAULT_HIGHWAY_WIDTH;
use crate::simulation::kernel::DEFAULT_LOOP_RADIUS;
use crate::simulation::kernel::GpuCar;
use crate::simulation::kernel::RouteParams;
use crate::simulation::Point;
use crate::simulation::Vec2;

verus! {

/// The record of a car.
pub open spec fn packed(car: Car) -> GpuCar {
    GpuCar {
        pos_x: car.position.x,
        pos_y: car.position.y,
        vel_x: car.velocity.x,
        vel_y: car.velocity.y,
        acc_x: car.acceleration.x,
        acc_y: car.acceleration.y,
        heading: car.heading,
        lane_angle: car.lane_angle,
        length: car.length,
        width: car.width,
        max_accel: car.max_acceleration,
        max_decel: car.max_deceleration,
        preferred_speed: car.preferred_speed,
        current_lane: car.current_lane,
        target_lane: match car.target_lane {
            Some(t) => t,
            None => 0,
        },
        lane_change_progress: car.lane_change_progress,
        following_distance_factor: car.behavior.following_distance_factor,
        target_speed: car.behavior.target_speed,
        reaction_time: car.behavior.reaction_time,
        last_lane_change_time: car.behavior.last_lane_change_time,
    }
}

/// The car with the fields that the kernel writes taken from the record.
pub open spec fn unpacked(car: Car, rec: GpuCar) -> Car {
    Car {
        position: Point { x: rec.pos_x, y: rec.pos_y },
        velocity: Vec2 { x: rec.vel_x, y: rec.vel_y },
        acceleration: Vec2 { x: rec.acc_x, y: rec.acc_y },
        heading: rec.heading,
        lane_angle: rec.lane_angle,
        current_lane: rec.current_lane,
        target_lane: if rec.target_lane != 0 {
            Some(rec.target_lane)
        } else {
            None
        },
        lane_change_progress: rec.lane_change_progress,
        behavior: crate::simulation::BehaviorState {
            target_speed: rec.target_speed,
            last_lane_change_time: rec.last_lane_change_time,
            ..car.behavior
        },
        ..car
    }
}

/// The records of a sequence of cars.
pub open spec fn packed_all(cars: Seq<Car>) -> Seq<GpuCar> {
    Seq::new(cars.len(), |i: int| packed(cars[i]))
}

/// Packing a car and unpacking the record into it changes nothing, for
/// a car whose target lane is not lane zero.
pub proof fn lemma_round_trip(car: Car)
    requires
        car.target_lane != Some(0u32),
    ensures
        unpacked(car, packed(car)) == car,
{
}

impl GpuCar {
    /// Packs the fields of a car that the kernel reads.
    pub fn from_car(car: &Car, _simulation_time: i64) -> (r: GpuCar)
        ensures
            r == packed(*car),
    {
        GpuCar {
            pos_x: car.position.x,
            pos_y: car.position.y,
            vel_x: car.velocity.x,
            vel_y: car.velocity.y,
            acc_x: car.acceleration.x,
            acc_y: car.acceleration.y,
            heading: car.heading,
            lane_angle: car.lane_angle,
            length: car.length,
            width: car.width,
            max_accel: car.max_acceleration,
            max_decel: car.max_deceleration,
            preferred_speed: car.preferred_speed,
            current_lane: car.current_lane,
            target_lane: match car.target_lane {
                Some(t) => t,
                None => 0,
            },
            lane_change_progress: car.lane_change_progress,
            following_distance_factor: car.behavior.following_distance_factor,
            target_speed: car.behavior.target_speed,
            reaction_time: car.behavior.reaction_time,
            last_lane_change_time: car.behavior.last_lane_change_time,
        }
    }

    /// Writes the fields that the kernel computes back into the car.
    pub fn update_car(&self, car: &mut Car)
        ensures
            *final(car) == unpacked(*old(car), *self),
    {
        car.position = Point { x: self.pos_x, y: self.pos_y };
        car.velocity = Vec2 { x: self.vel_x, y: self.vel_y };
        car.acceleration = Vec2 { x: self.acc_x, y: self.acc_y };
        car.heading = self.heading;
        car.lane_angle = self.lane_angle;
        car.current_lane = self.current_lane;
        car.lane_change_progress = self.lane_change_progress;
        if self.target_lane != 0 {
            car.target_lane = Some(self.target_lane);
        } else {
            car.target_lane = None;
        }
        car.behavior.target_speed = self.target_speed;
        car.behavior.last_lane_change_time = self.last_lane_change_time;
    }
}

/// Packs every car of a list.
pub fn pack_cars(cars: &Vec<Car>, time: i64) -> (r: Vec<GpuCar>)
    ensures
        r@ == packed_all(cars@),
{
    let mut out: Vec<GpuCar> = Vec::with_capacity(cars.len());
    let mut i: usize = 0;
    while i < cars.len()
        invariant
            i <= cars.len(),
            out@.len() == i,
            forall|j: int| 0 <= j < i ==> out@[j] == packed(cars@[j]),
        decreases cars.len() - i,
    {
        out.push(GpuCar::from_car(&cars[i], time));
        i += 1;
    }
    assert(out@ =~= packed_all(cars@));
    out
}

/// The cars with each record unpacked into the car of the same index.
pub open spec fn unpacked_all(cars: Seq<Car>, records: Seq<GpuCar>) -> Seq<Car> {
    Seq::new(cars.len(), |i: int| unpacked(cars[i], records[i]))
}

/// Unpacks each record into the car of the same index.
pub fn unpack_cars(cars: &mut Vec<Car>, records: &Vec<GpuCar>)
    requires
        records@.len() >= old(cars)@.len(),
    ensures
        final(cars)@ == unpacked_all(old(cars)@, records@),
{
    let mut i: usize = 0;
    while i < cars.len()
        invariant
            i <= cars.len(),
            cars@.len() == old(cars)@.len(),
            records@.len() >= cars@.len(),
            forall|j: int| 0 <= j < i ==> cars@[j] == unpacked(old(cars)@[j], records@[j]),
            forall|j: int| i <= j < cars@.len() ==> cars@[j] == old(cars)@[j],
        decreases cars.len() - i,
    {
        records[i].update_car(&mut cars[i]);
        i += 1;
    }
    assert(cars@ =~= unpacked_all(old(cars)@, records@));
}

/// The parameter record of a route and its collision thresholds.
pub open spec fn route_params_of(route: &RouteConfig, ca: &CollisionAvoidance) -> Option<
    RouteParams,
> {
    let geom = route.route.geometry;
    let rules = route.route.traffic_rules;
    match GeometryKind::of_name(geom.geometry_type@) {
        None => None,
        Some(kind) => Some(
            RouteParams {
                kind,
                center_x: geom.center_x,
                center_y: geom.center_y,
                inner_radius: geom.inner_radius,
                outer_radius: geom.outer_radius,
                lane_width: geom.lane_width,
                lane_count: geom.lane_count,
                highway_width: match geom.highway_width {
                    Some(w) => w,
                    None => DEFAULT_HIGHWAY_WIDTH,
                },
                loop_radius: match geom.loop_radius {
                    Some(r) => r,
                    None => DEFAULT_LOOP_RADIUS,
                },
                speed_limit: rules.speed_limit,
                min_speed: rules.min_speed,
                following_distance: rules.following_distance,
                lane_change_time: rules.lane_change_time,
                friction_coefficient: route.route.surface.friction_coefficient,
                emergency_brake_distance: ca.emergency_brake_distance,
                warning_distance: ca.warning_distance,
                safety_margin: ca.safety_margin,
            },
        ),
    }
}

/// Builds the shared parameter record; `None` for a geometry type that
/// is not supported.
pub fn create_route_params(route: &RouteConfig, ca: &CollisionAvoidance) -> (r: Option<RouteParams>)
    ensures
        r == route_params_of(route, ca),
        route.valid() ==> r is Some,
        route.valid() && ca.valid() ==> r is Some && r->0.wf(),
{
    let geom = &route.route.geometry;
    let rules = &route.route.traffic_rules;
    match GeometryKind::parse(geom.geometry_type.as_str()) {
        None => None,
        Some(kind) => Some(
            RouteParams {
                kind,
                center_x: geom.center_x,
                center_y: geom.center_y,
                inner_radius: geom.inner_radius,
                outer_radius: geom.outer_radius,
                lane_width: geom.lane_width,
                lane_count: geom.lane_count,
                highway_width: match geom.highway_width {
                    Some(w) => w,
                    None => DEFAULT_HIGHWAY_WIDTH,
                },
                loop_radius: match geom.loop_radius {
                    Some(r) => r,
                    None => DEFAULT_LOOP_RADIUS,
                },
                speed_limit: rules.speed_limit,
                min_speed: rules.min_speed,
                following_distance: rules.following_distance,
                lane_change_time: rules.lane_change_time,
                friction_coefficient: route.route.surface.friction_coefficient,
                emergency_brake_distance: ca.emergency_brake_distance,
                warning_distance: ca.warning_distance,
                safety_margin: ca.safety_margin,
            },
        ),
    }
}

} // verus!
