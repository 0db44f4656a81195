//! The entity store: cars, the clock and the population counters.
use vstd::prelude::*;
use crate::fixed::div_trunc;
use crate::fixed::hypot;
use crate::fixed::hypot_spec;
use crate::fixed::lemma_quot_bound;
use crate::fixed::quot;
use crate::fixed::sat_sub;
use crate::fixed::SCALE;
use crate::fixed::sub_spec;

pub mod behavior;
pub mod kernel;
pub mod marshal;
pub mod metrics;
pub mod physics;
pub mod road;
pub mod spawn;
pub mod state;
pub mod traffic;

pub use behavior::BehaviorEngine;
pub use kernel::GpuCar;
pub use kernel::RouteParams;
pub use metrics::PerformanceMetrics;
pub use metrics::PerformanceTracker;
pub use physics::PhysicsEngine;
pub use state::SimulationState;
pub use traffic::TrafficManager;

verus! {

/// A displacement or a rate in the plane, in millionths.
#[derive(Debug, Clone, Copy, PartialEq, Eq, Structural)]
pub struct Vec2 {
    pub x: i64,
    pub y: i64,
}

/// A place in the plane, in millionths of a metre.
#[derive(Debug, Clone, Copy, PartialEq, Eq, Structural)]
pub struct Point {
    pub x: i64,
    pub y: i64,
}

impl Vec2 {
    pub open spec fn magnitude_spec(&self) -> int {
        hypot_spec(self.x as int, self.y as int)
    }

    pub fn new(x: i64, y: i64) -> (r: Self)
        ensures
            r == (Vec2 { x, y }),
    {
        Vec2 { x, y }
    }

    pub fn zeros() -> (r: Self)
        ensures
            r == (Vec2 { x: 0, y: 0 }),
    {
        Vec2 { x: 0, y: 0 }
    }

    /// The length of the vector.
    pub fn magnitude(&self) -> (r: i64)
        ensures
            r == self.magnitude_spec(),
            r >= 0,
    {
        hypot(self.x, self.y)
    }
}

impl Point {
    pub fn new(x: i64, y: i64) -> (r: Self)
        ensures
            r == (Point { x, y }),
    {
        Point { x, y }
    }

    /// The displacement that leads from `other` to `self`.
    pub open spec fn minus_spec(&self, other: Point) -> Vec2 {
        Vec2 {
            x: sub_spec(self.x as int, other.x as int) as i64,
            y: sub_spec(self.y as int, other.y as int) as i64,
        }
    }

    pub fn minus(&self, other: &Point) -> (r: Vec2)
        ensures
            r == self.minus_spec(*other),
    {
        Vec2 { x: sat_sub(self.x, other.x), y: sat_sub(self.y, other.y) }
    }

    /// The straight-line distance between two places.
    pub open spec fn distance_spec(&self, other: Point) -> int {
        self.minus_spec(other).magnitude_spec()
    }

    pub fn distance(&self, other: &Point) -> (r: i64)
        ensures
            r == self.distance_spec(*other),
            r >= 0,
    {
        self.minus(other).magnitude()
    }
}

/// Identity of a car, unique for the lifetime of a run.
#[derive(Debug, Clone, Copy, PartialEq, Eq, Structural)]
pub struct CarId(pub usize);

/// The driver's parameters and current intent.
#[derive(Debug, Clone, Copy, PartialEq, Eq, Structural)]
pub struct BehaviorState {
    pub following_distance_factor: i64,
    pub lane_change_frequency: i64,
    pub speed_variance: i64,
    pub reaction_time: i64,
    pub exit_probability: i64,
    pub last_lane_change_time: i64,
    pub target_speed: i64,
}

/// One vehicle. Lengths are in millionths of a metre, times in millionths
/// of a second, angles in millionths of a radian.
#[derive(Debug)]
pub struct Car {
    pub id: CarId,
    pub position: Point,
    pub velocity: Vec2,
    pub acceleration: Vec2,
    pub heading: i64,
    /// Angular position along a curved lane, around the centre of the curve.
    pub lane_angle: i64,
    pub length: i64,
    pub width: i64,
    pub max_acceleration: i64,
    pub max_deceleration: i64,
    pub preferred_speed: i64,
    pub current_lane: u32,
    pub target_lane: Option<u32>,
    /// Progress of a lane change, from 0 to `SCALE`.
    pub lane_change_progress: i64,
    pub behavior: BehaviorState,
    pub behavior_type: String,
    pub car_type: String,
    /// The last three speeds, oldest first.
    pub speed_history: [i64; 3],
    pub marked_for_exit: bool,
    pub spawn_time: i64,
    pub exit_time: Option<i64>,
}

impl Car {
    /// The scalar speed of the car.
    pub open spec fn speed_spec(&self) -> int {
        self.velocity.magnitude_spec()
    }

    pub fn speed(&self) -> (r: i64)
        ensures
            r == self.speed_spec(),
            r >= 0,
    {
        self.velocity.magnitude()
    }

    /// The lane change progress lies between 0 and 1.
    pub open spec fn progress_in_range(&self) -> bool {
        0 <= self.lane_change_progress <= SCALE
    }

    /// The current lane and the target lane, if any, are lanes of the road.
    pub open spec fn lanes_within(&self, lane_count: u32) -> bool {
        &&& 1 <= self.current_lane <= lane_count
        &&& match self.target_lane {
            Some(t) => 1 <= t <= lane_count,
            None => true,
        }
    }

    /// The car with its exit intent set at time `now`.
    pub open spec fn flagged_for_exit(self, now: i64) -> Car {
        Car { marked_for_exit: true, exit_time: Some(now), ..self }
    }

    /// Drops the oldest speed sample and appends the current speed.
    pub fn update_speed_history(&mut self)
        ensures
            final(self).speed_history@ == seq![
                old(self).speed_history@[1],
                old(self).speed_history@[2],
                old(self).speed_spec() as i64,
            ],
            final(self).id == old(self).id,
            final(self).position == old(self).position,
            final(self).velocity == old(self).velocity,
            final(self).acceleration == old(self).acceleration,
            final(self).heading == old(self).heading,
            final(self).lane_angle == old(self).lane_angle,
            final(self).length == old(self).length,
            final(self).width == old(self).width,
            final(self).max_acceleration == old(self).max_acceleration,
            final(self).max_deceleration == old(self).max_deceleration,
            final(self).preferred_speed == old(self).preferred_speed,
            final(self).current_lane == old(self).current_lane,
            final(self).target_lane == old(self).target_lane,
            final(self).lane_change_progress == old(self).lane_change_progress,
            final(self).behavior == old(self).behavior,
            final(self).behavior_type == old(self).behavior_type,
            final(self).car_type == old(self).car_type,
            final(self).marked_for_exit == old(self).marked_for_exit,
            final(self).spawn_time == old(self).spawn_time,
            final(self).exit_time == old(self).exit_time,
    {
        let current_speed: i64 = self.velocity.magnitude();
        self.speed_history[0] = self.speed_history[1];
        self.speed_history[1] = self.speed_history[2];
        self.speed_history[2] = current_speed;
    }

    /// The mean of the three speed samples, rounded toward zero.
    pub open spec fn average_speed_spec(&self) -> int {
        quot(self.speed_history@[0] + self.speed_history@[1] + self.speed_history@[2], 3)
    }

    /// The mean of the recent speeds.
    pub fn average_speed(&self) -> (r: i64)
        ensures
            r == self.average_speed_spec(),
    {
        let sum: i128 = self.speed_history[0] as i128 + self.speed_history[1] as i128
            + self.speed_history[2] as i128;
        proof {
            lemma_quot_bound(sum as int, 3);
        }
        let mean: i128 = div_trunc(sum, 3);
        assert(-0x8000_0000_0000_0000 <= mean <= 0x7fff_ffff_ffff_ffff) by {
            if sum >= 0 {
                assert(sum / 3 <= 0x7fff_ffff_ffff_ffff);
            } else {
                assert((-sum) / 3 <= 0x8000_0000_0000_0000);
            }
        }
        mean as i64
    }

    /// A copy of the car.
    pub fn copy(&self) -> (r: Car)
        ensures
            r == *self,
    {
        Car {
            id: self.id,
            position: self.position,
            velocity: self.velocity,
            acceleration: self.acceleration,
            heading: self.heading,
            lane_angle: self.lane_angle,
            length: self.length,
            width: self.width,
            max_acceleration: self.max_acceleration,
            max_deceleration: self.max_deceleration,
            preferred_speed: self.preferred_speed,
            current_lane: self.current_lane,
            target_lane: self.target_lane,
            lane_change_progress: self.lane_change_progress,
            behavior: self.behavior,
            behavior_type: self.behavior_type.clone(),
            car_type: self.car_type.clone(),
            speed_history: self.speed_history,
            marked_for_exit: self.marked_for_exit,
            spawn_time: self.spawn_time,
            exit_time: self.exit_time,
        }
    }
}

impl Clone for Car {
    fn clone(&self) -> (r: Self)
        ensures
            r == *self,
    {
        self.copy()
    }
}

} // verus!
