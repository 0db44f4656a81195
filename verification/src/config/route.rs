//! The road network: geometry, entry and exit points, traffic rules.
use vstd::prelude::*;
use crate::config::ConfigError;
use crate::config::first_defect;
use crate::config::lemma_all_sound;
use crate::config::lemma_no_defect;
use crate::config::Validate;
use crate::fixed::FULL_TURN_DEG;
use crate::fixed::SCALE;
use crate::text::owned_text;
use crate::text::same_text;

verus! {

/// The supported road topologies.
#[derive(Debug, Clone, Copy, PartialEq, Eq, Structural)]
pub enum GeometryKind {
    /// A circular multi-lane loop.
    Donut,
    /// A four-way interchange with straight segments and curved ramps.
    Cloverleaf,
}

impl GeometryKind {
    /// The topology that a geometry type names.
    pub open spec fn of_name(name: Seq<char>) -> Option<GeometryKind> {
        if name == "donut"@ {
            Some(GeometryKind::Donut)
        } else if name == "cloverleaf"@ {
            Some(GeometryKind::Cloverleaf)
        } else {
            None
        }
    }

    /// Reads a geometry type; `None` for a name that is not supported.
    pub fn parse(name: &str) -> (r: Option<GeometryKind>)
        ensures
            r == Self::of_name(name@),
    {
        let wanted = owned_text(name);
        if same_text(&wanted, "donut") {
            Some(GeometryKind::Donut)
        } else if same_text(&wanted, "cloverleaf") {
            Some(GeometryKind::Cloverleaf)
        } else {
            None
        }
    }
}

pub struct RouteConfig {
    pub route: Route,
}

pub struct Route {
    pub name: String,
    pub description: String,
    pub geometry: RouteGeometry,
    pub entries: Vec<EntryPoint>,
    pub exits: Vec<ExitPoint>,
    pub traffic_rules: TrafficRules,
    pub surface: RoadSurface,
    pub signals: TrafficSignals,
}

/// Dimensions of the road, in millionths of a metre.
pub struct RouteGeometry {
    pub geometry_type: String,
    pub center_x: i64,
    pub center_y: i64,
    pub inner_radius: i64,
    pub outer_radius: i64,
    pub lane_width: i64,
    pub lane_count: u32,
    pub highway_width: Option<i64>,
    pub highway_length: Option<i64>,
    pub loop_radius: Option<i64>,
    pub ramp_width: Option<i64>,
    pub ramp_lanes: Option<u32>,
}

/// Where cars are created. The angle is in millionths of a degree.
pub struct EntryPoint {
    pub id: String,
    pub entry_type: String,
    pub angle: i64,
    pub position: String,
    pub lane: u32,
    pub merge_distance: i64,
    pub loop_entry_angle: Option<i64>,
}

/// Where cars are removed. The angle is in millionths of a degree.
pub struct ExitPoint {
    pub id: String,
    pub exit_type: String,
    pub angle: i64,
    pub position: String,
    pub lane: u32,
    pub exit_distance: i64,
    pub loop_exit_angle: Option<i64>,
}

/// Speeds in millionths of a metre per second, times in millionths of a second.
#[derive(Debug, Clone, Copy, PartialEq, Eq, Structural)]
pub struct TrafficRules {
    pub speed_limit: i64,
    pub min_speed: i64,
    pub following_distance: i64,
    pub lane_change_time: i64,
}

#[derive(Debug, Clone, Copy, PartialEq, Eq, Structural)]
pub struct RoadSurface {
    pub friction_coefficient: i64,
    pub banking_angle: i64,
}

#[derive(Debug, Clone, Copy, PartialEq, Eq, Structural)]
pub struct TrafficSignals {
}

impl Default for TrafficSignals {
    fn default() -> (r: Self)
        ensures
            r == (TrafficSignals {  }),
    {
        TrafficSignals {  }
    }
}

impl TrafficRules {
    pub open spec fn defect(&self) -> Option<ConfigError> {
        if self.speed_limit <= 0 || self.min_speed <= 0 {
            Some(ConfigError::NonPositiveSpeedLimits)
        } else if self.min_speed >= self.speed_limit {
            Some(ConfigError::MinSpeedNotBelowLimit)
        } else if self.following_distance <= 0 || self.lane_change_time <= 0 {
            Some(ConfigError::NonPositiveFollowingOrLaneChange)
        } else {
            None
        }
    }

    pub open spec fn valid(&self) -> bool {
        self.defect() is None
    }
}

impl RouteGeometry {
    pub open spec fn defect(&self) -> Option<ConfigError> {
        if GeometryKind::of_name(self.geometry_type@) is None {
            Some(ConfigError::UnsupportedGeometry)
        } else if self.inner_radius >= self.outer_radius {
            Some(ConfigError::InnerRadiusNotBelowOuter)
        } else if self.lane_width <= 0 || self.lane_count == 0 {
            Some(ConfigError::NonPositiveLanes)
        } else if self.inner_radius < 0 {
            Some(ConfigError::NegativeInnerRadius)
        } else {
            None
        }
    }

    pub open spec fn valid(&self) -> bool {
        self.defect() is None
    }

    pub fn copy(&self) -> (r: Self)
        ensures
            r == *self,
    {
        RouteGeometry {
            geometry_type: self.geometry_type.clone(),
            center_x: self.center_x,
            center_y: self.center_y,
            inner_radius: self.inner_radius,
            outer_radius: self.outer_radius,
            lane_width: self.lane_width,
            lane_count: self.lane_count,
            highway_width: self.highway_width,
            highway_length: self.highway_length,
            loop_radius: self.loop_radius,
            ramp_width: self.ramp_width,
            ramp_lanes: self.ramp_lanes,
        }
    }
}

impl Clone for RouteGeometry {
    fn clone(&self) -> (r: Self)
        ensures
            r == *self,
    {
        self.copy()
    }
}

impl EntryPoint {
    /// The entry names a lane of the road and an angle within one turn.
    pub open spec fn defect(&self, lane_count: u32) -> Option<ConfigError> {
        if self.lane == 0 || self.lane > lane_count {
            Some(ConfigError::EntryLaneOutOfRange)
        } else if self.angle < 0 || self.angle >= FULL_TURN_DEG {
            Some(ConfigError::EntryAngleOutOfRange)
        } else {
            None
        }
    }

    pub fn copy(&self) -> (r: Self)
        ensures
            r == *self,
    {
        EntryPoint {
            id: self.id.clone(),
            entry_type: self.entry_type.clone(),
            angle: self.angle,
            position: self.position.clone(),
            lane: self.lane,
            merge_distance: self.merge_distance,
            loop_entry_angle: self.loop_entry_angle,
        }
    }
}

impl Clone for EntryPoint {
    fn clone(&self) -> (r: Self)
        ensures
            r == *self,
    {
        self.copy()
    }
}

impl ExitPoint {
    /// The exit names a lane of the road and an angle within one turn.
    pub open spec fn defect(&self, lane_count: u32) -> Option<ConfigError> {
        if self.lane == 0 || self.lane > lane_count {
            Some(ConfigError::ExitLaneOutOfRange)
        } else if self.angle < 0 || self.angle >= FULL_TURN_DEG {
            Some(ConfigError::ExitAngleOutOfRange)
        } else {
            None
        }
    }

    pub fn copy(&self) -> (r: Self)
        ensures
            r == *self,
    {
        ExitPoint {
            id: self.id.clone(),
            exit_type: self.exit_type.clone(),
            angle: self.angle,
            position: self.position.clone(),
            lane: self.lane,
            exit_distance: self.exit_distance,
            loop_exit_angle: self.loop_exit_angle,
        }
    }
}

impl Clone for ExitPoint {
    fn clone(&self) -> (r: Self)
        ensures
            r == *self,
    {
        self.copy()
    }
}

impl RoadSurface {
    pub open spec fn defect(&self) -> Option<ConfigError> {
        if self.friction_coefficient <= 0 || self.friction_coefficient > SCALE {
            Some(ConfigError::FrictionOutOfRange)
        } else {
            None
        }
    }
}

/// A copy of a list of entry points.
pub fn copy_entries(list: &Vec<EntryPoint>) -> (r: Vec<EntryPoint>)
    ensures
        r@ == list@,
{
    let mut out: Vec<EntryPoint> = Vec::new();
    let mut i: usize = 0;
    while i < list.len()
        invariant
            i <= list.len(),
            out@ == list@.take(i as int),
        decreases list.len() - i,
    {
        out.push(list[i].copy());
        i += 1;
    }
    out
}

/// A copy of a list of exit points.
pub fn copy_exits(list: &Vec<ExitPoint>) -> (r: Vec<ExitPoint>)
    ensures
        r@ == list@,
{
    let mut out: Vec<ExitPoint> = Vec::new();
    let mut i: usize = 0;
    while i < list.len()
        invariant
            i <= list.len(),
            out@ == list@.take(i as int),
        decreases list.len() - i,
    {
        out.push(list[i].copy());
        i += 1;
    }
    out
}

impl Route {
    pub open spec fn defect(&self) -> Option<ConfigError> {
        let lanes = self.geometry.lane_count;
        if self.geometry.defect() is Some {
            self.geometry.defect()
        } else if first_defect(self.entries@, |e: EntryPoint| e.defect(lanes), 0) is Some {
            first_defect(self.entries@, |e: EntryPoint| e.defect(lanes), 0)
        } else if first_defect(self.exits@, |e: ExitPoint| e.defect(lanes), 0) is Some {
            first_defect(self.exits@, |e: ExitPoint| e.defect(lanes), 0)
        } else if self.traffic_rules.defect() is Some {
            self.traffic_rules.defect()
        } else {
            self.surface.defect()
        }
    }

    /// The route meets every documented constraint.
    pub open spec fn valid(&self) -> bool {
        &&& self.geometry.valid()
        &&& forall|i: int|
            0 <= i < self.entries@.len() ==> (#[trigger] self.entries@[i]).defect(
                self.geometry.lane_count,
            ) is None
        &&& forall|i: int|
            0 <= i < self.exits@.len() ==> (#[trigger] self.exits@[i]).defect(
                self.geometry.lane_count,
            ) is None
        &&& self.traffic_rules.valid()
        &&& self.surface.defect() is None
    }

    /// A route is valid exactly when it has no defect.
    pub proof fn lemma_valid_iff_no_defect(&self)
        ensures
            self.valid() <==> self.defect() is None,
    {
        let lanes = self.geometry.lane_count;
        let on_entry = |e: EntryPoint| e.defect(lanes);
        let on_exit = |e: ExitPoint| e.defect(lanes);
        if self.valid() {
            assert forall|j: int| 0 <= j < self.entries@.len() implies (#[trigger] on_entry(
                self.entries@[j],
            )) is None by {
                assert(self.entries@[j].defect(lanes) is None);
            }
            lemma_all_sound(self.entries@, on_entry, 0);
            assert forall|j: int| 0 <= j < self.exits@.len() implies (#[trigger] on_exit(
                self.exits@[j],
            )) is None by {
                assert(self.exits@[j].defect(lanes) is None);
            }
            lemma_all_sound(self.exits@, on_exit, 0);
        }
        if self.defect() is None {
            lemma_no_defect(self.entries@, on_entry, 0);
            lemma_no_defect(self.exits@, on_exit, 0);
            assert forall|i: int| 0 <= i < self.entries@.len() implies (
            #[trigger] self.entries@[i]).defect(lanes) is None by {
                assert(on_entry(self.entries@[i]) is None);
            }
            assert forall|i: int| 0 <= i < self.exits@.len() implies (
            #[trigger] self.exits@[i]).defect(lanes) is None by {
                assert(on_exit(self.exits@[i]) is None);
            }
        }
    }

    pub fn copy(&self) -> (r: Self)
        ensures
            r.name == self.name,
            r.description == self.description,
            r.geometry == self.geometry,
            r.entries@ == self.entries@,
            r.exits@ == self.exits@,
            r.traffic_rules == self.traffic_rules,
            r.surface == self.surface,
            r.signals == self.signals,
            r.valid() == self.valid(),
    {
        Route {
            name: self.name.clone(),
            description: self.description.clone(),
            geometry: self.geometry.copy(),
            entries: copy_entries(&self.entries),
            exits: copy_exits(&self.exits),
            traffic_rules: self.traffic_rules,
            surface: self.surface,
            signals: self.signals,
        }
    }
}

impl RouteConfig {
    pub open spec fn valid(&self) -> bool {
        self.route.valid()
    }

    /// A copy that agrees with its source on every field.
    pub fn copy(&self) -> (r: Self)
        ensures
            r.route.name == self.route.name,
            r.route.description == self.route.description,
            r.route.geometry == self.route.geometry,
            r.route.entries@ == self.route.entries@,
            r.route.exits@ == self.route.exits@,
            r.route.traffic_rules == self.route.traffic_rules,
            r.route.surface == self.route.surface,
            r.route.signals == self.route.signals,
            r.valid() == self.valid(),
    {
        RouteConfig { route: self.route.copy() }
    }

    /// A route is valid exactly when validation finds no defect.
    pub proof fn lemma_valid_iff_no_defect(&self)
        ensures
            self.valid() <==> self.defect() is None,
    {
        self.route.lemma_valid_iff_no_defect();
    }
}

impl Clone for RouteConfig {
    fn clone(&self) -> (r: Self)
        ensures
            r.route.geometry == self.route.geometry,
            r.route.entries@ == self.route.entries@,
            r.route.exits@ == self.route.exits@,
            r.route.traffic_rules == self.route.traffic_rules,
            r.route.surface == self.route.surface,
            r.valid() == self.valid(),
    {
        self.copy()
    }
}

fn check_geometry(g: &RouteGeometry) -> (r: Option<ConfigError>)
    ensures
        r == g.defect(),
{
    if GeometryKind::parse(g.geometry_type.as_str()).is_none() {
        Some(ConfigError::UnsupportedGeometry)
    } else if g.inner_radius >= g.outer_radius {
        Some(ConfigError::InnerRadiusNotBelowOuter)
    } else if g.lane_width <= 0 || g.lane_count == 0 {
        Some(ConfigError::NonPositiveLanes)
    } else if g.inner_radius < 0 {
        Some(ConfigError::NegativeInnerRadius)
    } else {
        None
    }
}

fn check_entries(entries: &Vec<EntryPoint>, lanes: u32) -> (r: Option<ConfigError>)
    ensures
        r == first_defect(entries@, |e: EntryPoint| e.defect(lanes), 0),
{
    let ghost check = |e: EntryPoint| e.defect(lanes);
    let mut i: usize = 0;
    while i < entries.len()
        invariant
            i <= entries.len(),
            first_defect(entries@, check, 0) == first_defect(entries@, check, i as int),
            check == (|e: EntryPoint| e.defect(lanes)),
        decreases entries.len() - i,
    {
        let e = &entries[i];
        if e.lane == 0 || e.lane > lanes {
            return Some(ConfigError::EntryLaneOutOfRange);
        }
        if e.angle < 0 || e.angle >= FULL_TURN_DEG {
            return Some(ConfigError::EntryAngleOutOfRange);
        }
        i += 1;
    }
    None
}

fn check_exits(exits: &Vec<ExitPoint>, lanes: u32) -> (r: Option<ConfigError>)
    ensures
        r == first_defect(exits@, |e: ExitPoint| e.defect(lanes), 0),
{
    let ghost check = |e: ExitPoint| e.defect(lanes);
    let mut i: usize = 0;
    while i < exits.len()
        invariant
            i <= exits.len(),
            first_defect(exits@, check, 0) == first_defect(exits@, check, i as int),
            check == (|e: ExitPoint| e.defect(lanes)),
        decreases exits.len() - i,
    {
        let e = &exits[i];
        if e.lane == 0 || e.lane > lanes {
            return Some(ConfigError::ExitLaneOutOfRange);
        }
        if e.angle < 0 || e.angle >= FULL_TURN_DEG {
            return Some(ConfigError::ExitAngleOutOfRange);
        }
        i += 1;
    }
    None
}

fn check_rules(rules: &TrafficRules) -> (r: Option<ConfigError>)
    ensures
        r == rules.defect(),
{
    if rules.speed_limit <= 0 || rules.min_speed <= 0 {
        Some(ConfigError::NonPositiveSpeedLimits)
    } else if rules.min_speed >= rules.speed_limit {
        Some(ConfigError::MinSpeedNotBelowLimit)
    } else if rules.following_distance <= 0 || rules.lane_change_time <= 0 {
        Some(ConfigError::NonPositiveFollowingOrLaneChange)
    } else {
        None
    }
}

impl Validate for RouteConfig {
    open spec fn defect(&self) -> Option<ConfigError> {
        self.route.defect()
    }

    fn validate(&self) -> (r: Result<(), ConfigError>) {
        let lanes = self.route.geometry.lane_count;
        if let Some(e) = check_geometry(&self.route.geometry) {
            return Err(e);
        }
        if let Some(e) = check_entries(&self.route.entries, lanes) {
            return Err(e);
        }
        if let Some(e) = check_exits(&self.route.exits, lanes) {
            return Err(e);
        }
        if let Some(e) = check_rules(&self.route.traffic_rules) {
            return Err(e);
        }
        let surface = &self.route.surface;
        if surface.friction_coefficient <= 0 || surface.friction_coefficient > SCALE {
            return Err(ConfigError::FrictionOutOfRange);
        }
        Ok(())
    }
}

} // verus!
