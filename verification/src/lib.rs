//! Waypoint-following sail simulation engine on a spherical earth.
//!
//! The library models every quantity as a fixed-point integer so that all of
//! its arithmetic can be reasoned about exactly: angles are carried in
//! micro-degrees, distances in millimeters, speeds in millimeters per second
//! and times in milliseconds.

pub mod angles;
pub mod calendar;
pub mod errors;
pub mod geodesy;
pub mod physics;
pub mod simulators;
pub mod trig;
pub mod vessels;

pub use crate::calendar::month_from_day;
pub use crate::errors::SimError;
pub use crate::errors::SimStatus;
pub use crate::errors::StepOutcome;
pub use crate::geodesy::bearing_udeg;
pub use crate::geodesy::destination;
pub use crate::geodesy::distance_mm;
pub use crate::geodesy::min_distance_point_to_great_circle;
pub use crate::geodesy::min_haversine_distance;
pub use crate::geodesy::min_orthogonal_projection_distance;
pub use crate::geodesy::point_at_ratio;
pub use crate::geodesy::rhumb_bearing_udeg;
pub use crate::geodesy::GeoPoint;
pub use crate::geodesy::EARTH_RADIUS_MM;
pub use crate::physics::get_north_angle_from_northward_and_eastward_property;
pub use crate::physics::PhysVec;
pub use crate::simulators::decide_heading;
pub use crate::simulators::sim_waypoint_mission;
pub use crate::simulators::sim_waypoint_mission_constant_velocity;
pub use crate::simulators::sim_waypoint_mission_mean_and_std_velocity;
pub use crate::simulators::sim_waypoint_mission_weather_begin;
pub use crate::simulators::sim_waypoint_mission_weather_step;
pub use crate::simulators::sim_waypoint_missions;
pub use crate::simulators::validate_route;
pub use crate::simulators::SimMethod;
pub use crate::simulators::Simulation;
pub use crate::simulators::WeatherRun;
pub use crate::vessels::Boat;
pub use crate::vessels::NavigationStatus;
pub use crate::vessels::Rudder;
pub use crate::vessels::Sail;
pub use crate::vessels::SailingLeg;
pub use crate::vessels::ShipLogEntry;
pub use crate::vessels::VesselSide;
