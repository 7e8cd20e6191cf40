//! Verified message-level logic for a MoveIt-style ROS 2 planning node:
//! decoding and validating wire values, the execution stop state machine,
//! the planner-parameter store, and the source census that keeps every
//! conversion pair covered by a round-trip test.

pub mod acm;
pub mod cartesian;
pub mod collision_object;
pub mod error;
pub mod coverage;
pub mod execution;
pub mod joint_states;
pub mod order;
pub mod param_map;
pub mod planner_params;
pub mod planning;
pub mod robot_description;
pub mod scene_update;
pub mod shapes;
pub mod text;
pub mod wire;
