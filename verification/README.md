# moveit_ros

The message-level logic of a MoveIt-style ROS 2 planning node, verified
with Verus: what every wire value decodes to, which requests are refused
and why, and the state the node keeps between requests.

## Layout

- `src/` — the verified library.
  - `execution.rs` — the `trajectory_execution_event` vocabulary and the
    stop state machine.
  - `planner_params.rs`, `param_map.rs`, `order.rs` — the planner
    configuration store behind `get_planner_params` / `set_planner_params`
    and `query_planner_interface`, with its read/write laws.
  - `cartesian.rs` — the decisions `compute_cartesian_path` takes before
    interpolating.
  - `acm.rs` — allowed-collision-matrix decoding, with its read-back law.
  - `collision_object.rs`, `scene_update.rs`, `shapes.rs` — the decisions
    of collision-object, attached-object and planning-scene messages.
  - `planning.rs` — plan-request checks, pipeline selection, failure codes
    and state-validity sizing.
  - `joint_states.rs`, `robot_description.rs`, `wire.rs` — the
    `joint_states` message, the robot description documents, and the small
    wire enumerations.
  - `coverage.rs`, `text.rs` — the census that keeps every two-way
    conversion covered by a round-trip test, and the text functions it is
    built from.
- `tests/` — tests of the library.
- `app/` — the node itself: ROS I/O, the planning crates, and the
  floating-point geometry, around the library's decisions.
