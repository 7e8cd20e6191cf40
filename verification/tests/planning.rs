use moveit_ros::error::Error;
use moveit_ros::planning::{
    check_request_representable, check_state_representable, check_trajectory_single_dof, contact_budget, pipeline_name,
    plan_failure, response_group_name, robot_state_msg_is_default, state_is_valid,
    unknown_pipeline_text, PlanFailureKind, PlanStage, DEFAULT_PIPELINE_ID,
};

fn text(r: Result<(), Error>) -> String {
    match r {
        Ok(()) => panic!("expected a refusal"),
        Err(e) => e.message().clone(),
    }
}

#[test]
fn nondefault_start_state_is_rejected_not_silently_dropped() {
    let default = robot_state_msg_is_default(false, 0, 1, 0);
    assert!(!default);
    let m = text(check_request_representable(default, 0));
    assert!(m.contains("start_state is not representable"), "got: {m}");
}

#[test]
fn nonempty_reference_trajectories_is_rejected_not_silently_dropped() {
    let m = text(check_request_representable(true, 1));
    assert!(m.contains("reference_trajectories has no"), "got: {m}");
    assert!(check_request_representable(true, 0).is_ok());
}

#[test]
fn a_robot_state_is_default_only_when_it_states_nothing() {
    assert!(robot_state_msg_is_default(false, 0, 0, 0));
    assert!(!robot_state_msg_is_default(true, 0, 0, 0));
    assert!(!robot_state_msg_is_default(false, 1, 0, 0));
    assert!(!robot_state_msg_is_default(false, 0, 0, 1));
}

#[test]
fn response_group_name_comes_from_the_trajectory_and_only_when_it_has_waypoints() {
    assert_eq!(response_group_name(false, "arm"), "arm");
    assert_eq!(response_group_name(true, "arm"), "");
}

#[test]
fn multi_dof_joint_trajectory_is_rejected_not_silently_dropped() {
    let m = text(check_trajectory_single_dof(1, 0));
    assert!(m.contains("multi_dof_joint_trajectory"), "got: {m}");
}

#[test]
fn multi_dof_joint_trajectory_points_is_rejected_not_silently_dropped() {
    let m = text(check_trajectory_single_dof(0, 1));
    assert!(m.contains("multi_dof_joint_trajectory"), "got: {m}");
    assert!(check_trajectory_single_dof(0, 0).is_ok());
}

#[test]
fn an_empty_pipeline_id_resolves_to_the_named_default() {
    assert_eq!(pipeline_name(""), DEFAULT_PIPELINE_ID);
    assert_eq!(DEFAULT_PIPELINE_ID, "rrt_connect");
}

#[test]
fn a_named_pipeline_id_is_looked_up_verbatim() {
    assert_eq!(pipeline_name("chomp"), "chomp");
    assert_eq!(unknown_pipeline_text("nope"), "no planner is registered as 'nope'");
}

#[test]
fn plan_failures_are_coded_by_stage() {
    let f = plan_failure(PlanStage::DecodeRequest, "bad goal");
    assert_eq!(f.kind, PlanFailureKind::InvalidGoalConstraints);
    assert_eq!(f.message, "MotionPlanRequest -> PlanningRequest: bad goal");
    let f = plan_failure(PlanStage::Plan, "no planner is registered as 'x'");
    assert_eq!(f.kind, PlanFailureKind::Failure);
    assert_eq!(f.message, "no planner is registered as 'x'");
    let f = plan_failure(PlanStage::EncodeResponse, "bad state");
    assert_eq!(f.kind, PlanFailureKind::Failure);
    assert_eq!(f.message, "PlanningResponse -> MotionPlanResponse: bad state");
}

#[test]
fn the_contact_budget_squares_the_body_count() {
    assert_eq!(contact_budget(2, 3), Some((25, 5)));
    assert_eq!(contact_budget(0, 0), Some((0, 0)));
    assert_eq!(contact_budget(usize::MAX, 1), None);
    assert_eq!(contact_budget(usize::MAX / 2, 1), None);
}

#[test]
fn a_state_is_valid_without_collision_and_with_every_constraint_met() {
    assert!(state_is_valid(false, &[]));
    assert!(state_is_valid(false, &[true, true]));
    assert!(!state_is_valid(false, &[true, false]));
    assert!(!state_is_valid(true, &[true]));
}

#[test]
fn a_state_message_is_refused_for_its_first_unrepresentable_part() {
    assert!(check_state_representable(false, 0, 0, 2, 2).is_ok());
    assert!(check_state_representable(false, 0, 0, 0, 0).is_ok());
    assert!(text(check_state_representable(true, 1, 1, 1, 0)).contains("is_diff"));
    assert!(text(check_state_representable(false, 1, 1, 1, 0)).contains("multi_dof_joint_state"));
    assert!(text(check_state_representable(false, 0, 1, 1, 0)).contains("attached_collision_objects"));
    assert_eq!(
        text(check_state_representable(false, 0, 0, 2, 1)),
        "RobotState.joint_state has a different number of names and positions"
    );
}
