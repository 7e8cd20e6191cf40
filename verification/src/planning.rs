//! The decisions around a motion-plan request: which requests can be
//! represented, which pipeline a request names, how a failure is reported,
//! and how a state-validity query is sized and answered.

use vstd::prelude::*;
use vstd::string::StringExecFns;

use crate::error::Error;

verus! {

/// The pipeline an empty `pipeline_id` selects.
pub const DEFAULT_PIPELINE_ID: &'static str = "rrt_connect";

/// The planner name a pipeline id selects: the default for an empty id,
/// else the id itself.
pub open spec fn spec_pipeline_name(pipeline_id: Seq<char>) -> Seq<char> {
    if pipeline_id.len() == 0 {
        DEFAULT_PIPELINE_ID@
    } else {
        pipeline_id
    }
}

/// The planner name a pipeline id selects.
pub fn pipeline_name(pipeline_id: &str) -> (s: String)
    ensures
        s@ == spec_pipeline_name(pipeline_id@),
{
    if pipeline_id.is_empty() {
        DEFAULT_PIPELINE_ID.to_owned()
    } else {
        pipeline_id.to_owned()
    }
}

/// The report of a pipeline id no planner is registered under.
pub open spec fn unknown_pipeline_message(pipeline_id: Seq<char>) -> Seq<char> {
    "no planner is registered as '"@ + pipeline_id + "'"@
}

/// Why a plan-only call produced no trajectory, as a sentence. The id is
/// the one that arrived, empty included.
pub fn unknown_pipeline_text(pipeline_id: &str) -> (s: String)
    ensures
        s@ == unknown_pipeline_message(pipeline_id@),
{
    let mut s = String::from_str("no planner is registered as '");
    s.append(pipeline_id);
    s.append("'");
    s
}

/// A robot state message that states nothing: not a diff, and naming no
/// joint and no attached object.
pub open spec fn spec_robot_state_is_default(
    is_diff: bool,
    attached_collision_objects: nat,
    joint_names: nat,
    multi_dof_joint_names: nat,
) -> bool {
    !is_diff && attached_collision_objects == 0 && joint_names == 0 && multi_dof_joint_names == 0
}

/// Whether a robot state message states nothing.
pub fn robot_state_msg_is_default(
    is_diff: bool,
    attached_collision_objects: usize,
    joint_names: usize,
    multi_dof_joint_names: usize,
) -> (b: bool)
    ensures
        b == spec_robot_state_is_default(
            is_diff,
            attached_collision_objects as nat,
            joint_names as nat,
            multi_dof_joint_names as nat,
        ),
{
    !is_diff && attached_collision_objects == 0 && joint_names == 0 && multi_dof_joint_names == 0
}

/// The refusal of a request that names a start state.
pub open spec fn start_state_message() -> Seq<char> {
    "MotionPlanRequest.start_state is not representable: PlanningRequest has no start-state field, and silently assuming a different start state than the one requested would change what the plan actually solves for"@
}

/// The refusal of a request that carries reference trajectories.
pub open spec fn reference_trajectories_message() -> Seq<char> {
    "MotionPlanRequest.reference_trajectories has no PlanningRequest field this round"@
}

/// A plan request is representable only with a start state that states
/// nothing and no reference trajectories; the start state is examined
/// first. Refusing beats planning from a different start than asked.
pub fn check_request_representable(start_state_is_default: bool, reference_trajectories: usize) -> (r:
    Result<(), Error>)
    ensures
        (r is Ok) == (start_state_is_default && reference_trajectories == 0),
        !start_state_is_default ==> (r matches Err(Error::Other(m)) && m@ == start_state_message()),
        start_state_is_default && reference_trajectories > 0 ==> (r matches Err(Error::Other(m)) && m@
            == reference_trajectories_message()),
{
    if !start_state_is_default {
        return Err(
            Error::Other(
                String::from_str(
                    "MotionPlanRequest.start_state is not representable: PlanningRequest has no start-state field, and silently assuming a different start state than the one requested would change what the plan actually solves for",
                ),
            ),
        );
    }
    if reference_trajectories > 0 {
        return Err(
            Error::Other(String::from_str("MotionPlanRequest.reference_trajectories has no PlanningRequest field this round")),
        );
    }
    Ok(())
}

/// The refusal of a state message marked as a diff.
pub open spec fn diff_state_message() -> Seq<char> {
    "RobotState.is_diff is not representable: a state is built from the model, not applied onto another state"@
}

/// The refusal of a state message with multi-DOF joints.
pub open spec fn multi_dof_state_message() -> Seq<char> {
    "RobotState.multi_dof_joint_state has no representation"@
}

/// The refusal of a state message carrying attached objects.
pub open spec fn attached_state_message() -> Seq<char> {
    "RobotState.attached_collision_objects has no representation on a state"@
}

/// The refusal of a joint state whose names and positions do not pair up.
pub open spec fn unpaired_positions_message() -> Seq<char> {
    "RobotState.joint_state has a different number of names and positions"@
}

/// A robot state message can be set on a state built from the model only
/// when it is not a diff, names no multi-DOF joint, carries no attached
/// object, and gives one position per joint name; the checks run in that
/// order, and the first that fails is reported.
pub fn check_state_representable(
    is_diff: bool,
    multi_dof_joint_names: usize,
    attached_collision_objects: usize,
    joint_names: usize,
    joint_positions: usize,
) -> (r: Result<(), Error>)
    ensures
        (r is Ok) == (!is_diff && multi_dof_joint_names == 0 && attached_collision_objects == 0
            && joint_names == joint_positions),
        is_diff ==> (r matches Err(Error::Other(m)) && m@ == diff_state_message()),
        !is_diff && multi_dof_joint_names > 0 ==> (r matches Err(Error::Other(m)) && m@
            == multi_dof_state_message()),
        !is_diff && multi_dof_joint_names == 0 && attached_collision_objects > 0 ==> (r matches Err(
            Error::Other(m),
        ) && m@ == attached_state_message()),
        !is_diff && multi_dof_joint_names == 0 && attached_collision_objects == 0 && joint_names
            != joint_positions ==> (r matches Err(Error::Other(m)) && m@ == unpaired_positions_message()),
{
    if is_diff {
        return Err(
            Error::Other(
                String::from_str(
                    "RobotState.is_diff is not representable: a state is built from the model, not applied onto another state",
                ),
            ),
        );
    }
    if multi_dof_joint_names > 0 {
        return Err(Error::Other(String::from_str("RobotState.multi_dof_joint_state has no representation")));
    }
    if attached_collision_objects > 0 {
        return Err(
            Error::Other(String::from_str("RobotState.attached_collision_objects has no representation on a state")),
        );
    }
    if joint_names != joint_positions {
        return Err(
            Error::Other(String::from_str("RobotState.joint_state has a different number of names and positions")),
        );
    }
    Ok(())
}

/// The refusal of a trajectory with multi-DOF content.
pub open spec fn multi_dof_trajectory_message() -> Seq<char> {
    "RobotTrajectory.multi_dof_joint_trajectory has no representation (the same gap as RobotState.multi_dof_joint_state)"@
}

/// A trajectory message is decoded only when its multi-DOF part is empty:
/// no joint names and no points.
pub fn check_trajectory_single_dof(multi_dof_joint_names: usize, multi_dof_points: usize) -> (r: Result<
    (),
    Error,
>)
    ensures
        (r is Ok) == (multi_dof_joint_names == 0 && multi_dof_points == 0),
        r matches Err(e) ==> (e matches Error::Other(m) && m@ == multi_dof_trajectory_message()),
{
    if multi_dof_joint_names > 0 || multi_dof_points > 0 {
        return Err(
            Error::Other(
                String::from_str(
                    "RobotTrajectory.multi_dof_joint_trajectory has no representation (the same gap as RobotState.multi_dof_joint_state)",
                ),
            ),
        );
    }
    Ok(())
}

/// The group name a response reports: the trajectory's group, and only
/// when the trajectory has waypoints.
pub fn response_group_name(trajectory_is_empty: bool, trajectory_group: &str) -> (s: String)
    ensures
        trajectory_is_empty ==> s@.len() == 0,
        !trajectory_is_empty ==> s@ == trajectory_group@,
{
    if trajectory_is_empty {
        String::new()
    } else {
        trajectory_group.to_owned()
    }
}

/// The error code a failed plan is answered with.
#[derive(Debug, Clone, Copy, PartialEq, Eq, Structural)]
pub enum PlanFailureKind {
    /// The request could not be represented (`INVALID_GOAL_CONSTRAINTS`).
    InvalidGoalConstraints,
    /// The pipeline did not resolve, the plan did not come out, or the
    /// answer could not be encoded (`FAILURE`).
    Failure,
}

/// Where in answering a plan request a failure happened.
#[derive(Debug, Clone, Copy, PartialEq, Eq, Structural)]
pub enum PlanStage {
    /// Converting the wire request.
    DecodeRequest,
    /// Resolving the pipeline and planning.
    Plan,
    /// Encoding the response.
    EncodeResponse,
}

/// A failed plan: its code and its message.
#[derive(Debug, Clone, PartialEq, Eq)]
pub struct PlanFailure {
    pub kind: PlanFailureKind,
    pub message: String,
}

/// The message of a failure at a stage, given the failure's own text.
pub open spec fn plan_failure_message(stage: PlanStage, detail: Seq<char>) -> Seq<char> {
    match stage {
        PlanStage::DecodeRequest => "MotionPlanRequest -> PlanningRequest: "@ + detail,
        PlanStage::Plan => detail,
        PlanStage::EncodeResponse => "PlanningResponse -> MotionPlanResponse: "@ + detail,
    }
}

/// How a failure at each stage is answered: a request that does not
/// convert is an invalid goal, everything later a plain failure.
pub fn plan_failure(stage: PlanStage, detail: &str) -> (f: PlanFailure)
    ensures
        f.kind == (if stage == PlanStage::DecodeRequest {
            PlanFailureKind::InvalidGoalConstraints
        } else {
            PlanFailureKind::Failure
        }),
        f.message@ == plan_failure_message(stage, detail@),
{
    match stage {
        PlanStage::DecodeRequest => {
            let mut m = String::from_str("MotionPlanRequest -> PlanningRequest: ");
            m.append(detail);
            PlanFailure { kind: PlanFailureKind::InvalidGoalConstraints, message: m }
        },
        PlanStage::Plan => PlanFailure { kind: PlanFailureKind::Failure, message: detail.to_owned() },
        PlanStage::EncodeResponse => {
            let mut m = String::from_str("PlanningResponse -> MotionPlanResponse: ");
            m.append(detail);
            PlanFailure { kind: PlanFailureKind::Failure, message: m }
        },
    }
}

/// How many contacts and cost sources a state-validity query asks for:
/// with `n` the world's objects plus the links with collision geometry, up
/// to `n * n` contacts and `n` cost sources. `None` when `n * n` does not
/// fit in a `usize`.
pub fn contact_budget(world_objects: usize, links_with_geometry: usize) -> (r: Option<(usize, usize)>)
    ensures
        world_objects + links_with_geometry <= usize::MAX && (world_objects + links_with_geometry)
            * (world_objects + links_with_geometry) <= usize::MAX ==> r == Some(
            (
                ((world_objects + links_with_geometry) * (world_objects + links_with_geometry)) as usize,
                (world_objects + links_with_geometry) as usize,
            ),
        ),
        !(world_objects + links_with_geometry <= usize::MAX && (world_objects + links_with_geometry)
            * (world_objects + links_with_geometry) <= usize::MAX) ==> r is None,
{
    let n = match world_objects.checked_add(links_with_geometry) {
        Some(n) => n,
        None => return None,
    };
    match n.checked_mul(n) {
        Some(sq) => Some((sq, n)),
        None => None,
    }
}

/// A state is valid when it collides with nothing and satisfies every
/// stated constraint.
pub fn state_is_valid(collision: bool, constraints_satisfied: &[bool]) -> (b: bool)
    ensures
        b == (!collision && forall|i: int| 0 <= i < constraints_satisfied@.len() ==> #[trigger] constraints_satisfied@[i]),
{
    if collision {
        return false;
    }
    let n = constraints_satisfied.len();
    let mut i: usize = 0;
    while i < n
        invariant
            n == constraints_satisfied@.len(),
            i <= n,
            forall|j: int| 0 <= j < i ==> #[trigger] constraints_satisfied@[j],
        decreases n - i,
    {
        if !constraints_satisfied[i] {
            return false;
        }
        i = i + 1;
    }
    true
}

} // verus!
