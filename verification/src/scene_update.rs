//! The decisions a `moveit_msgs/PlanningScene` message takes before it
//! touches a scene: full or diff, which fields a diff states, which fields
//! are refused, and which of a message's frames and attached objects are
//! acceptable.
//!
//! The `is_diff` flag is read once, by [`PlanningSceneUpdate::classify`];
//! the two arms then apply a full scene (which replaces) or a diff (which
//! applies only what it states).

use vstd::prelude::*;
use vstd::string::StringExecFns;

use crate::cartesian::{frames_match, same_frame};
use crate::error::Error;
use crate::text::{decimal, decimal_string};
use crate::wire::{operation_message, spec_collision_object_operation, CollisionObjectOperation};

verus! {

/// A planning-scene message, classified once by its `is_diff` flag.
#[derive(Debug, Clone)]
pub enum PlanningSceneUpdate<M> {
    /// `is_diff` is false: the message is the whole scene.
    Full(M),
    /// `is_diff` is true: the message is a set of changes.
    Diff(M),
}

impl<M> PlanningSceneUpdate<M> {
    /// Wraps the message by its flag.
    pub fn classify(msg: M, is_diff: bool) -> (u: PlanningSceneUpdate<M>)
        ensures
            is_diff ==> u == PlanningSceneUpdate::Diff(msg),
            !is_diff ==> u == PlanningSceneUpdate::Full(msg),
    {
        if is_diff {
            PlanningSceneUpdate::Diff(msg)
        } else {
            PlanningSceneUpdate::Full(msg)
        }
    }
}

/// A message's model name agrees with the loaded model: it makes no claim
/// (empty), or names that model.
pub open spec fn spec_model_name_matches(loaded: Seq<char>, claimed: Seq<char>) -> bool {
    claimed.len() == 0 || claimed == loaded
}

/// Whether a message's `robot_model_name` agrees with the loaded model's
/// name. A mismatch is advice for the caller to report, not a refusal.
pub fn robot_model_name_matches(loaded_model_name: &str, robot_model_name: &str) -> (b: bool)
    ensures
        b == spec_model_name_matches(loaded_model_name@, robot_model_name@),
{
    robot_model_name.is_empty() || robot_model_name.to_owned() == loaded_model_name.to_owned()
}

/// The refusal of a non-empty field the scene cannot represent.
pub open spec fn unrepresentable_message(field: Seq<char>, n: nat, reason: Seq<char>) -> Seq<char> {
    "PlanningScene."@ + field + " has "@ + decimal(n) + " entr(ies) but "@ + reason
}

/// Why link padding and scale cannot be applied.
pub open spec fn no_collision_environment() -> Seq<char> {
    "cspace_planning::scene::PlanningScene owns no collision environment to apply them to (see cspace_collision::LinkPaddingScale)"@
}

/// Why object colours cannot be applied.
pub open spec fn no_color_map() -> Seq<char> {
    "cspace_planning::scene::PlanningScene has no object-color map"@
}

fn unrepresentable(field: &str, n: usize, reason: &str) -> (e: Error)
    ensures
        e matches Error::Other(m) && m@ == unrepresentable_message(field@, n as nat, reason@),
{
    let mut m = String::from_str("PlanningScene.");
    m.append(field);
    m.append(" has ");
    let d = decimal_string(n as u64);
    m.append(d.as_str());
    m.append(" entr(ies) but ");
    m.append(reason);
    Error::Other(m)
}

/// Refuses, in this order, a non-empty `link_padding`, `link_scale` or
/// `object_colors`: the scene has nowhere to keep them, and dropping them
/// would be a silent partial success. Empty is the same as absent.
pub fn reject_unrepresentable_fields(link_padding: usize, link_scale: usize, object_colors: usize) -> (r:
    Result<(), Error>)
    ensures
        (r is Ok) == (link_padding == 0 && link_scale == 0 && object_colors == 0),
        link_padding > 0 ==> (r matches Err(Error::Other(m)) && m@ == unrepresentable_message(
            "link_padding"@,
            link_padding as nat,
            no_collision_environment(),
        )),
        link_padding == 0 && link_scale > 0 ==> (r matches Err(Error::Other(m)) && m@
            == unrepresentable_message("link_scale"@, link_scale as nat, no_collision_environment())),
        link_padding == 0 && link_scale == 0 && object_colors > 0 ==> (r matches Err(Error::Other(m))
            && m@ == unrepresentable_message("object_colors"@, object_colors as nat, no_color_map())),
{
    proof {
        reveal_strlit("cspace_planning::scene::PlanningScene owns no collision environment to apply them to (see cspace_collision::LinkPaddingScale)");
        reveal_strlit("cspace_planning::scene::PlanningScene has no object-color map");
        reveal_strlit("link_padding");
        reveal_strlit("link_scale");
        reveal_strlit("object_colors");
    }
    if link_padding > 0 {
        return Err(
            unrepresentable(
                "link_padding",
                link_padding,
                "cspace_planning::scene::PlanningScene owns no collision environment to apply them to (see cspace_collision::LinkPaddingScale)",
            ),
        );
    }
    if link_scale > 0 {
        return Err(
            unrepresentable(
                "link_scale",
                link_scale,
                "cspace_planning::scene::PlanningScene owns no collision environment to apply them to (see cspace_collision::LinkPaddingScale)",
            ),
        );
    }
    if object_colors > 0 {
        return Err(unrepresentable("object_colors", object_colors, "cspace_planning::scene::PlanningScene has no object-color map"));
    }
    Ok(())
}

/// The refusal of a fixed-frame transform that does not lead into the
/// planning frame.
pub open spec fn foreign_child_message(child: Seq<char>, target: Seq<char>) -> Seq<char> {
    "PlanningScene.fixed_frame_transforms entry is to frame '"@ + child + "', but frame '"@ + target
        + "' was expected"@
}

/// A fixed-frame transform must lead into the planning frame. Transforms
/// are merged into the scene's, never replace them; this check is made per
/// entry, in order, before that entry is merged.
pub fn check_fixed_frame_child(child_frame_id: &str, planning_frame: &str) -> (r: Result<(), Error>)
    ensures
        (r is Ok) == same_frame(child_frame_id@, planning_frame@),
        r matches Err(e) ==> (e matches Error::Other(m) && m@ == foreign_child_message(
            child_frame_id@,
            planning_frame@,
        )),
{
    if frames_match(child_frame_id, planning_frame) {
        return Ok(());
    }
    let mut m = String::from_str("PlanningScene.fixed_frame_transforms entry is to frame '");
    m.append(child_frame_id);
    m.append("', but frame '");
    m.append(planning_frame);
    m.append("' was expected");
    Err(Error::Other(m))
}

/// What a diff message states, counted as its fields' lengths.
#[derive(Debug, Clone, Copy, PartialEq, Eq, Structural)]
pub struct DiffFields {
    pub name_len: usize,
    pub fixed_frame_transforms: usize,
    pub multi_dof_joint_names: usize,
    pub joint_names: usize,
    pub attached_collision_objects: usize,
    pub acm_entry_names: usize,
    pub octomap_id_len: usize,
}

/// Which parts of a scene a diff changes: each only when the diff states
/// it. Collision objects are always applied, one by one.
#[derive(Debug, Clone, Copy, PartialEq, Eq, Structural)]
pub struct DiffPlan {
    pub set_name: bool,
    pub merge_fixed_frames: bool,
    pub set_robot_state: bool,
    pub set_acm: bool,
    pub apply_octomap: bool,
}

/// The parts a diff states: a non-empty name; any fixed-frame transform;
/// a robot state naming any joint or attached object; a matrix naming any
/// entry; an octomap with an id.
pub open spec fn spec_diff_plan(f: DiffFields) -> DiffPlan {
    DiffPlan {
        set_name: f.name_len > 0,
        merge_fixed_frames: f.fixed_frame_transforms > 0,
        set_robot_state: f.multi_dof_joint_names > 0 || f.joint_names > 0 || f.attached_collision_objects > 0,
        set_acm: f.acm_entry_names > 0,
        apply_octomap: f.octomap_id_len > 0,
    }
}

/// Decides which parts of a scene a diff changes.
pub fn diff_plan(fields: DiffFields) -> (p: DiffPlan)
    ensures
        p == spec_diff_plan(fields),
{
    DiffPlan {
        set_name: fields.name_len > 0,
        merge_fixed_frames: fields.fixed_frame_transforms > 0,
        set_robot_state: fields.multi_dof_joint_names > 0 || fields.joint_names > 0
            || fields.attached_collision_objects > 0,
        set_acm: fields.acm_entry_names > 0,
        apply_octomap: fields.octomap_id_len > 0,
    }
}

/// The refusal of a non-ADD attached object inside a robot state that is
/// the whole truth.
pub open spec fn attached_in_full_state_message(id: Seq<char>, operation: u8) -> Seq<char> {
    "RobotState.attached_collision_objects['"@ + id + "'] asks for operation "@ + decimal(operation as nat)
        + " on a RobotState that is not marked is_diff; use the attached_collision_object topic for anything but ADD"@
}

/// An attached object stated inside a robot state that is not a diff must
/// be an ADD: "modify what is attached" means nothing against a state that
/// claims to be complete. Inside a diff the operation is not examined
/// here.
pub fn check_attached_in_state(is_diff: bool, id: &str, operation: u8) -> (r: Result<(), Error>)
    ensures
        is_diff ==> r is Ok,
        !is_diff ==> match spec_collision_object_operation(operation) {
            Some(CollisionObjectOperation::Add) => r is Ok,
            Some(_) => r matches Err(Error::Other(m)) && m@ == attached_in_full_state_message(id@, operation),
            None => r matches Err(Error::Construct(m)) && m@ == operation_message(operation),
        },
{
    if is_diff {
        return Ok(());
    }
    match CollisionObjectOperation::try_from(operation) {
        Err(e) => Err(e),
        Ok(CollisionObjectOperation::Add) => Ok(()),
        Ok(_) => {
            let mut m = String::from_str("RobotState.attached_collision_objects['");
            m.append(id);
            m.append("'] asks for operation ");
            let d = decimal_string(operation as u64);
            m.append(d.as_str());
            m.append(
                " on a RobotState that is not marked is_diff; use the attached_collision_object topic for anything but ADD",
            );
            Err(Error::Other(m))
        },
    }
}

/// The refusal of an octomap of another type.
pub open spec fn octomap_type_message(id: Seq<char>) -> Seq<char> {
    "received octomap is of type '"@ + id + "' but type 'OcTree' is expected"@
}

/// Whether an octomap is inserted after the previous one is cleared: not
/// when it carries no data; refused when it is not an `OcTree`.
pub fn octomap_action(data_len: usize, id: &str) -> (r: Result<bool, Error>)
    ensures
        data_len == 0 ==> r == Ok::<bool, Error>(false),
        data_len > 0 && id@ == "OcTree"@ ==> r == Ok::<bool, Error>(true),
        data_len > 0 && id@ != "OcTree"@ ==> (r matches Err(Error::Other(m)) && m@ == octomap_type_message(id@)),
{
    if data_len == 0 {
        return Ok(false);
    }
    if id.to_owned() == "OcTree".to_owned() {
        return Ok(true);
    }
    let mut m = String::from_str("received octomap is of type '");
    m.append(id);
    m.append("' but type 'OcTree' is expected");
    Err(Error::Other(m))
}

/// A diff changes each part of the scene exactly when it states at least
/// one entry for it, whatever it states of the other parts: a single
/// fixed-frame transform is merged, a single joint or attached object sets
/// the robot state, and a part left empty is left alone.
pub proof fn a_diff_changes_exactly_the_parts_it_states(f: DiffFields, g: DiffFields)
    ensures
        spec_diff_plan(f).set_name == (f.name_len >= 1),
        spec_diff_plan(f).merge_fixed_frames == (f.fixed_frame_transforms >= 1),
        spec_diff_plan(f).set_robot_state == (f.multi_dof_joint_names + f.joint_names
            + f.attached_collision_objects >= 1),
        spec_diff_plan(f).set_acm == (f.acm_entry_names >= 1),
        spec_diff_plan(f).apply_octomap == (f.octomap_id_len >= 1),
        f.fixed_frame_transforms == g.fixed_frame_transforms ==> spec_diff_plan(f).merge_fixed_frames
            == spec_diff_plan(g).merge_fixed_frames,
        f.acm_entry_names == g.acm_entry_names ==> spec_diff_plan(f).set_acm == spec_diff_plan(g).set_acm,
        f.octomap_id_len == g.octomap_id_len ==> spec_diff_plan(f).apply_octomap == spec_diff_plan(
            g,
        ).apply_octomap,
{
}

} // verus!
