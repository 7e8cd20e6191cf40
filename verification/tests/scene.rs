use moveit_ros::collision_object::{
    add_plan, attach_source, attached_command, check_add_has_shapes, check_attach_geometry,
    check_move_target, command_operation, detach_selection, merge_touch_links,
    pair_shapes_with_poses, pair_subframes, place_shapes, remove_target, removal_result,
    shape_repose, subframes_to_keep, AddPlan, AttachSource, AttachedCommand, RemoveTarget,
    OCTOMAP_NS,
};
use moveit_ros::collision_object::{admit_add, admit_attach, AttachAdmission, GeometryCounts, Refusal};
use moveit_ros::error::Error;
use moveit_ros::scene_update::{
    check_attached_in_state, check_fixed_frame_child, diff_plan, octomap_action,
    reject_unrepresentable_fields, robot_model_name_matches, DiffFields, PlanningSceneUpdate,
};
use moveit_ros::wire::CollisionObjectOperation;

fn text<T: std::fmt::Debug>(r: Result<T, Error>) -> String {
    match r {
        Ok(v) => panic!("expected a refusal, got {v:?}"),
        Err(e) => e.message().clone(),
    }
}

fn strings(ns: &[&str]) -> Vec<String> {
    ns.iter().map(|n| n.to_string()).collect()
}

fn no_fields() -> DiffFields {
    DiffFields {
        name_len: 0,
        fixed_frame_transforms: 0,
        multi_dof_joint_names: 0,
        joint_names: 0,
        attached_collision_objects: 0,
        acm_entry_names: 0,
        octomap_id_len: 0,
    }
}

#[test]
fn is_diff_flag_selects_the_variant_and_nothing_else_reads_it() {
    assert!(matches!(PlanningSceneUpdate::classify("scene", true), PlanningSceneUpdate::Diff("scene")));
    assert!(matches!(PlanningSceneUpdate::classify("scene", false), PlanningSceneUpdate::Full("scene")));
}

#[test]
fn non_empty_link_padding_is_rejected() {
    let m = text(reject_unrepresentable_fields(1, 0, 0));
    assert!(m.contains("link_padding"), "got: {m}");
}

#[test]
fn non_empty_link_scale_is_rejected() {
    let m = text(reject_unrepresentable_fields(0, 1, 0));
    assert!(m.contains("link_scale"), "got: {m}");
}

#[test]
fn non_empty_object_colors_is_rejected() {
    let m = text(reject_unrepresentable_fields(0, 0, 1));
    assert!(m.contains("object_colors"), "got: {m}");
}

#[test]
fn empty_unrepresentable_fields_are_accepted_and_padding_is_reported_first() {
    assert!(reject_unrepresentable_fields(0, 0, 0).is_ok());
    let m = text(reject_unrepresentable_fields(2, 3, 4));
    assert_eq!(
        m,
        "PlanningScene.link_padding has 2 entr(ies) but cspace_planning::scene::PlanningScene \
         owns no collision environment to apply them to (see cspace_collision::LinkPaddingScale)"
    );
}

#[test]
fn a_fixed_frame_transform_to_another_frame_is_rejected() {
    let m = text(check_fixed_frame_child("some_other_frame", "world"));
    assert!(m.contains("'some_other_frame'"), "got: {m}");
    assert!(check_fixed_frame_child("world", "world").is_ok());
    assert!(check_fixed_frame_child("", "").is_err());
}

#[test]
fn an_unstated_robot_state_is_ignored_by_a_diff_and_reset_by_a_full_scene() {
    assert!(!diff_plan(no_fields()).set_robot_state);
    let stated = DiffFields {
        joint_names: 1,
        ..no_fields()
    };
    assert!(diff_plan(stated).set_robot_state);
    let attached_only = DiffFields {
        attached_collision_objects: 1,
        ..no_fields()
    };
    assert!(diff_plan(attached_only).set_robot_state);
}

#[test]
fn a_diff_with_an_empty_acm_leaves_the_existing_one_alone() {
    assert!(!diff_plan(no_fields()).set_acm);
    assert!(diff_plan(DiffFields {
        acm_entry_names: 2,
        ..no_fields()
    })
    .set_acm);
}

#[test]
fn a_diff_applies_its_octomap_only_when_the_id_is_stated() {
    assert!(!diff_plan(no_fields()).apply_octomap);
    assert!(diff_plan(DiffFields {
        octomap_id_len: 6,
        ..no_fields()
    })
    .apply_octomap);
}

#[test]
fn an_empty_name_clears_it_on_a_full_scene_and_is_ignored_on_a_diff() {
    assert!(!diff_plan(no_fields()).set_name);
    assert!(diff_plan(DiffFields {
        name_len: 3,
        ..no_fields()
    })
    .set_name);
}

#[test]
fn planning_scene_robot_model_name_matches_empty_and_exact() {
    assert!(robot_model_name_matches("one_joint", ""));
    assert!(robot_model_name_matches("one_joint", "one_joint"));
    assert!(!robot_model_name_matches("one_joint", "some_other_robot"));
}

#[test]
fn planning_scene_empty_collision_objects_and_empty_octomap_is_a_no_op() {
    assert!(matches!(octomap_action(0, "OcTree"), Ok(false)));
    assert!(matches!(octomap_action(0, "ColorOcTree"), Ok(false)));
}

#[test]
fn planning_scene_non_octree_octomap_type_is_rejected() {
    let m = text(octomap_action(4, "ColorOcTree"));
    assert!(m.contains("type 'OcTree' is expected"), "got: {m}");
    assert!(m.contains("ColorOcTree"), "got: {m}");
    assert!(matches!(octomap_action(4, "OcTree"), Ok(true)));
}

#[test]
fn a_non_add_attached_object_in_a_full_robot_state_is_refused() {
    assert!(check_attached_in_state(false, "box", 0).is_ok());
    let m = text(check_attached_in_state(false, "box", 1));
    assert!(m.contains("['box']") && m.contains("operation 1"), "got: {m}");
    assert!(check_attached_in_state(true, "box", 1).is_ok());
    assert!(check_attached_in_state(true, "box", 9).is_ok());
    assert!(matches!(check_attached_in_state(false, "box", 9), Err(Error::Construct(_))));
}

#[test]
fn octomap_ns_is_rejected_for_every_operation() {
    for op in 0u8..4 {
        let m = text(command_operation(OCTOMAP_NS, op));
        assert!(m.contains("name reserved"), "got: {m}");
    }
    assert_eq!(command_operation("box", 3).unwrap(), CollisionObjectOperation::Move);
}

#[test]
fn add_with_no_geometry_is_rejected() {
    let m = text(check_add_has_shapes(0, 0, 0));
    assert!(m.contains("no shapes specified"), "got: {m}");
    assert!(check_add_has_shapes(0, 1, 0).is_ok());
    assert!(check_add_has_shapes(0, 0, 1).is_ok());
}

#[test]
fn add_replaces_existing_object() {
    assert_eq!(
        add_plan(true, true),
        AddPlan {
            remove_existing: true,
            creating_fresh: true
        }
    );
}

#[test]
fn append_onto_nonexistent_object_creates_it() {
    assert_eq!(
        add_plan(false, false),
        AddPlan {
            remove_existing: false,
            creating_fresh: true
        }
    );
    assert_eq!(
        add_plan(false, true),
        AddPlan {
            remove_existing: false,
            creating_fresh: false
        }
    );
}

#[test]
fn more_poses_than_primitives_is_rejected() {
    let m = text(pair_shapes_with_poses("primitives", vec!['a'], "primitive_poses", vec![1, 2]));
    assert!(m.contains("CollisionObject.primitives has length"), "got: {m}");
    assert_eq!(
        m,
        "CollisionObject.primitives has length 1 but primitive_poses has length 2 (more poses than shapes)"
    );
}

#[test]
fn more_primitives_than_poses_defaults_missing_to_identity() {
    let paired = pair_shapes_with_poses("primitives", vec!['a', 'b'], "primitive_poses", vec![7]).unwrap();
    assert_eq!(paired, vec![('a', Some(7)), ('b', None)]);
}

#[test]
fn single_shape_with_empty_object_pose_promotes_shape_pose_to_object_pose() {
    let placed = place_shapes(0, true, vec![('a', Some(5))]);
    assert_eq!(placed.object_pose, Some(5));
    assert_eq!(placed.shapes, vec!['a']);
    assert_eq!(placed.shape_poses, vec![None]);
}

#[test]
fn two_shapes_with_empty_object_pose_does_not_swap() {
    let placed = place_shapes(0, true, vec![('a', Some(5)), ('b', None)]);
    assert_eq!(placed.object_pose, Some(0));
    assert_eq!(placed.shape_poses, vec![Some(5), None]);
    let kept = place_shapes(3, false, vec![('a', Some(5))]);
    assert_eq!(kept.object_pose, Some(3));
    assert_eq!(kept.shape_poses, vec![Some(5)]);
}

#[test]
fn remove_unknown_id_is_rejected() {
    let m = text(removal_result("box", false));
    assert!(m.contains("tried to remove world object"), "got: {m}");
    assert!(removal_result("box", true).is_ok());
}

#[test]
fn remove_empty_id_removes_everything() {
    assert_eq!(remove_target(""), RemoveTarget::All);
    assert_eq!(remove_target("box"), RemoveTarget::One("box".to_string()));
}

#[test]
fn move_requires_existing_object() {
    let m = text(check_move_target("box", false));
    assert!(m.contains("does not exist. Cannot move"), "got: {m}");
}

#[test]
fn move_with_mismatched_pose_count_is_rejected_but_still_moves_the_object() {
    let m = text(shape_repose("box", 2, 1));
    assert!(m.contains("must have same number of geometry poses"), "got: {m}");
}

#[test]
fn move_shape_repose_with_matching_count_reposes_shapes() {
    assert!(matches!(shape_repose("box", 1, 1), Ok(true)));
    assert!(matches!(shape_repose("box", 0, 3), Ok(false)));
}

#[test]
fn add_with_mismatched_subframe_array_lengths_is_rejected() {
    let m = text(pair_subframes("a world object", strings(&["a"]), Vec::<u8>::new()));
    assert!(m.contains("subframe_names has length"), "got: {m}");
}

#[test]
fn add_without_subframes_succeeds() {
    assert_eq!(pair_subframes("a world object", Vec::new(), Vec::<u8>::new()).unwrap(), vec![]);
    assert_eq!(
        pair_subframes("a world object", strings(&["grip"]), vec![4u8]).unwrap(),
        vec![("grip".to_string(), 4u8)]
    );
}

#[test]
fn octomap_ns_is_rejected() {
    let m = text(attached_command(OCTOMAP_NS, 0));
    assert!(m.contains("name reserved"), "got: {m}");
}

#[test]
fn move_is_rejected() {
    let m = text(attached_command("box", 3));
    assert!(m.contains("not yet implemented"), "got: {m}");
    assert_eq!(attached_command("box", 0).unwrap(), AttachedCommand::Attach { is_add: true });
    assert_eq!(attached_command("box", 2).unwrap(), AttachedCommand::Attach { is_add: false });
    assert_eq!(attached_command("box", 1).unwrap(), AttachedCommand::Detach);
}

#[test]
fn add_promotes_existing_world_object() {
    assert_eq!(
        attach_source(true, true, true, "box", "tip").unwrap(),
        AttachSource::WorldObject
    );
    assert_eq!(
        attach_source(false, true, true, "box", "tip").unwrap(),
        AttachSource::MessageGeometry
    );
}

#[test]
fn add_with_no_geometry_and_no_world_object_is_rejected() {
    let m = text(attach_source(true, true, false, "box", "tip"));
    assert!(m.contains("does not exist in the collision world"), "got: {m}");
}

#[test]
fn append_with_no_new_geometry_is_rejected() {
    let m = text(check_attach_geometry(0, "box", "tip"));
    assert!(m.contains("no geometry to attach"), "got: {m}");
}

#[test]
fn mismatched_subframe_array_lengths_are_rejected() {
    let m = text(pair_subframes("an attached object", strings(&["a", "b"]), vec![1u8]));
    assert!(m.contains("subframe_names has length"), "got: {m}");
}

#[test]
fn append_onto_existing_attached_body_merges_shapes_and_touch_links() {
    let merged = merge_touch_links(&strings(&["tip", "mid"]), &strings(&["mid", "base"]));
    assert_eq!(merged, strings(&["base", "mid", "tip"]));
}

#[test]
fn append_subframe_conflict_keeps_new_message_value() {
    assert_eq!(
        subframes_to_keep(&strings(&["grip"]), &strings(&["grip", "tcp"])),
        vec![false, true]
    );
}

#[test]
fn detach_specific_id() {
    let attached = vec![
        ("box".to_string(), "tip".to_string()),
        ("cup".to_string(), "mid".to_string()),
    ];
    assert_eq!(detach_selection("box", "", &attached).unwrap(), strings(&["box"]));
    assert_eq!(detach_selection("box", "tip", &attached).unwrap(), strings(&["box"]));
}

#[test]
fn detach_link_name_mismatch_is_rejected() {
    let attached = vec![("box".to_string(), "tip".to_string())];
    let m = text(detach_selection("box", "mid", &attached));
    assert!(m.contains("is actually attached to"), "got: {m}");
}

#[test]
fn detach_empty_id_detaches_everything_and_succeeds_with_zero_matches() {
    let attached = vec![
        ("box".to_string(), "tip".to_string()),
        ("cup".to_string(), "mid".to_string()),
    ];
    assert_eq!(detach_selection("", "", &attached).unwrap(), strings(&["box", "cup"]));
    assert_eq!(detach_selection("", "", &Vec::new()).unwrap(), Vec::<String>::new());
    assert_eq!(detach_selection("", "elbow", &attached).unwrap(), Vec::<String>::new());
}

#[test]
fn detach_filters_by_link_name() {
    let attached = vec![
        ("box".to_string(), "tip".to_string()),
        ("cup".to_string(), "mid".to_string()),
        ("pen".to_string(), "tip".to_string()),
    ];
    assert_eq!(detach_selection("", "tip", &attached).unwrap(), strings(&["box", "pen"]));
}

fn counts(primitives: usize, primitive_poses: usize, subframe_names: usize, subframe_poses: usize) -> GeometryCounts {
    GeometryCounts {
        primitives,
        primitive_poses,
        meshes: 0,
        mesh_poses: 0,
        planes: 0,
        plane_poses: 0,
        subframe_names,
        subframe_poses,
    }
}

fn refusal_text<T: std::fmt::Debug>(r: Result<T, Refusal<&'static str>>) -> String {
    match r {
        Err(Refusal::Message(e)) => e.message().clone(),
        other => panic!("expected a refusal of the message, got {other:?}"),
    }
}

#[test]
fn an_add_is_admitted_only_after_every_check_and_in_their_order() {
    let ok: Result<u8, &'static str> = Ok(7);
    assert_eq!(
        admit_add(true, true, counts(1, 1, 0, 0), ok).unwrap(),
        (AddPlan { remove_existing: true, creating_fresh: true }, 7)
    );
    assert_eq!(
        admit_add(false, true, counts(2, 0, 1, 1), ok).unwrap(),
        (AddPlan { remove_existing: false, creating_fresh: false }, 7)
    );
    // No shapes is refused before everything else, a bad frame included.
    let m = refusal_text(admit_add(true, true, counts(0, 3, 1, 0), Err::<u8, _>("no frame")));
    assert!(m.contains("no shapes specified"), "got: {m}");
    // Subframes before the frame.
    let m = refusal_text(admit_add(true, true, counts(1, 3, 1, 0), Err::<u8, _>("no frame")));
    assert!(m.contains("subframe_names has length 1") && m.contains("a world object"), "got: {m}");
    // The frame before the pose counts.
    assert!(matches!(
        admit_add(true, true, counts(1, 3, 0, 0), Err::<u8, _>("no frame")),
        Err(Refusal::Transform("no frame"))
    ));
    let m = refusal_text(admit_add(true, true, counts(1, 3, 0, 0), ok));
    assert_eq!(m, "CollisionObject.primitives has length 1 but primitive_poses has length 3 (more poses than shapes)");
}

#[test]
fn an_attach_is_admitted_only_after_every_check_and_in_their_order() {
    let ok: Result<u8, &'static str> = Ok(7);
    assert!(matches!(
        admit_attach(true, true, counts(0, 5, 1, 0), "box", "tip", Err::<u8, _>("no frame")),
        Ok(AttachAdmission::FromWorld)
    ));
    let m = refusal_text(admit_attach(true, false, counts(0, 0, 0, 0), "box", "tip", ok));
    assert!(m.contains("does not exist in the collision world"), "got: {m}");
    let m = refusal_text(admit_attach(false, true, counts(1, 2, 1, 0), "box", "tip", Err::<u8, _>("no frame")));
    assert!(m.contains("more poses than shapes"), "got: {m}");
    let m = refusal_text(admit_attach(false, true, counts(1, 1, 1, 0), "box", "tip", Err::<u8, _>("no frame")));
    assert!(m.contains("an attached object"), "got: {m}");
    assert!(matches!(
        admit_attach(false, true, counts(0, 0, 0, 0), "box", "tip", Err::<u8, _>("no frame")),
        Err(Refusal::Transform("no frame"))
    ));
    let m = refusal_text(admit_attach(false, true, counts(0, 0, 0, 0), "box", "tip", ok));
    assert_eq!(m, "there is no geometry to attach to link 'tip' as part of attached body 'box'");
    assert!(matches!(
        admit_attach(false, true, counts(1, 1, 0, 0), "box", "tip", ok),
        Ok(AttachAdmission::FromMessage(7))
    ));
}
