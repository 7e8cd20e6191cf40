use moveit_ros::joint_states::{ActiveJoint, JointSampler, SamplerError, Time};

fn joint(name: &str, variable_count: usize, index: Option<usize>) -> ActiveJoint {
    ActiveJoint {
        name: name.to_string(),
        variable_count,
        first_variable: if variable_count == 1 {
            name.to_string()
        } else {
            format!("{name}/x")
        },
        variable_index: index,
    }
}

/// The one-joint model with a planar virtual joint beside the revolute
/// one: the virtual joint holds variables 0..3 and `j1` variable 3.
fn planar_virtual_model() -> Vec<ActiveJoint> {
    vec![joint("world_joint", 3, Some(0)), joint("j1", 1, Some(3))]
}

fn one_joint_model() -> Vec<ActiveJoint> {
    vec![joint("j1", 1, Some(0))]
}

fn stamp(sec: i32) -> Time {
    Time { sec, nanosec: 0 }
}

#[test]
fn the_two_arrays_have_the_same_length_on_a_model_with_a_multi_dof_joint() {
    let sampler = JointSampler::new(&planar_virtual_model()).expect("the revolute joint is single-DOF");
    let positions = [0.0, 0.0, 0.0, 0.0];
    let message = sampler.sample(&positions, stamp(7));
    assert_eq!(message.name.len(), message.position.len());
    assert_eq!(message.name.len(), 1, "got {:?}", message.name);
}

#[test]
fn a_multi_dof_virtual_joint_is_not_named_in_the_message() {
    let sampler = JointSampler::new(&planar_virtual_model()).expect("the revolute joint is single-DOF");
    let positions = [0.0, 0.0, 0.0, 0.0];
    let message = sampler.sample(&positions, stamp(7));
    assert_eq!(message.name, vec!["j1".to_string()]);
    assert!(
        !message.name.iter().any(|n| n.starts_with("world_joint")),
        "a 3-variable joint reached the message: {:?}",
        message.name
    );
}

#[test]
fn the_names_are_joint_names_and_the_positions_are_that_joints_value() {
    let sampler = JointSampler::new(&one_joint_model()).expect("j1 is single-DOF");
    let positions = [0.25];
    let message = sampler.sample(&positions, stamp(1));
    assert_eq!(message.name, vec!["j1".to_string()]);
    assert_eq!(message.position, vec![0.25]);
}

#[test]
fn the_stamp_is_the_one_the_caller_passed() {
    let sampler = JointSampler::new(&one_joint_model()).expect("j1 is single-DOF");
    let positions = [0.0];
    let message = sampler.sample(&positions, Time { sec: 12, nanosec: 34 });
    assert_eq!(message.header.stamp.sec, 12);
    assert_eq!(message.header.stamp.nanosec, 34);
    assert!(message.header.frame_id.is_empty());
}

#[test]
fn a_model_with_no_active_single_dof_joint_is_refused() {
    let error = JointSampler::new(&[])
        .err()
        .expect("a fixed-only model has no active single-DOF joint");
    assert!(matches!(error, SamplerError::NoSingleDofJoints), "got {error:?}");
}

#[test]
fn no_velocity_or_effort_is_claimed() {
    let sampler = JointSampler::new(&one_joint_model()).expect("j1 is single-DOF");
    let positions = [0.0];
    let message = sampler.sample(&positions, stamp(1));
    assert!(message.velocity.is_empty());
    assert!(message.effort.is_empty());
}

#[test]
fn only_multi_dof_joints_is_refused_too() {
    let error = JointSampler::new(&[joint("world_joint", 3, Some(0))])
        .err()
        .expect("no single-DOF joint");
    assert_eq!(error, SamplerError::NoSingleDofJoints);
}

#[test]
fn a_joint_whose_variable_the_model_lacks_is_named() {
    let error = JointSampler::new(&[joint("j1", 1, Some(0)), joint("j2", 1, None)])
        .err()
        .expect("j2's variable is unknown");
    assert_eq!(error, SamplerError::UnknownVariable("j2".to_string()));
    assert_eq!(
        error.message(),
        "joint variable \"j2\" is not a variable of its own model"
    );
}

#[test]
fn positions_are_read_at_each_joints_own_index() {
    let sampler = JointSampler::new(&[
        joint("a", 1, Some(2)),
        joint("planar", 3, Some(3)),
        joint("b", 1, Some(0)),
    ])
    .expect("two single-DOF joints");
    let message = sampler.sample(&[10, 11, 12, 13, 14, 15], stamp(0));
    assert_eq!(message.name, vec!["a".to_string(), "b".to_string()]);
    assert_eq!(message.position, vec![12, 10]);
}

#[test]
fn a_sampler_says_which_states_it_can_read() {
    let sampler = JointSampler::new(&planar_virtual_model()).expect("j1 is single-DOF");
    assert!(sampler.reads_within(4));
    assert!(!sampler.reads_within(3));
}
