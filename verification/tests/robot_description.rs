use moveit_ros::error::Error;
use moveit_ros::robot_description::{
    mentions_xmlns_rebinding_in, parse_step_error, RobotDescription, SRDF_TOPIC, URDF_TOPIC,
};

const URDF: &str = r#"<?xml version="1.0"?>
<robot name="one_joint">
  <link name="base_link"/>
  <link name="tip"/>
  <joint name="j1" type="revolute">
    <parent link="base_link"/>
    <child link="tip"/>
    <axis xyz="0 0 1"/>
    <limit lower="-1" upper="1" effort="10" velocity="1"/>
  </joint>
</robot>"#;

const SRDF: &str = r#"<?xml version="1.0"?>
<robot name="one_joint">
  <group name="arm">
    <chain base_link="base_link" tip_link="tip"/>
  </group>
</robot>"#;

#[test]
fn the_published_urdf_is_the_text_the_model_was_built_from() {
    let description = RobotDescription::from_strings(URDF, SRDF);
    let robot = description.parse_urdf().expect("fixture must parse");
    assert_eq!(description.urdf_xml(), URDF);
    assert_eq!(description.srdf_xml(), SRDF);
    assert_eq!(robot.name, "one_joint");
    assert!(robot.joints.iter().any(|j| j.name == "j1"));
}

#[test]
fn a_malformed_urdf_is_reported_against_the_urdf_topic() {
    let description = RobotDescription::from_strings("<robot", SRDF);
    let rendered = match description.parse_urdf() {
        Ok(_) => panic!("malformed URDF must be rejected"),
        Err(e) => e.message().clone(),
    };
    assert!(
        rendered.contains(URDF_TOPIC) && !rendered.contains(SRDF_TOPIC),
        "expected the URDF step to name itself, got: {rendered}"
    );
    assert!(rendered.starts_with("parsing robot_description: "));
    assert_ne!(
        rendered, "parsing robot_description: <robot",
        "the reason is the parser's, not the document echoed back"
    );
}

#[test]
fn a_parse_step_error_names_the_topic_then_the_reason() {
    match parse_step_error(SRDF_TOPIC, "empty document") {
        Error::Other(m) => {
            assert_eq!(m, "parsing robot_description_semantic: empty document")
        }
        other => panic!("unexpected error {other:?}"),
    }
}

#[test]
fn the_two_topics_are_the_loader_names() {
    assert_eq!(URDF_TOPIC, "robot_description");
    assert_eq!(SRDF_TOPIC, format!("{URDF_TOPIC}_semantic"));
}

#[test]
fn a_rebinding_of_the_xmlns_prefix_is_found() {
    assert!(mentions_xmlns_rebinding_in(r#"<robot name="r" xmlns:xmlns="urn:x"/>"#));
    assert!(!mentions_xmlns_rebinding_in(URDF));
    assert!(!mentions_xmlns_rebinding_in(
        r#"<robot xmlns:xacro="http://www.ros.org/wiki/xacro" name="r"/>"#
    ));
    assert!(!mentions_xmlns_rebinding_in(r#"<robot xmlns="" name="r"/>"#));
    assert!(!mentions_xmlns_rebinding_in("xmlns:xmln"));
}

#[test]
fn an_empty_default_namespace_is_read_like_any_other_document() {
    let description = RobotDescription::from_strings(r#"<robot xmlns="" name="r"><link name="a"/></robot>"#, SRDF);
    let robot = description.parse_urdf().expect("an empty default namespace is no namespace");
    assert_eq!(robot.name, "r");
}
