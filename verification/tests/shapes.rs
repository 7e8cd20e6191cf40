use moveit_ros::error::Error;
use moveit_ros::shapes::{check_bounding_volume, mesh_triangles, plane_coefficients, triangles_to_wire};

#[test]
fn mesh_round_trips_through_msg() {
    let wire = vec![vec![0u32, 1, 2]];
    let triangles = mesh_triangles(&wire).unwrap();
    assert_eq!(triangles, vec![[0, 1, 2]]);
    let back = triangles_to_wire(&triangles);
    assert_eq!(back, wire);
}

#[test]
fn mesh_triangle_with_wrong_vertex_count_is_rejected() {
    match mesh_triangles(&vec![vec![0u32, 1, 2], vec![0, 0]]) {
        Err(Error::Construct(m)) => {
            assert!(m.contains("expected exactly 3"), "got: {m}");
            assert_eq!(m, "MeshTriangle[1].vertex_indices has length 2, expected exactly 3");
        }
        other => panic!("expected a refusal, got {other:?}"),
    }
}

#[test]
fn plane_round_trips_through_msg() {
    let coef = [0.0, 0.0, 1.0, -0.5];
    assert_eq!(plane_coefficients(&coef).unwrap(), coef);
}

#[test]
fn plane_wrong_coef_length_is_rejected() {
    match plane_coefficients(&[1.0, 2.0, 3.0]) {
        Err(Error::Construct(m)) => assert_eq!(m, "Plane.coef has length 3, expected exactly 4"),
        other => panic!("expected a refusal, got {other:?}"),
    }
}

#[test]
fn an_empty_mesh_has_no_triangles() {
    assert_eq!(mesh_triangles(&Vec::new()).unwrap(), Vec::<[u32; 3]>::new());
}

#[test]
fn mismatched_primitive_and_pose_lengths_is_rejected() {
    let err = check_bounding_volume(1, 2, 0, 0).unwrap_err();
    assert!(matches!(err, Error::Construct(_)), "got: {err:?}");
    assert_eq!(
        err.message(),
        "BoundingVolume.primitives has length 1 but primitive_poses has length 2"
    );
}

#[test]
fn meshes_are_rejected_not_silently_dropped() {
    let err = check_bounding_volume(1, 1, 1, 1).unwrap_err();
    assert!(matches!(err, Error::Other(_)), "got: {err:?}");
    assert!(check_bounding_volume(1, 1, 0, 0).is_ok());
}
