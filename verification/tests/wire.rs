use moveit_ros::error::Error;
use moveit_ros::wire::{
    cone_sides_from_wire, primitive_dims, primitive_to_wire, tolerance_from_wire, tolerance_to_wire,
    CollisionObjectOperation, OrientationTolerance, PrimitiveDims, SensorViewDirection,
    SensorViewDirectionMsg, CONE, CYLINDER, BOX, PRISM, SPHERE,
};

#[test]
fn sensor_view_direction_matches_wire_constants_not_position() {
    assert_eq!(
        SensorViewDirection::try_from(SensorViewDirectionMsg(0)).unwrap(),
        SensorViewDirection::SensorZ
    );
    assert_eq!(
        SensorViewDirection::try_from(SensorViewDirectionMsg(1)).unwrap(),
        SensorViewDirection::SensorY
    );
    assert_eq!(
        SensorViewDirection::try_from(SensorViewDirectionMsg(2)).unwrap(),
        SensorViewDirection::SensorX
    );
}

#[test]
fn sensor_view_direction_round_trips() {
    for dir in [
        SensorViewDirection::SensorX,
        SensorViewDirection::SensorY,
        SensorViewDirection::SensorZ,
    ] {
        let wire = SensorViewDirectionMsg::try_from(dir).unwrap();
        let back = SensorViewDirection::try_from(wire).unwrap();
        assert_eq!(back, dir);
    }
}

#[test]
fn invalid_sensor_view_direction_is_rejected() {
    let err = SensorViewDirection::try_from(SensorViewDirectionMsg(3)).unwrap_err();
    assert!(matches!(err, Error::Construct(_)), "got: {err:?}");
}

#[test]
fn invalid_parameterization_is_rejected() {
    let err = tolerance_from_wire(2, 0.1, 0.1, 0.1).unwrap_err();
    assert!(
        err.message().contains("is neither XYZ_EULER_ANGLES(0) nor ROTATION_VECTOR(1)"),
        "got: {err:?}"
    );
}

#[test]
fn orientation_tolerances_round_trip_through_the_wire() {
    let t = tolerance_from_wire(1, 0.1, 0.2, 0.3).unwrap();
    assert_eq!(t, OrientationTolerance::RotationVector { x: 0.1, y: 0.2, z: 0.3 });
    assert_eq!(tolerance_to_wire(t), (1, 0.1, 0.2, 0.3));
    let e = tolerance_from_wire(0, 1, 2, 3).unwrap();
    assert_eq!(e, OrientationTolerance::XyzEuler { x: 1, y: 2, z: 3 });
    assert_eq!(tolerance_to_wire(e), (0, 1, 2, 3));
}

#[test]
fn solid_primitive_cylinder_dimension_order_is_height_then_radius() {
    assert_eq!(
        primitive_dims(CYLINDER, &[2.0, 5.0]).unwrap(),
        PrimitiveDims::Cylinder { radius: 5.0, height: 2.0 }
    );
}

#[test]
fn solid_primitive_cone_dimension_order_is_height_then_radius() {
    assert_eq!(
        primitive_dims(CONE, &[2.0, 5.0]).unwrap(),
        PrimitiveDims::Cone { radius: 5.0, height: 2.0 }
    );
}

#[test]
fn prism_is_rejected() {
    let err = primitive_dims(PRISM, &[1.0]).unwrap_err();
    assert!(matches!(err, Error::Other(_)), "got: {err:?}");
}

#[test]
fn short_dimensions_array_is_rejected_not_panicking() {
    let err = primitive_dims(BOX, &[1.0]).unwrap_err();
    assert!(matches!(err, Error::Construct(_)), "got: {err:?}");
    assert_eq!(
        err.message(),
        "SolidPrimitive.dimensions has length 1 but index 1 (BOX_Y) is required"
    );
}

#[test]
fn an_unknown_primitive_type_is_malformed() {
    let err = primitive_dims(9, &[1.0]).unwrap_err();
    assert!(matches!(err, Error::Construct(_)), "got: {err:?}");
}

#[test]
fn primitives_round_trip_through_the_wire() {
    for p in [
        PrimitiveDims::Box { x: 1, y: 2, z: 3 },
        PrimitiveDims::Sphere { radius: 4 },
        PrimitiveDims::Cylinder { radius: 5, height: 6 },
        PrimitiveDims::Cone { radius: 7, height: 8 },
    ] {
        let (type_, dims) = primitive_to_wire(p);
        assert_eq!(primitive_dims(type_, &dims).unwrap(), p);
    }
    assert_eq!(primitive_to_wire(PrimitiveDims::Sphere { radius: 4 }), (SPHERE, vec![4]));
}

#[test]
fn i32_min_cone_sides_does_not_wrap_around_when_cast() {
    assert_eq!(cone_sides_from_wire(i32::MIN), 0);
    assert_eq!(cone_sides_from_wire(-1), 0);
    assert_eq!(cone_sides_from_wire(5), 5);
}

#[test]
fn an_unknown_operation_byte_is_malformed() {
    let err = CollisionObjectOperation::try_from(7).unwrap_err();
    assert_eq!(
        err.message(),
        "CollisionObject.operation=7 is none of ADD(0)/REMOVE(1)/APPEND(2)/MOVE(3)"
    );
    assert_eq!(CollisionObjectOperation::try_from(2).unwrap(), CollisionObjectOperation::Append);
}
