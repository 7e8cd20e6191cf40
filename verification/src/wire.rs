//! Wire discriminants and fixed-shape arrays, decoded against the named
//! constants of their message definitions, never positionally.
//!
//! Every decoder here rejects a value outside its enumeration with an
//! error naming the field and the value, and every encoder is its exact
//! inverse on the values the decoder accepts.

use vstd::prelude::*;
use vstd::string::StringExecFns;

use crate::error::Error;
use crate::text::{decimal, decimal_string};

verus! {

/// `VisibilityConstraint.SENSOR_Z`.
pub const SENSOR_Z: u8 = 0;

/// `VisibilityConstraint.SENSOR_Y`.
pub const SENSOR_Y: u8 = 1;

/// `VisibilityConstraint.SENSOR_X`.
pub const SENSOR_X: u8 = 2;

/// The sensor axis a visibility constraint looks along.
///
/// The declaration order (`X, Y, Z`) is the reverse of the wire encoding
/// (`Z = 0, Y = 1, X = 2`), which is why nothing here converts by position.
#[derive(Debug, Clone, Copy, PartialEq, Eq, Structural)]
pub enum SensorViewDirection {
    /// The sensor's x axis.
    SensorX,
    /// The sensor's y axis.
    SensorY,
    /// The sensor's z axis.
    SensorZ,
}

/// The wire `sensor_view_direction` byte.
#[derive(Debug, Clone, Copy, PartialEq, Eq, Structural)]
pub struct SensorViewDirectionMsg(pub u8);

/// The axis a wire byte names, if it names one.
pub open spec fn spec_sensor_view_direction(b: u8) -> Option<SensorViewDirection> {
    if b == SENSOR_Z {
        Some(SensorViewDirection::SensorZ)
    } else if b == SENSOR_Y {
        Some(SensorViewDirection::SensorY)
    } else if b == SENSOR_X {
        Some(SensorViewDirection::SensorX)
    } else {
        None
    }
}

/// The wire byte for an axis.
pub open spec fn spec_sensor_view_direction_byte(d: SensorViewDirection) -> u8 {
    match d {
        SensorViewDirection::SensorZ => SENSOR_Z,
        SensorViewDirection::SensorY => SENSOR_Y,
        SensorViewDirection::SensorX => SENSOR_X,
    }
}

impl SensorViewDirection {
    /// Decodes the wire byte.
    pub fn try_from(msg: SensorViewDirectionMsg) -> (r: Result<SensorViewDirection, Error>)
        ensures
            spec_sensor_view_direction(msg.0) matches Some(d) ==> r == Ok::<_, Error>(d),
            spec_sensor_view_direction(msg.0) is None ==> (r matches Err(Error::Construct(m))
                && m@ == "VisibilityConstraint.sensor_view_direction="@ + decimal(msg.0 as nat)
                + " is none of SENSOR_Z(0)/SENSOR_Y(1)/SENSOR_X(2)"@),
    {
        match msg.0 {
            SENSOR_Z => Ok(SensorViewDirection::SensorZ),
            SENSOR_Y => Ok(SensorViewDirection::SensorY),
            SENSOR_X => Ok(SensorViewDirection::SensorX),
            other => {
                let mut m = String::from_str("VisibilityConstraint.sensor_view_direction=");
                m.append(decimal_string(other as u64).as_str());
                m.append(" is none of SENSOR_Z(0)/SENSOR_Y(1)/SENSOR_X(2)");
                Err(Error::Construct(m))
            },
        }
    }
}

impl SensorViewDirectionMsg {
    /// Encodes an axis; total.
    pub fn try_from(dir: SensorViewDirection) -> (r: Result<SensorViewDirectionMsg, Error>)
        ensures
            r == Ok::<_, Error>(SensorViewDirectionMsg(spec_sensor_view_direction_byte(dir))),
    {
        Ok(
            SensorViewDirectionMsg(
                match dir {
                    SensorViewDirection::SensorZ => SENSOR_Z,
                    SensorViewDirection::SensorY => SENSOR_Y,
                    SensorViewDirection::SensorX => SENSOR_X,
                },
            ),
        )
    }
}

/// Encoding then decoding an axis gives the axis back, and decoding then
/// encoding an accepted byte gives the byte back.
pub proof fn sensor_view_direction_round_trips(d: SensorViewDirection, b: u8)
    ensures
        spec_sensor_view_direction(spec_sensor_view_direction_byte(d)) == Some(d),
        spec_sensor_view_direction(b) matches Some(e) ==> spec_sensor_view_direction_byte(e) == b,
        spec_sensor_view_direction(b) is Some <==> b <= 2,
{
}

/// `CollisionObject.ADD`.
pub const ADD: u8 = 0;

/// `CollisionObject.REMOVE`.
pub const REMOVE: u8 = 1;

/// `CollisionObject.APPEND`.
pub const APPEND: u8 = 2;

/// `CollisionObject.MOVE`.
pub const MOVE: u8 = 3;

/// What a collision-object command asks the scene to do.
#[derive(Debug, Clone, Copy, PartialEq, Eq, Structural)]
pub enum CollisionObjectOperation {
    /// `ADD`: create the object, replacing one of the same id.
    Add,
    /// `REMOVE`: remove the object, or every object for an empty id.
    Remove,
    /// `APPEND`: add shapes to the object, creating it if absent.
    Append,
    /// `MOVE`: set the object's pose, and optionally its shapes' poses.
    Move,
}

/// The operation a wire byte names, if it names one.
pub open spec fn spec_collision_object_operation(b: u8) -> Option<CollisionObjectOperation> {
    if b == ADD {
        Some(CollisionObjectOperation::Add)
    } else if b == REMOVE {
        Some(CollisionObjectOperation::Remove)
    } else if b == APPEND {
        Some(CollisionObjectOperation::Append)
    } else if b == MOVE {
        Some(CollisionObjectOperation::Move)
    } else {
        None
    }
}

/// The rejection text for an operation byte outside the enumeration.
pub open spec fn operation_message(b: u8) -> Seq<char> {
    "CollisionObject.operation="@ + decimal(b as nat) + " is none of ADD(0)/REMOVE(1)/APPEND(2)/MOVE(3)"@
}

impl CollisionObjectOperation {
    /// Decodes the wire `operation` byte.
    pub fn try_from(operation: u8) -> (r: Result<CollisionObjectOperation, Error>)
        ensures
            spec_collision_object_operation(operation) matches Some(o) ==> r == Ok::<_, Error>(o),
            spec_collision_object_operation(operation) is None ==> (r matches Err(
                Error::Construct(m),
            ) && m@ == operation_message(operation)),
    {
        match operation {
            ADD => Ok(CollisionObjectOperation::Add),
            REMOVE => Ok(CollisionObjectOperation::Remove),
            APPEND => Ok(CollisionObjectOperation::Append),
            MOVE => Ok(CollisionObjectOperation::Move),
            other => {
                let mut m = String::from_str("CollisionObject.operation=");
                m.append(decimal_string(other as u64).as_str());
                m.append(" is none of ADD(0)/REMOVE(1)/APPEND(2)/MOVE(3)");
                Err(Error::Construct(m))
            },
        }
    }
}

/// `OrientationConstraint.XYZ_EULER_ANGLES`.
pub const XYZ_EULER_ANGLES: u8 = 0;

/// `OrientationConstraint.ROTATION_VECTOR`.
pub const ROTATION_VECTOR: u8 = 1;

/// The three axis tolerances of an orientation constraint, tagged with how
/// they are to be read.
#[derive(Debug, Clone, Copy, PartialEq, Eq)]
pub enum OrientationTolerance<T> {
    /// Tolerances on XYZ Euler angles.
    XyzEuler {
        /// About x.
        x: T,
        /// About y.
        y: T,
        /// About z.
        z: T,
    },
    /// Tolerances on the components of a rotation vector.
    RotationVector {
        /// Along x.
        x: T,
        /// Along y.
        y: T,
        /// Along z.
        z: T,
    },
}

/// `parameterization` plus the three tolerances, decoded; `None` for a
/// parameterization that is neither constant.
pub open spec fn spec_tolerance_from_wire<T>(parameterization: u8, x: T, y: T, z: T) -> Option<
    OrientationTolerance<T>,
> {
    if parameterization == XYZ_EULER_ANGLES {
        Some(OrientationTolerance::XyzEuler { x, y, z })
    } else if parameterization == ROTATION_VECTOR {
        Some(OrientationTolerance::RotationVector { x, y, z })
    } else {
        None
    }
}

/// The wire form of a tolerance.
pub open spec fn spec_tolerance_to_wire<T>(t: OrientationTolerance<T>) -> (u8, T, T, T) {
    match t {
        OrientationTolerance::XyzEuler { x, y, z } => (XYZ_EULER_ANGLES, x, y, z),
        OrientationTolerance::RotationVector { x, y, z } => (ROTATION_VECTOR, x, y, z),
    }
}

/// Decodes `parameterization` and the three axis tolerances. Any value
/// other than the two constants is rejected, not coerced.
pub fn tolerance_from_wire<T>(parameterization: u8, x: T, y: T, z: T) -> (r: Result<
    OrientationTolerance<T>,
    Error,
>)
    ensures
        spec_tolerance_from_wire(parameterization, x, y, z) matches Some(t) ==> r == Ok::<
            _,
            Error,
        >(t),
        spec_tolerance_from_wire(parameterization, x, y, z) is None ==> (r matches Err(
            Error::Construct(m),
        ) && m@ == "OrientationConstraint.parameterization="@ + decimal(parameterization as nat)
            + " is neither XYZ_EULER_ANGLES(0) nor ROTATION_VECTOR(1)"@),
{
    if parameterization == XYZ_EULER_ANGLES {
        Ok(OrientationTolerance::XyzEuler { x, y, z })
    } else if parameterization == ROTATION_VECTOR {
        Ok(OrientationTolerance::RotationVector { x, y, z })
    } else {
        let mut m = String::from_str("OrientationConstraint.parameterization=");
        m.append(decimal_string(parameterization as u64).as_str());
        m.append(" is neither XYZ_EULER_ANGLES(0) nor ROTATION_VECTOR(1)");
        Err(Error::Construct(m))
    }
}

/// Encodes a tolerance as `(parameterization, x, y, z)`.
pub fn tolerance_to_wire<T>(tolerance: OrientationTolerance<T>) -> (r: (u8, T, T, T))
    ensures
        r == spec_tolerance_to_wire(tolerance),
{
    match tolerance {
        OrientationTolerance::XyzEuler { x, y, z } => (XYZ_EULER_ANGLES, x, y, z),
        OrientationTolerance::RotationVector { x, y, z } => (ROTATION_VECTOR, x, y, z),
    }
}

/// A tolerance survives the wire unchanged, and so does any accepted wire
/// quadruple.
pub proof fn tolerance_round_trips<T>(t: OrientationTolerance<T>, p: u8, x: T, y: T, z: T)
    ensures
        ({
            let w = spec_tolerance_to_wire(t);
            spec_tolerance_from_wire(w.0, w.1, w.2, w.3) == Some(t)
        }),
        spec_tolerance_from_wire(p, x, y, z) matches Some(u) ==> spec_tolerance_to_wire(u) == (
            p,
            x,
            y,
            z,
        ),
{
}

/// `SolidPrimitive.BOX`.
pub const BOX: u8 = 1;

/// `SolidPrimitive.SPHERE`.
pub const SPHERE: u8 = 2;

/// `SolidPrimitive.CYLINDER`.
pub const CYLINDER: u8 = 3;

/// `SolidPrimitive.CONE`.
pub const CONE: u8 = 4;

/// `SolidPrimitive.PRISM`.
pub const PRISM: u8 = 5;

/// `SolidPrimitive.BOX_X`.
pub const BOX_X: usize = 0;

/// `SolidPrimitive.BOX_Y`.
pub const BOX_Y: usize = 1;

/// `SolidPrimitive.BOX_Z`.
pub const BOX_Z: usize = 2;

/// `SolidPrimitive.SPHERE_RADIUS`.
pub const SPHERE_RADIUS: usize = 0;

/// `SolidPrimitive.CYLINDER_HEIGHT`.
pub const CYLINDER_HEIGHT: usize = 0;

/// `SolidPrimitive.CYLINDER_RADIUS`.
pub const CYLINDER_RADIUS: usize = 1;

/// `SolidPrimitive.CONE_HEIGHT`.
pub const CONE_HEIGHT: usize = 0;

/// `SolidPrimitive.CONE_RADIUS`.
pub const CONE_RADIUS: usize = 1;

/// The named dimensions of a solid primitive.
#[derive(Debug, Clone, Copy, PartialEq, Eq)]
pub enum PrimitiveDims<T> {
    /// A box with side lengths along x, y and z.
    Box {
        /// Along x.
        x: T,
        /// Along y.
        y: T,
        /// Along z.
        z: T,
    },
    /// A sphere.
    Sphere {
        /// Its radius.
        radius: T,
    },
    /// A cylinder along z.
    Cylinder {
        /// Its radius.
        radius: T,
        /// Its height.
        height: T,
    },
    /// A cone along z.
    Cone {
        /// Its base radius.
        radius: T,
        /// Its height.
        height: T,
    },
}

/// The dimensions a wire `(type, dimensions)` pair names; `None` when the
/// type is unknown or unsupported, or the array is too short.
pub open spec fn spec_primitive_dims<T>(type_: u8, d: Seq<T>) -> Option<PrimitiveDims<T>> {
    if type_ == BOX && d.len() > 2 {
        Some(PrimitiveDims::Box { x: d[BOX_X as int], y: d[BOX_Y as int], z: d[BOX_Z as int] })
    } else if type_ == SPHERE && d.len() > 0 {
        Some(PrimitiveDims::Sphere { radius: d[SPHERE_RADIUS as int] })
    } else if type_ == CYLINDER && d.len() > 1 {
        Some(
            PrimitiveDims::Cylinder {
                radius: d[CYLINDER_RADIUS as int],
                height: d[CYLINDER_HEIGHT as int],
            },
        )
    } else if type_ == CONE && d.len() > 1 {
        Some(PrimitiveDims::Cone { radius: d[CONE_RADIUS as int], height: d[CONE_HEIGHT as int] })
    } else {
        None
    }
}

/// The rejection text for a dimensions array too short for `index`.
pub open spec fn dim_message(len: nat, index: nat, field: Seq<char>) -> Seq<char> {
    "SolidPrimitive.dimensions has length "@ + decimal(len) + " but index "@ + decimal(index)
        + " ("@ + field + ") is required"@
}

/// `dims[index]`, or an error naming the field when the array is too
/// short.
pub fn dim<T: Copy>(dims: &[T], index: usize, field: &str) -> (r: Result<T, Error>)
    ensures
        index < dims@.len() ==> r == Ok::<T, Error>(dims@[index as int]),
        index >= dims@.len() ==> (r matches Err(Error::Construct(m)) && m@ == dim_message(
            dims@.len(),
            index as nat,
            field@,
        )),
{
    if index < dims.len() {
        Ok(dims[index])
    } else {
        let mut m = String::from_str("SolidPrimitive.dimensions has length ");
        m.append(decimal_string(dims.len() as u64).as_str());
        m.append(" but index ");
        m.append(decimal_string(index as u64).as_str());
        m.append(" (");
        m.append(field);
        m.append(") is required");
        Err(Error::Construct(m))
    }
}

/// Decodes a solid primitive's type and dimensions. Cylinder and cone
/// dimensions are `[height, radius]` on the wire.
///
/// `PRISM` is well formed but has no shape here, and is rejected as such;
/// any other unknown type is malformed.
pub fn primitive_dims<T: Copy>(type_: u8, dims: &[T]) -> (r: Result<PrimitiveDims<T>, Error>)
    ensures
        spec_primitive_dims(type_, dims@) matches Some(p) ==> r == Ok::<_, Error>(p),
        spec_primitive_dims(type_, dims@) is None ==> r is Err,
        type_ == PRISM ==> r matches Err(Error::Other(_)),
        !(BOX <= type_ <= PRISM) ==> r matches Err(Error::Construct(_)),
{
    if type_ == BOX {
        let x = dim(dims, BOX_X, "BOX_X")?;
        let y = dim(dims, BOX_Y, "BOX_Y")?;
        let z = dim(dims, BOX_Z, "BOX_Z")?;
        Ok(PrimitiveDims::Box { x, y, z })
    } else if type_ == SPHERE {
        let radius = dim(dims, SPHERE_RADIUS, "SPHERE_RADIUS")?;
        Ok(PrimitiveDims::Sphere { radius })
    } else if type_ == CYLINDER {
        let radius = dim(dims, CYLINDER_RADIUS, "CYLINDER_RADIUS")?;
        let height = dim(dims, CYLINDER_HEIGHT, "CYLINDER_HEIGHT")?;
        Ok(PrimitiveDims::Cylinder { radius, height })
    } else if type_ == CONE {
        let radius = dim(dims, CONE_RADIUS, "CONE_RADIUS")?;
        let height = dim(dims, CONE_HEIGHT, "CONE_HEIGHT")?;
        Ok(PrimitiveDims::Cone { radius, height })
    } else if type_ == PRISM {
        Err(Error::Other(String::from_str("SolidPrimitive.type=PRISM(5) has no moveit_geometry::Shape counterpart")))
    } else {
        let mut m = String::from_str("SolidPrimitive.type=");
        m.append(decimal_string(type_ as u64).as_str());
        m.append(" is none of BOX(1)/SPHERE(2)/CYLINDER(3)/CONE(4)/PRISM(5)");
        Err(Error::Construct(m))
    }
}

/// The wire `(type, dimensions)` of a primitive.
pub open spec fn spec_primitive_to_wire<T>(p: PrimitiveDims<T>) -> (u8, Seq<T>) {
    match p {
        PrimitiveDims::Box { x, y, z } => (BOX, seq![x, y, z]),
        PrimitiveDims::Sphere { radius } => (SPHERE, seq![radius]),
        PrimitiveDims::Cylinder { radius, height } => (CYLINDER, seq![height, radius]),
        PrimitiveDims::Cone { radius, height } => (CONE, seq![height, radius]),
    }
}

/// Encodes a primitive as its wire `(type, dimensions)`.
pub fn primitive_to_wire<T: Copy>(p: PrimitiveDims<T>) -> (r: (u8, Vec<T>))
    ensures
        r.0 == spec_primitive_to_wire(p).0,
        r.1@ == spec_primitive_to_wire(p).1,
{
    let mut v: Vec<T> = Vec::new();
    match p {
        PrimitiveDims::Box { x, y, z } => {
            v.push(x);
            v.push(y);
            v.push(z);
            assert(v@ =~= seq![x, y, z]);
            (BOX, v)
        },
        PrimitiveDims::Sphere { radius } => {
            v.push(radius);
            assert(v@ =~= seq![radius]);
            (SPHERE, v)
        },
        PrimitiveDims::Cylinder { radius, height } => {
            v.push(height);
            v.push(radius);
            assert(v@ =~= seq![height, radius]);
            (CYLINDER, v)
        },
        PrimitiveDims::Cone { radius, height } => {
            v.push(height);
            v.push(radius);
            assert(v@ =~= seq![height, radius]);
            (CONE, v)
        },
    }
}

/// Every primitive survives the wire unchanged.
pub proof fn primitive_round_trips<T>(p: PrimitiveDims<T>)
    ensures
        ({
            let w = spec_primitive_to_wire(p);
            spec_primitive_dims(w.0, w.1) == Some(p)
        }),
{
}

/// The number of cone sides a wire `cone_sides` asks for, with every
/// negative value read as zero so the conversion cannot wrap.
pub fn cone_sides_from_wire(cone_sides: i32) -> (n: usize)
    ensures
        cone_sides >= 0 ==> n == cone_sides,
        cone_sides < 0 ==> n == 0,
{
    if cone_sides < 0 {
        0
    } else {
        cone_sides as usize
    }
}

/// Each dimension is read at the index `shape_msgs/SolidPrimitive` names for
/// it: a box's sides along x, y and z at 0, 1 and 2; a sphere's radius at
/// 0; a cylinder's or cone's height at 0 and radius at 1. Extra entries
/// are ignored.
pub proof fn dimensions_are_read_at_their_named_indices<T>(d: Seq<T>)
    ensures
        d.len() >= 3 ==> spec_primitive_dims(1u8, d) == Some(PrimitiveDims::Box { x: d[0], y: d[1], z: d[2] }),
        d.len() >= 1 ==> spec_primitive_dims(2u8, d) == Some(PrimitiveDims::Sphere { radius: d[0] }),
        d.len() >= 2 ==> spec_primitive_dims(3u8, d) == Some(PrimitiveDims::Cylinder { radius: d[1], height: d[0] }),
        d.len() >= 2 ==> spec_primitive_dims(4u8, d) == Some(PrimitiveDims::Cone { radius: d[1], height: d[0] }),
{
}

/// Each primitive is written with its dimensions at the indices
/// `shape_msgs/SolidPrimitive` names for them, and nothing more.
pub proof fn dimensions_are_written_at_their_named_indices<T>(a: T, b: T, c: T)
    ensures
        spec_primitive_to_wire(PrimitiveDims::Box { x: a, y: b, z: c }) == (1u8, seq![a, b, c]),
        spec_primitive_to_wire(PrimitiveDims::Sphere { radius: a }) == (2u8, seq![a]),
        spec_primitive_to_wire(PrimitiveDims::Cylinder { radius: a, height: b }) == (3u8, seq![b, a]),
        spec_primitive_to_wire(PrimitiveDims::Cone { radius: a, height: b }) == (4u8, seq![b, a]),
{
}

} // verus!
