//! The decisions a `moveit_msgs/CollisionObject` command takes, for a world
//! object and for an object attached to a link: which operation, which
//! shapes pair with which poses, which object pose the shapes hang off,
//! and which refusals come first.
//!
//! Poses and shapes are opaque here (`P`, `S`, `T`): what is decided is
//! which of them go where, not what they are.

use vstd::prelude::*;
use vstd::string::StringExecFns;

use crate::error::Error;
use crate::param_map::{lemma_insert_pairs_dom, map_of_pairs, ParamMap};
use crate::text::{decimal, decimal_string, string_views};
use crate::wire::{operation_message, spec_collision_object_operation, CollisionObjectOperation};

verus! {

/// The id reserved for the scene's octomap; no collision object may use
/// it, whatever the operation.
pub const OCTOMAP_NS: &'static str = "<octomap>";

/// The refusal of the reserved id.
pub open spec fn reserved_id_message() -> Seq<char> {
    "the ID '<octomap>' cannot be used for collision objects (name reserved)"@
}

/// Appends the decimal rendering of `n` to `s`.
fn append_decimal(s: &mut String, n: usize)
    ensures
        final(s)@ == old(s)@ + decimal(n as nat),
{
    let d = decimal_string(n as u64);
    s.append(d.as_str());
}

/// Whether `id` is the reserved octomap id.
fn is_reserved_id(id: &str) -> (b: bool)
    ensures
        b == (id@ == OCTOMAP_NS@),
{
    id.to_owned() == OCTOMAP_NS.to_owned()
}

/// The operation a world-object command asks for. The reserved id is
/// refused before the operation byte is read.
pub fn command_operation(id: &str, operation: u8) -> (r: Result<CollisionObjectOperation, Error>)
    ensures
        id@ == OCTOMAP_NS@ ==> (r matches Err(Error::Other(m)) && m@ == reserved_id_message()),
        id@ != OCTOMAP_NS@ ==> match spec_collision_object_operation(operation) {
            Some(o) => r == Ok::<_, Error>(o),
            None => r matches Err(Error::Construct(m)) && m@ == operation_message(operation),
        },
{
    if is_reserved_id(id) {
        proof {
            reveal_strlit("the ID '<octomap>' cannot be used for collision objects (name reserved)");
        }
        return Err(
            Error::Other(
                String::from_str(
                    "the ID '<octomap>' cannot be used for collision objects (name reserved)",
                ),
            ),
        );
    }
    CollisionObjectOperation::try_from(operation)
}

/// The refusal of a shape array with more poses than shapes.
pub open spec fn more_poses_message(
    items_field: Seq<char>,
    n_items: nat,
    poses_field: Seq<char>,
    n_poses: nat,
) -> Seq<char> {
    "CollisionObject."@ + items_field + " has length "@ + decimal(n_items) + " but "@ + poses_field
        + " has length "@ + decimal(n_poses) + " (more poses than shapes)"@
}

/// One geometry array may not carry more poses than shapes.
pub fn check_pose_count(items_field: &str, n_items: usize, poses_field: &str, n_poses: usize) -> (r: Result<
    (),
    Error,
>)
    ensures
        (r is Ok) == (n_poses <= n_items),
        r matches Err(e) ==> (e matches Error::Construct(m) && m@ == more_poses_message(
            items_field@,
            n_items as nat,
            poses_field@,
            n_poses as nat,
        )),
{
    if n_items < n_poses {
        let mut s = String::from_str("CollisionObject.");
        s.append(items_field);
        s.append(" has length ");
        append_decimal(&mut s, n_items);
        s.append(" but ");
        s.append(poses_field);
        s.append(" has length ");
        append_decimal(&mut s, n_poses);
        s.append(" (more poses than shapes)");
        return Err(Error::Construct(s));
    }
    Ok(())
}

/// The pose paired with the `i`th shape: its own, or none (the identity)
/// when the pose array is shorter.
pub open spec fn pose_at<P>(poses: Seq<P>, i: int) -> Option<P> {
    if i < poses.len() {
        Some(poses[i])
    } else {
        None
    }
}

/// Pairs each shape of one geometry array with its pose.
///
/// More poses than shapes is refused; fewer is accepted, the shapes
/// without a pose standing at the identity (`None`).
pub fn pair_shapes_with_poses<T, P>(
    items_field: &str,
    items: Vec<T>,
    poses_field: &str,
    poses: Vec<P>,
) -> (r: Result<Vec<(T, Option<P>)>, Error>)
    ensures
        (r is Err) == (items@.len() < poses@.len()),
        r matches Err(e) ==> (e matches Error::Construct(m) && m@ == more_poses_message(
            items_field@,
            items@.len(),
            poses_field@,
            poses@.len(),
        )),
        r matches Ok(v) ==> v@.len() == items@.len() && forall|i: int|
            0 <= i < items@.len() ==> (#[trigger] v@[i]).0 == items@[i] && v@[i].1 == pose_at(poses@, i),
{
    let n = items.len();
    let m = poses.len();
    if let Err(e) = check_pose_count(items_field, n, poses_field, m) {
        return Err(e);
    }
    let ghost all_items = items@;
    let ghost all_poses = poses@;
    let mut items = items;
    let mut poses = poses;
    let mut out: Vec<(T, Option<P>)> = Vec::new();
    let mut k: usize = 0;
    while k < n
        invariant
            n == all_items.len(),
            m == all_poses.len(),
            m <= n,
            k <= n,
            items@ == all_items.skip(k as int),
            k <= m ==> poses@ == all_poses.skip(k as int),
            k > m ==> poses@.len() == 0,
            out@.len() == k,
            forall|i: int| 0 <= i < k ==> (#[trigger] out@[i]).0 == all_items[i] && out@[i].1 == pose_at(all_poses, i),
        decreases n - k,
    {
        let item = items.remove(0);
        let pose = if poses.len() > 0 {
            Some(poses.remove(0))
        } else {
            None
        };
        proof {
            assert(all_items.skip(k as int).drop_first() =~= all_items.skip(k + 1));
            if k < m {
                assert(all_poses.skip(k as int).drop_first() =~= all_poses.skip(k + 1));
            }
        }
        out.push((item, pose));
        k = k + 1;
    }
    Ok(out)
}

/// The shapes of a collision object and the pose each hangs off.
///
/// `object_pose` is `None` where the object stands at the identity, and a
/// shape pose is `None` where the shape stands at the identity relative to
/// the object.
pub struct PlacedShapes<S, P> {
    pub object_pose: Option<P>,
    pub shapes: Vec<S>,
    pub shape_poses: Vec<Option<P>>,
}

/// Gathers the paired shapes under one object pose.
///
/// A single shape under an empty object pose lends the object its own
/// pose and stands at the identity itself; otherwise the object keeps the
/// message's pose and each shape its own.
pub fn place_shapes<S, P>(
    object_pose: P,
    object_pose_is_empty: bool,
    all: Vec<(S, Option<P>)>,
) -> (r: PlacedShapes<S, P>)
    ensures
        r.shapes@.len() == all@.len(),
        r.shape_poses@.len() == all@.len(),
        forall|i: int| 0 <= i < all@.len() ==> #[trigger] r.shapes@[i] == all@[i].0,
        all@.len() == 1 && object_pose_is_empty ==> r.object_pose == all@[0].1 && r.shape_poses@[0] is None,
        !(all@.len() == 1 && object_pose_is_empty) ==> r.object_pose == Some(object_pose) && forall|i: int|
            0 <= i < all@.len() ==> #[trigger] r.shape_poses@[i] == all@[i].1,
{
    let n = all.len();
    let swap = n == 1 && object_pose_is_empty;
    let ghost pairs = all@;
    let mut all = all;
    let mut shapes: Vec<S> = Vec::new();
    let mut shape_poses: Vec<Option<P>> = Vec::new();
    let mut k: usize = 0;
    while k < n
        invariant
            n == pairs.len(),
            k <= n,
            all@ == pairs.skip(k as int),
            shapes@.len() == k,
            shape_poses@.len() == k,
            forall|i: int| 0 <= i < k ==> #[trigger] shapes@[i] == pairs[i].0,
            forall|i: int| 0 <= i < k ==> #[trigger] shape_poses@[i] == pairs[i].1,
        decreases n - k,
    {
        let (shape, pose) = all.remove(0);
        proof {
            assert(pairs.skip(k as int).drop_first() =~= pairs.skip(k + 1));
        }
        shapes.push(shape);
        shape_poses.push(pose);
        k = k + 1;
    }
    if swap {
        let promoted = shape_poses.remove(0);
        shape_poses.insert(0, None);
        PlacedShapes { object_pose: promoted, shapes, shape_poses }
    } else {
        PlacedShapes { object_pose: Some(object_pose), shapes, shape_poses }
    }
}

/// The refusal of subframe arrays that do not pair up.
pub open spec fn subframe_mismatch_message(context: Seq<char>, n_names: nat, n_poses: nat) -> Seq<char> {
    "subframe_names has length "@ + decimal(n_names) + " but subframe_poses has length "@ + decimal(n_poses)
        + " on "@ + context + "; every subframe name needs exactly one pose"@
}

/// Subframe names and poses must pair up one for one.
pub fn check_subframe_count(context: &str, n_names: usize, n_poses: usize) -> (r: Result<(), Error>)
    ensures
        (r is Ok) == (n_names == n_poses),
        r matches Err(e) ==> (e matches Error::Construct(m) && m@ == subframe_mismatch_message(
            context@,
            n_names as nat,
            n_poses as nat,
        )),
{
    if n_names != n_poses {
        let mut s = String::from_str("subframe_names has length ");
        append_decimal(&mut s, n_names);
        s.append(" but subframe_poses has length ");
        append_decimal(&mut s, n_poses);
        s.append(" on ");
        s.append(context);
        s.append("; every subframe name needs exactly one pose");
        return Err(Error::Construct(s));
    }
    Ok(())
}

/// Pairs each subframe name with its pose. The two arrays must be of one
/// length: indexing one by the other would otherwise read past the end.
pub fn pair_subframes<P>(context: &str, names: Vec<String>, poses: Vec<P>) -> (r: Result<Vec<(String, P)>, Error>)
    ensures
        (r is Err) == (names@.len() != poses@.len()),
        r matches Err(e) ==> (e matches Error::Construct(m) && m@ == subframe_mismatch_message(
            context@,
            names@.len(),
            poses@.len(),
        )),
        r matches Ok(v) ==> v@.len() == names@.len() && forall|i: int|
            0 <= i < names@.len() ==> (#[trigger] v@[i]).0 == names@[i] && v@[i].1 == poses@[i],
{
    let n = names.len();
    let m = poses.len();
    if let Err(e) = check_subframe_count(context, n, m) {
        return Err(e);
    }
    let ghost all_names = names@;
    let ghost all_poses = poses@;
    let mut names = names;
    let mut poses = poses;
    let mut out: Vec<(String, P)> = Vec::new();
    let mut k: usize = 0;
    while k < n
        invariant
            n == all_names.len(),
            n == all_poses.len(),
            k <= n,
            names@ == all_names.skip(k as int),
            poses@ == all_poses.skip(k as int),
            out@.len() == k,
            forall|i: int| 0 <= i < k ==> (#[trigger] out@[i]).0 == all_names[i] && out@[i].1 == all_poses[i],
        decreases n - k,
    {
        let name = names.remove(0);
        let pose = poses.remove(0);
        proof {
            assert(all_names.skip(k as int).drop_first() =~= all_names.skip(k + 1));
            assert(all_poses.skip(k as int).drop_first() =~= all_poses.skip(k + 1));
        }
        out.push((name, pose));
        k = k + 1;
    }
    Ok(out)
}

/// The refusal of an ADD or APPEND with no geometry at all.
pub open spec fn no_shapes_message() -> Seq<char> {
    "there are no shapes specified in the collision object message"@
}

/// An ADD or APPEND must carry at least one shape among its three
/// geometry arrays.
pub fn check_add_has_shapes(primitives: usize, meshes: usize, planes: usize) -> (r: Result<(), Error>)
    ensures
        (r is Ok) == (primitives > 0 || meshes > 0 || planes > 0),
        r matches Err(e) ==> (e matches Error::Other(m) && m@ == no_shapes_message()),
{
    if primitives == 0 && meshes == 0 && planes == 0 {
        return Err(Error::Other(String::from_str("there are no shapes specified in the collision object message")));
    }
    Ok(())
}

/// What an ADD or APPEND does to an object that may already exist.
#[derive(Debug, Clone, Copy, PartialEq, Eq, Structural)]
pub struct AddPlan {
    /// Remove the existing object first.
    pub remove_existing: bool,
    /// The shapes make a new object, whose pose is then set.
    pub creating_fresh: bool,
}

/// ADD replaces an existing object; APPEND adds to it, and creates it only
/// when it is absent.
pub fn add_plan(is_add: bool, exists: bool) -> (p: AddPlan)
    ensures
        p.remove_existing == (is_add && exists),
        p.creating_fresh == (is_add || !exists),
{
    AddPlan { remove_existing: is_add && exists, creating_fresh: is_add || !exists }
}

/// What a REMOVE names.
#[derive(Debug, Clone, PartialEq, Eq)]
pub enum RemoveTarget {
    /// An empty id: every world object.
    All,
    /// One object, by id.
    One(String),
}

/// An empty id removes every object rather than the object named by the
/// empty string.
pub fn remove_target(id: &str) -> (r: RemoveTarget)
    ensures
        id@.len() == 0 ==> r == RemoveTarget::All,
        id@.len() > 0 ==> (r matches RemoveTarget::One(s) && s@ == id@),
{
    if id.is_empty() {
        RemoveTarget::All
    } else {
        RemoveTarget::One(id.to_owned())
    }
}

/// The refusal of a REMOVE naming an object the scene lacks.
pub open spec fn missing_remove_message(id: Seq<char>) -> Seq<char> {
    "tried to remove world object '"@ + id + "', but it does not exist in this scene"@
}

/// The outcome of removing one named object.
pub fn removal_result(id: &str, removed: bool) -> (r: Result<(), Error>)
    ensures
        (r is Ok) == removed,
        r matches Err(e) ==> (e matches Error::Other(m) && m@ == missing_remove_message(id@)),
{
    if removed {
        return Ok(());
    }
    let mut s = String::from_str("tried to remove world object '");
    s.append(id);
    s.append("', but it does not exist in this scene");
    Err(Error::Other(s))
}

/// The refusal of a MOVE naming an object the scene lacks.
pub open spec fn missing_move_message(id: Seq<char>) -> Seq<char> {
    "'"@ + id + "' does not exist. Cannot move."@
}

/// A MOVE needs its object to exist.
pub fn check_move_target(id: &str, exists: bool) -> (r: Result<(), Error>)
    ensures
        (r is Ok) == exists,
        r matches Err(e) ==> (e matches Error::Other(m) && m@ == missing_move_message(id@)),
{
    if exists {
        return Ok(());
    }
    let mut s = String::from_str("'");
    s.append(id);
    s.append("' does not exist. Cannot move.");
    Err(Error::Other(s))
}

/// The refusal of a MOVE whose shape poses do not match the object's
/// shapes one for one.
pub open spec fn shape_count_message(id: Seq<char>, supplied: nat, existing: nat) -> Seq<char> {
    "move operation for object '"@ + id + "' must have same number of geometry poses ("@ + decimal(supplied)
        + " supplied, "@ + decimal(existing) + " shape(s) exist). Cannot move. (the object's pose was still updated)"@
}

/// Whether a MOVE repositions the object's shapes too: only when it
/// supplies shape poses, and then exactly one per existing shape. The
/// object's own pose is set either way, before this is decided.
pub fn shape_repose(id: &str, supplied: usize, existing: usize) -> (r: Result<bool, Error>)
    ensures
        supplied == 0 ==> r == Ok::<bool, Error>(false),
        supplied > 0 && supplied == existing ==> r == Ok::<bool, Error>(true),
        supplied > 0 && supplied != existing ==> (r matches Err(Error::Other(m)) && m@ == shape_count_message(
            id@,
            supplied as nat,
            existing as nat,
        )),
{
    if supplied == 0 {
        return Ok(false);
    }
    if supplied != existing {
        let mut s = String::from_str("move operation for object '");
        s.append(id);
        s.append("' must have same number of geometry poses (");
        append_decimal(&mut s, supplied);
        s.append(" supplied, ");
        append_decimal(&mut s, existing);
        s.append(" shape(s) exist). Cannot move. (the object's pose was still updated)");
        return Err(Error::Other(s));
    }
    Ok(true)
}

/// What an attached-object command asks for.
#[derive(Debug, Clone, Copy, PartialEq, Eq, Structural)]
pub enum AttachedCommand {
    /// ADD (`is_add`) or APPEND: attach, from the world or the message.
    Attach { is_add: bool },
    /// REMOVE: detach.
    Detach,
}

/// The refusal of MOVE for an attached object.
pub open spec fn attached_move_message() -> Seq<char> {
    "MOVE for attached objects is not yet implemented"@
}

/// The command an attached-object message asks for. The reserved id is
/// refused first; MOVE is refused as unimplemented.
pub fn attached_command(id: &str, operation: u8) -> (r: Result<AttachedCommand, Error>)
    ensures
        id@ == OCTOMAP_NS@ ==> (r matches Err(Error::Other(m)) && m@ == reserved_id_message()),
        id@ != OCTOMAP_NS@ ==> match spec_collision_object_operation(operation) {
            Some(CollisionObjectOperation::Add) => r == Ok::<_, Error>(AttachedCommand::Attach { is_add: true }),
            Some(CollisionObjectOperation::Append) => r == Ok::<_, Error>(AttachedCommand::Attach { is_add: false }),
            Some(CollisionObjectOperation::Remove) => r == Ok::<_, Error>(AttachedCommand::Detach),
            Some(CollisionObjectOperation::Move) => r matches Err(Error::Other(m)) && m@ == attached_move_message(),
            None => r matches Err(Error::Construct(m)) && m@ == operation_message(operation),
        },
{
    match command_operation(id, operation) {
        Err(e) => Err(e),
        Ok(CollisionObjectOperation::Add) => Ok(AttachedCommand::Attach { is_add: true }),
        Ok(CollisionObjectOperation::Append) => Ok(AttachedCommand::Attach { is_add: false }),
        Ok(CollisionObjectOperation::Remove) => Ok(AttachedCommand::Detach),
        Ok(CollisionObjectOperation::Move) => Err(Error::Other(String::from_str("MOVE for attached objects is not yet implemented"))),
    }
}

/// Where an attached body's geometry comes from.
#[derive(Debug, Clone, Copy, PartialEq, Eq, Structural)]
pub enum AttachSource {
    /// The world object of the same id is moved onto the link.
    WorldObject,
    /// The message's own geometry is attached.
    MessageGeometry,
}

/// The refusal of an ADD with no geometry for an id the world lacks.
pub open spec fn nothing_to_promote_message(id: Seq<char>, link: Seq<char>) -> Seq<char> {
    "attempted to attach object '"@ + id + "' to link '"@ + link
        + "', but no geometry was specified and the object does not exist in the collision world"@
}

/// An ADD without geometry attaches the world object of that id, which
/// must exist; APPEND, and any command with geometry, attaches the
/// message's own geometry.
pub fn attach_source(
    is_add: bool,
    no_geometry: bool,
    world_has_object: bool,
    id: &str,
    link_name: &str,
) -> (r: Result<AttachSource, Error>)
    ensures
        !(is_add && no_geometry) ==> r == Ok::<_, Error>(AttachSource::MessageGeometry),
        is_add && no_geometry && world_has_object ==> r == Ok::<_, Error>(AttachSource::WorldObject),
        is_add && no_geometry && !world_has_object ==> (r matches Err(Error::Other(m)) && m@
            == nothing_to_promote_message(id@, link_name@)),
{
    if !(is_add && no_geometry) {
        return Ok(AttachSource::MessageGeometry);
    }
    if world_has_object {
        return Ok(AttachSource::WorldObject);
    }
    let mut s = String::from_str("attempted to attach object '");
    s.append(id);
    s.append("' to link '");
    s.append(link_name);
    s.append("', but no geometry was specified and the object does not exist in the collision world");
    Err(Error::Other(s))
}

/// The refusal of an attach whose message geometry holds no shape.
pub open spec fn no_geometry_message(id: Seq<char>, link: Seq<char>) -> Seq<char> {
    "there is no geometry to attach to link '"@ + link + "' as part of attached body '"@ + id + "'"@
}

/// An attach from message geometry needs at least one shape.
pub fn check_attach_geometry(shape_count: usize, id: &str, link_name: &str) -> (r: Result<(), Error>)
    ensures
        (r is Ok) == (shape_count > 0),
        r matches Err(e) ==> (e matches Error::Other(m) && m@ == no_geometry_message(id@, link_name@)),
{
    if shape_count > 0 {
        return Ok(());
    }
    let mut s = String::from_str("there is no geometry to attach to link '");
    s.append(link_name);
    s.append("' as part of attached body '");
    s.append(id);
    s.append("'");
    Err(Error::Other(s))
}


/// The lengths of a collision object's geometry and subframe arrays.
#[derive(Debug, Clone, Copy, PartialEq, Eq, Structural)]
pub struct GeometryCounts {
    pub primitives: usize,
    pub primitive_poses: usize,
    pub meshes: usize,
    pub mesh_poses: usize,
    pub planes: usize,
    pub plane_poses: usize,
    pub subframe_names: usize,
    pub subframe_poses: usize,
}

/// Why a command was refused before anything was changed: a check of the
/// message, or a frame the scene could not resolve.
#[derive(Debug)]
pub enum Refusal<E> {
    /// The message itself is refused.
    Message(Error),
    /// A transform the command needs could not be had.
    Transform(E),
}

/// The message carries no shape in any of its three geometry arrays.
pub open spec fn has_no_shapes(c: GeometryCounts) -> bool {
    c.primitives == 0 && c.meshes == 0 && c.planes == 0
}

/// The first geometry array with more poses than shapes, as its refusal:
/// primitives, then meshes, then planes.
pub open spec fn pose_count_refusal(c: GeometryCounts) -> Option<Seq<char>> {
    if c.primitives < c.primitive_poses {
        Some(more_poses_message("primitives"@, c.primitives as nat, "primitive_poses"@, c.primitive_poses as nat))
    } else if c.meshes < c.mesh_poses {
        Some(more_poses_message("meshes"@, c.meshes as nat, "mesh_poses"@, c.mesh_poses as nat))
    } else if c.planes < c.plane_poses {
        Some(more_poses_message("planes"@, c.planes as nat, "plane_poses"@, c.plane_poses as nat))
    } else {
        None
    }
}

/// The pose-count checks of the three geometry arrays, in order.
fn check_pose_counts(c: GeometryCounts) -> (r: Result<(), Error>)
    ensures
        (r is Ok) == (pose_count_refusal(c) is None),
        r matches Err(e) ==> (e matches Error::Construct(m) && pose_count_refusal(c) == Some(m@)),
{
    if let Err(e) = check_pose_count("primitives", c.primitives, "primitive_poses", c.primitive_poses) {
        return Err(e);
    }
    if let Err(e) = check_pose_count("meshes", c.meshes, "mesh_poses", c.mesh_poses) {
        return Err(e);
    }
    check_pose_count("planes", c.planes, "plane_poses", c.plane_poses)
}

/// Whether an ADD or APPEND of a world object may change the world, and
/// how.
///
/// Every check runs before the plan is handed out, so a refused command
/// changes nothing: first that there is a shape, then that the subframes
/// pair up, then that the header frame resolved (`frame`, the scene's
/// answer), then that no geometry array has more poses than shapes. Only
/// then comes the plan, with the resolved frame.
pub fn admit_add<F, E>(is_add: bool, exists: bool, c: GeometryCounts, frame: Result<F, E>) -> (r: Result<
    (AddPlan, F),
    Refusal<E>,
>)
    ensures
        has_no_shapes(c) ==> (r matches Err(Refusal::Message(Error::Other(m))) && m@ == no_shapes_message()),
        !has_no_shapes(c) && c.subframe_names != c.subframe_poses ==> (r matches Err(
            Refusal::Message(Error::Construct(m)),
        ) && m@ == subframe_mismatch_message(
            "a world object"@,
            c.subframe_names as nat,
            c.subframe_poses as nat,
        )),
        !has_no_shapes(c) && c.subframe_names == c.subframe_poses && frame is Err ==> r == Err::<
            (AddPlan, F),
            Refusal<E>,
        >(Refusal::Transform(frame->Err_0)),
        !has_no_shapes(c) && c.subframe_names == c.subframe_poses && frame is Ok && pose_count_refusal(c) is Some
            ==> (r matches Err(Refusal::Message(Error::Construct(m))) && pose_count_refusal(c) == Some(m@)),
        !has_no_shapes(c) && c.subframe_names == c.subframe_poses && frame is Ok && pose_count_refusal(c) is None
            ==> r == Ok::<(AddPlan, F), Refusal<E>>((
            AddPlan { remove_existing: is_add && exists, creating_fresh: is_add || !exists },
            frame->Ok_0,
        )),
{
    if let Err(e) = check_add_has_shapes(c.primitives, c.meshes, c.planes) {
        return Err(Refusal::Message(e));
    }
    if let Err(e) = check_subframe_count("a world object", c.subframe_names, c.subframe_poses) {
        return Err(Refusal::Message(e));
    }
    let f = match frame {
        Ok(f) => f,
        Err(e) => return Err(Refusal::Transform(e)),
    };
    if let Err(e) = check_pose_counts(c) {
        return Err(Refusal::Message(e));
    }
    Ok((add_plan(is_add, exists), f))
}

/// How an admitted attach proceeds.
#[derive(Debug)]
pub enum AttachAdmission<F> {
    /// The world object of that id moves onto the link.
    FromWorld,
    /// The message's own geometry is attached, placed with the resolved
    /// transforms.
    FromMessage(F),
}

/// Whether an ADD or APPEND of an attached object may change the scene,
/// and how.
///
/// An ADD without geometry attaches the world object of that id, which
/// must exist. Otherwise every check on the message geometry runs first:
/// the pose counts of the three arrays, then the subframe pairing, then
/// the transforms (`transforms`, the scene's answer), then that there is
/// a shape at all. A refused command changes nothing.
pub fn admit_attach<F, E>(
    is_add: bool,
    world_has_object: bool,
    c: GeometryCounts,
    id: &str,
    link_name: &str,
    transforms: Result<F, E>,
) -> (r: Result<AttachAdmission<F>, Refusal<E>>)
    ensures
        is_add && has_no_shapes(c) && world_has_object ==> r matches Ok(AttachAdmission::FromWorld),
        is_add && has_no_shapes(c) && !world_has_object ==> (r matches Err(Refusal::Message(Error::Other(m)))
            && m@ == nothing_to_promote_message(id@, link_name@)),
        !(is_add && has_no_shapes(c)) && pose_count_refusal(c) is Some ==> (r matches Err(
            Refusal::Message(Error::Construct(m)),
        ) && pose_count_refusal(c) == Some(m@)),
        !(is_add && has_no_shapes(c)) && pose_count_refusal(c) is None && c.subframe_names != c.subframe_poses
            ==> (r matches Err(Refusal::Message(Error::Construct(m))) && m@ == subframe_mismatch_message(
            "an attached object"@,
            c.subframe_names as nat,
            c.subframe_poses as nat,
        )),
        !(is_add && has_no_shapes(c)) && pose_count_refusal(c) is None && c.subframe_names == c.subframe_poses
            && transforms is Err ==> r == Err::<AttachAdmission<F>, Refusal<E>>(
            Refusal::Transform(transforms->Err_0),
        ),
        !(is_add && has_no_shapes(c)) && pose_count_refusal(c) is None && c.subframe_names == c.subframe_poses
            && transforms is Ok && has_no_shapes(c) ==> (r matches Err(Refusal::Message(Error::Other(m))) && m@
            == no_geometry_message(id@, link_name@)),
        !(is_add && has_no_shapes(c)) && pose_count_refusal(c) is None && c.subframe_names == c.subframe_poses
            && transforms is Ok && !has_no_shapes(c) ==> r == Ok::<AttachAdmission<F>, Refusal<E>>(
            AttachAdmission::FromMessage(transforms->Ok_0),
        ),
{
    let no_geometry = c.primitives == 0 && c.meshes == 0 && c.planes == 0;
    match attach_source(is_add, no_geometry, world_has_object, id, link_name) {
        Err(e) => return Err(Refusal::Message(e)),
        Ok(AttachSource::WorldObject) => return Ok(AttachAdmission::FromWorld),
        Ok(AttachSource::MessageGeometry) => {},
    }
    if let Err(e) = check_pose_counts(c) {
        return Err(Refusal::Message(e));
    }
    if let Err(e) = check_subframe_count("an attached object", c.subframe_names, c.subframe_poses) {
        return Err(Refusal::Message(e));
    }
    let f = match transforms {
        Ok(f) => f,
        Err(e) => return Err(Refusal::Transform(e)),
    };
    // The check asks only whether there is any shape at all.
    let shape_count: usize = if no_geometry { 0 } else { 1 };
    if let Err(e) = check_attach_geometry(shape_count, id, link_name) {
        return Err(Refusal::Message(e));
    }
    Ok(AttachAdmission::FromMessage(f))
}

/// The touch links of an appended body: the message's and the old body's,
/// each once, sorted.
pub fn merge_touch_links(message: &Vec<String>, existing: &Vec<String>) -> (r: Vec<String>)
    ensures
        crate::order::strictly_sorted_by_lex(string_views(r@)),
        string_views(r@).to_set() == string_views(message@).to_set() + string_views(existing@).to_set(),
{
    let mut set = ParamMap::new();
    let mut values: Vec<String> = Vec::new();
    let mut k: usize = 0;
    while k < message.len()
        invariant
            values@.len() == k,
            k <= message@.len(),
        decreases message@.len() - k,
    {
        values.push(String::new());
        k = k + 1;
    }
    set.insert_pairs(message, &values);
    proof {
        lemma_insert_pairs_dom(Map::empty(), string_views(message@), string_views(values@));
    }
    let ghost after_message = set@;
    let mut values: Vec<String> = Vec::new();
    let mut k: usize = 0;
    while k < existing.len()
        invariant
            values@.len() == k,
            k <= existing@.len(),
        decreases existing@.len() - k,
    {
        values.push(String::new());
        k = k + 1;
    }
    set.insert_pairs(existing, &values);
    proof {
        lemma_insert_pairs_dom(after_message, string_views(existing@), string_views(values@));
        assert(Map::<Seq<char>, Seq<char>>::empty().dom() + string_views(message@).to_set() =~= string_views(message@).to_set());
    }
    let (keys, vals) = set.to_arrays();
    proof {
        let kv = string_views(keys@);
        assert(map_of_pairs(kv, string_views(vals@)).dom() =~= kv.to_set());
    }
    keys
}

/// The views of `(id, link)` pairs.
pub open spec fn body_views(bodies: Seq<(String, String)>) -> Seq<(Seq<char>, Seq<char>)> {
    bodies.map_values(|b: (String, String)| (b.0@, b.1@))
}

/// The ids of the bodies attached to `link`, or of every body when `link`
/// is empty, in order.
pub open spec fn ids_on_link(bodies: Seq<(Seq<char>, Seq<char>)>, link: Seq<char>) -> Seq<Seq<char>>
    decreases bodies.len(),
{
    if bodies.len() == 0 {
        Seq::empty()
    } else {
        let rest = ids_on_link(bodies.drop_last(), link);
        if link.len() == 0 || bodies.last().1 == link {
            rest.push(bodies.last().0)
        } else {
            rest
        }
    }
}

/// The index of the first body, from `i` on, with the id `id`.
pub open spec fn first_with_id(bodies: Seq<(Seq<char>, Seq<char>)>, id: Seq<char>, i: int) -> Option<int>
    decreases bodies.len() - i,
{
    if i < 0 || i >= bodies.len() {
        None
    } else if bodies[i].0 == id {
        Some(i)
    } else {
        first_with_id(bodies, id, i + 1)
    }
}

/// The refusal of a detach naming the wrong link for its body.
pub open spec fn wrong_link_message(link: Seq<char>, id: Seq<char>, actual: Seq<char>) -> Seq<char> {
    "AttachedCollisionObject names link '"@ + link + "', but '"@ + id + "' is actually attached to '"@ + actual
        + "' -- leave link_name empty or name the correct link"@
}

/// Which attached bodies a detach applies to.
pub open spec fn spec_detach_selection(
    bodies: Seq<(Seq<char>, Seq<char>)>,
    id: Seq<char>,
    link: Seq<char>,
) -> Result<Seq<Seq<char>>, Seq<char>> {
    if id.len() == 0 {
        Ok(ids_on_link(bodies, link))
    } else {
        match first_with_id(bodies, id, 0) {
            Some(i) => if link.len() > 0 && bodies[i].1 != link {
                Err(wrong_link_message(link, id, bodies[i].1))
            } else {
                Ok(seq![id])
            },
            None => Ok(seq![id]),
        }
    }
}

proof fn lemma_first_with_id_skip(bodies: Seq<(Seq<char>, Seq<char>)>, id: Seq<char>, i: int)
    requires
        0 <= i <= bodies.len(),
        forall|j: int| 0 <= j < i ==> #[trigger] bodies[j].0 != id,
    ensures
        first_with_id(bodies, id, 0) == first_with_id(bodies, id, i),
    decreases i,
{
    if i > 0 {
        lemma_first_with_id_skip(bodies, id, i - 1);
    }
}

/// Which attached bodies a detach applies to, given the `(id, link)` of
/// every attached body.
///
/// An empty id selects every body on `link_name`, or every body when that
/// is empty too, and succeeds even when it selects none. A non-empty id
/// selects that body alone, and is refused when `link_name` names a link
/// the body is not attached to.
pub fn detach_selection(id: &str, link_name: &str, attached: &Vec<(String, String)>) -> (r: Result<
    Vec<String>,
    Error,
>)
    ensures
        match (r, spec_detach_selection(body_views(attached@), id@, link_name@)) {
            (Ok(v), Ok(s)) => string_views(v@) == s,
            (Err(Error::Other(m)), Err(t)) => m@ == t,
            _ => false,
        },
{
    let ghost bodies = body_views(attached@);
    let n = attached.len();
    if id.is_empty() {
        let mut out: Vec<String> = Vec::new();
        let mut k: usize = 0;
        while k < n
            invariant
                n == attached@.len(),
                bodies == body_views(attached@),
                k <= n,
                string_views(out@) == ids_on_link(bodies.take(k as int), link_name@),
            decreases n - k,
        {
            let body = &attached[k];
            proof {
                assert(bodies.take(k + 1).drop_last() =~= bodies.take(k as int));
                assert(bodies.take(k + 1).last() == (body.0@, body.1@));
            }
            if link_name.is_empty() || body.1.as_str().to_owned() == link_name.to_owned() {
                out.push(body.0.clone());
                proof {
                    assert(string_views(out@) =~= ids_on_link(bodies.take(k as int), link_name@).push(body.0@));
                }
            }
            k = k + 1;
        }
        proof {
            assert(bodies.take(n as int) =~= bodies);
        }
        return Ok(out);
    }
    let target = id.to_owned();
    let mut k: usize = 0;
    while k < n
        invariant
            n == attached@.len(),
            bodies == body_views(attached@),
            k <= n,
            target@ == id@,
            id@.len() > 0,
            forall|j: int| 0 <= j < k ==> #[trigger] bodies[j].0 != id@,
        decreases n - k,
    {
        let body = &attached[k];
        assert(bodies[k as int] == (body.0@, body.1@));
        if body.0 == target {
            proof {
                lemma_first_with_id_skip(bodies, id@, k as int);
            }
            if !link_name.is_empty() && !(body.1.as_str().to_owned() == link_name.to_owned()) {
                let mut s = String::from_str("AttachedCollisionObject names link '");
                s.append(link_name);
                s.append("', but '");
                s.append(id);
                s.append("' is actually attached to '");
                s.append(body.1.as_str());
                s.append("' -- leave link_name empty or name the correct link");
                return Err(Error::Other(s));
            }
            let mut out: Vec<String> = Vec::new();
            out.push(target);
            proof {
                assert(string_views(out@) =~= seq![id@]);
            }
            return Ok(out);
        }
        k = k + 1;
    }
    proof {
        lemma_first_with_id_skip(bodies, id@, n as int);
    }
    let mut out: Vec<String> = Vec::new();
    out.push(target);
    proof {
        assert(string_views(out@) =~= seq![id@]);
    }
    Ok(out)
}

/// Which of an appended body's old subframes survive: those whose names the
/// message does not give again, for the message's subframe wins.
pub fn subframes_to_keep(message_names: &Vec<String>, old_names: &Vec<String>) -> (keep: Vec<bool>)
    ensures
        keep@.len() == old_names@.len(),
        forall|i: int| 0 <= i < old_names@.len() ==> #[trigger] keep@[i] == !string_views(message_names@).contains(
            old_names@[i]@,
        ),
{
    let mut keep: Vec<bool> = Vec::new();
    let n = old_names.len();
    let m = message_names.len();
    let mut i: usize = 0;
    while i < n
        invariant
            n == old_names@.len(),
            m == message_names@.len(),
            i <= n,
            keep@.len() == i,
            forall|a: int| 0 <= a < i ==> #[trigger] keep@[a] == !string_views(message_names@).contains(old_names@[a]@),
        decreases n - i,
    {
        let mut found = false;
        let mut j: usize = 0;
        while j < m
            invariant
                m == message_names@.len(),
                i < n,
                n == old_names@.len(),
                j <= m,
                found == exists|b: int| 0 <= b < j && #[trigger] message_names@[b]@ == old_names@[i as int]@,
            decreases m - j,
        {
            if message_names[j] == old_names[i] {
                found = true;
            }
            j = j + 1;
        }
        proof {
            let sv = string_views(message_names@);
            if found {
                let b = choose|b: int| 0 <= b < m && #[trigger] message_names@[b]@ == old_names@[i as int]@;
                assert(sv[b] == old_names@[i as int]@);
            } else {
                assert forall|b: int| 0 <= b < sv.len() implies sv[b] != old_names@[i as int]@ by {
                    assert(sv[b] == message_names@[b]@);
                }
            }
        }
        keep.push(!found);
        i = i + 1;
    }
    keep
}

proof fn lemma_first_with_id_found(bodies: Seq<(Seq<char>, Seq<char>)>, id: Seq<char>, k: int)
    ensures
        first_with_id(bodies, id, k) matches Some(i) ==> 0 <= k <= i < bodies.len() && bodies[i].0 == id,
    decreases bodies.len() - k,
{
    if 0 <= k < bodies.len() && bodies[k].0 != id {
        lemma_first_with_id_found(bodies, id, k + 1);
    }
}

/// A detach naming an id hands exactly that id on to the scene, whether or
/// not a body with it is attached (the scene then answers for an unknown
/// one). It is refused only when a body with that id sits on a link other
/// than the one named, and it is never refused when no such body exists.
pub proof fn a_named_detach_selects_exactly_that_id(
    bodies: Seq<(Seq<char>, Seq<char>)>,
    id: Seq<char>,
    link: Seq<char>,
)
    requires
        id.len() > 0,
    ensures
        spec_detach_selection(bodies, id, link) is Ok ==> spec_detach_selection(bodies, id, link) == Ok::<
            Seq<Seq<char>>,
            Seq<char>,
        >(seq![id]),
        (forall|i: int| 0 <= i < bodies.len() && #[trigger] bodies[i].0 == id ==> link.len() == 0 || bodies[i].1
            == link) ==> spec_detach_selection(bodies, id, link) == Ok::<Seq<Seq<char>>, Seq<char>>(seq![id]),
        spec_detach_selection(bodies, id, link) is Err ==> link.len() > 0 && exists|i: int|
            0 <= i < bodies.len() && #[trigger] bodies[i].0 == id && bodies[i].1 != link,
{
    lemma_first_with_id_found(bodies, id, 0);
}

} // verus!
