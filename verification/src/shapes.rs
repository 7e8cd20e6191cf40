//! The integer shape of `shape_msgs/Mesh` triangles and `shape_msgs/Plane`
//! coefficients.
//!
//! On the wire a triangle's `vertex_indices` and a plane's `coef` are
//! arrays of any length; a triangle has exactly three vertices and a plane
//! exactly four coefficients, and any other length is refused rather than
//! truncated or indexed past its end.

use vstd::prelude::*;
use vstd::string::StringExecFns;

use crate::error::Error;
use crate::text::{decimal, decimal_string};

verus! {

/// The refusal of a triangle whose index array is not three long.
pub open spec fn triangle_length_message(i: nat, len: nat) -> Seq<char> {
    "MeshTriangle["@ + decimal(i) + "].vertex_indices has length "@ + decimal(len) + ", expected exactly 3"@
}

/// The first triangle, from `i` on, whose index array is not three long.
pub open spec fn first_bad_triangle(ts: Seq<Seq<u32>>, i: int) -> Option<int>
    decreases ts.len() - i,
{
    if i < 0 || i >= ts.len() {
        None
    } else if ts[i].len() != 3 {
        Some(i)
    } else {
        first_bad_triangle(ts, i + 1)
    }
}

/// The index arrays of a mesh's triangles.
pub open spec fn index_views(ts: Seq<Vec<u32>>) -> Seq<Seq<u32>> {
    ts.map_values(|t: Vec<u32>| t@)
}

proof fn lemma_first_bad_from(ts: Seq<Seq<u32>>, m: int, i: int)
    requires
        0 <= m <= i,
        i <= ts.len(),
        forall|k: int| 0 <= k < i ==> #[trigger] ts[k].len() == 3,
    ensures
        first_bad_triangle(ts, m) == first_bad_triangle(ts, i),
    decreases i - m,
{
    if m < i {
        lemma_first_bad_from(ts, m + 1, i);
    }
}

/// A mesh's triangles as index triples. Refused at the first triangle
/// whose index array is not three long.
pub fn mesh_triangles(triangles: &Vec<Vec<u32>>) -> (r: Result<Vec<[u32; 3]>, Error>)
    ensures
        match first_bad_triangle(index_views(triangles@), 0) {
            Some(i) => r matches Err(Error::Construct(m)) && m@ == triangle_length_message(
                i as nat,
                triangles@[i]@.len(),
            ),
            None => r matches Ok(v) && v@.len() == triangles@.len() && forall|i: int|
                0 <= i < v@.len() ==> #[trigger] v@[i]@ == triangles@[i]@,
        },
{
    let ghost ts = index_views(triangles@);
    let n = triangles.len();
    let mut out: Vec<[u32; 3]> = Vec::new();
    let mut i: usize = 0;
    while i < n
        invariant
            n == triangles@.len(),
            ts == index_views(triangles@),
            i <= n,
            forall|k: int| 0 <= k < i ==> #[trigger] ts[k].len() == 3,
            out@.len() == i,
            forall|k: int| 0 <= k < i ==> #[trigger] out@[k]@ == triangles@[k]@,
        decreases n - i,
    {
        let t = &triangles[i];
        assert(ts[i as int] == t@);
        if t.len() != 3 {
            proof {
                lemma_first_bad_from(ts, 0, i as int);
            }
            let mut m = String::from_str("MeshTriangle[");
            let d = decimal_string(i as u64);
            m.append(d.as_str());
            m.append("].vertex_indices has length ");
            let d = decimal_string(t.len() as u64);
            m.append(d.as_str());
            m.append(", expected exactly 3");
            return Err(Error::Construct(m));
        }
        let tri = [t[0], t[1], t[2]];
        assert(tri@ =~= t@);
        out.push(tri);
        i = i + 1;
    }
    proof {
        lemma_first_bad_from(ts, 0, n as int);
    }
    Ok(out)
}

/// The index arrays a mesh's triangles go on the wire as.
pub fn triangles_to_wire(triangles: &Vec<[u32; 3]>) -> (r: Vec<Vec<u32>>)
    ensures
        r@.len() == triangles@.len(),
        forall|i: int| 0 <= i < r@.len() ==> #[trigger] r@[i]@ == triangles@[i]@,
{
    let n = triangles.len();
    let mut out: Vec<Vec<u32>> = Vec::new();
    let mut i: usize = 0;
    while i < n
        invariant
            n == triangles@.len(),
            i <= n,
            out@.len() == i,
            forall|k: int| 0 <= k < i ==> #[trigger] out@[k]@ == triangles@[k]@,
        decreases n - i,
    {
        let t = triangles[i];
        let mut v: Vec<u32> = Vec::new();
        v.push(t[0]);
        v.push(t[1]);
        v.push(t[2]);
        assert(v@ =~= t@);
        out.push(v);
        i = i + 1;
    }
    out
}

/// The refusal of a plane whose coefficient array is not four long.
pub open spec fn plane_length_message(len: nat) -> Seq<char> {
    "Plane.coef has length "@ + decimal(len) + ", expected exactly 4"@
}

/// A plane's four coefficients `a x + b y + c z + d = 0`, in order.
pub fn plane_coefficients<T: Copy>(coef: &[T]) -> (r: Result<[T; 4], Error>)
    ensures
        coef@.len() == 4 ==> (r matches Ok(c) && c@ == coef@),
        coef@.len() != 4 ==> (r matches Err(Error::Construct(m)) && m@ == plane_length_message(coef@.len())),
{
    let n = coef.len();
    if n != 4 {
        let mut m = String::from_str("Plane.coef has length ");
        let d = decimal_string(n as u64);
        m.append(d.as_str());
        m.append(", expected exactly 4");
        return Err(Error::Construct(m));
    }
    let c = [coef[0], coef[1], coef[2], coef[3]];
    assert(c@ =~= coef@);
    Ok(c)
}

/// Triangles sent on the wire decode to themselves.
pub proof fn triangles_round_trip(triangles: Seq<[u32; 3]>, wire: Seq<Vec<u32>>)
    requires
        wire.len() == triangles.len(),
        forall|i: int| 0 <= i < wire.len() ==> #[trigger] wire[i]@ == triangles[i]@,
    ensures
        first_bad_triangle(index_views(wire), 0) is None,
{
    let ts = index_views(wire);
    assert forall|k: int| 0 <= k < ts.len() implies #[trigger] ts[k].len() == 3 by {
        assert(ts[k] == wire[k]@);
        assert(triangles[k]@.len() == 3);
    }
    lemma_first_bad_from(ts, 0, ts.len() as int);
}

/// The refusal of a bounding volume whose primitives and poses do not
/// pair up one for one.
pub open spec fn bounding_volume_length_message(n_primitives: nat, n_poses: nat) -> Seq<char> {
    "BoundingVolume.primitives has length "@ + decimal(n_primitives) + " but primitive_poses has length "@
        + decimal(n_poses)
}

/// The refusal of a bounding volume made of meshes.
pub open spec fn bounding_volume_mesh_message() -> Seq<char> {
    "BoundingVolume.meshes is not supported this round"@
}

/// A constraint region is a list of primitives, each with exactly one pose,
/// and no meshes; the pairing is checked first.
pub fn check_bounding_volume(primitives: usize, primitive_poses: usize, meshes: usize, mesh_poses: usize) -> (r:
    Result<(), Error>)
    ensures
        (r is Ok) == (primitives == primitive_poses && meshes == 0 && mesh_poses == 0),
        primitives != primitive_poses ==> (r matches Err(Error::Construct(m)) && m@ == bounding_volume_length_message(
            primitives as nat,
            primitive_poses as nat,
        )),
        primitives == primitive_poses && (meshes > 0 || mesh_poses > 0) ==> (r matches Err(Error::Other(m)) && m@
            == bounding_volume_mesh_message()),
{
    if primitives != primitive_poses {
        let mut m = String::from_str("BoundingVolume.primitives has length ");
        let d = decimal_string(primitives as u64);
        m.append(d.as_str());
        m.append(" but primitive_poses has length ");
        let d = decimal_string(primitive_poses as u64);
        m.append(d.as_str());
        return Err(Error::Construct(m));
    }
    if meshes > 0 || mesh_poses > 0 {
        return Err(Error::Other(String::from_str("BoundingVolume.meshes is not supported this round")));
    }
    Ok(())
}

} // verus!
