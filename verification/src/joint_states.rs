//! What a `joint_states` message built from a robot model carries.
//!
//! A client drops a joint-state message whose `name` and `position` arrays
//! differ in length, and skips any name whose joint does not have exactly
//! one variable. The sampler therefore resolves, once, the model's active
//! joints that have exactly one variable, and builds both arrays from that
//! one list. A model with no such joint is refused, because every message
//! built from it would be empty and could never complete a client's state.

use vstd::prelude::*;
use vstd::string::StringExecFns;

verus! {

/// A message time stamp.
#[derive(Debug, Clone, Copy, PartialEq, Eq, Structural)]
pub struct Time {
    pub sec: i32,
    pub nanosec: u32,
}

/// A message header: when, and in which frame.
#[derive(Debug, Clone, PartialEq, Eq)]
pub struct Header {
    pub stamp: Time,
    pub frame_id: String,
}

/// A `sensor_msgs/JointState` message, generic over the position type.
#[derive(Debug, Clone, PartialEq)]
pub struct JointState<T> {
    pub header: Header,
    pub name: Vec<String>,
    pub position: Vec<T>,
    pub velocity: Vec<T>,
    pub effort: Vec<T>,
}

/// One active joint of a model, as far as a joint-state message needs it.
#[derive(Debug, Clone)]
pub struct ActiveJoint {
    /// The joint's name, which is also the name of its single variable.
    pub name: String,
    /// How many variables the joint has.
    pub variable_count: usize,
    /// The name of the joint's first variable.
    pub first_variable: String,
    /// Where the model keeps that variable among its positions, if the
    /// model knows it.
    pub variable_index: Option<usize>,
}

/// Why a model cannot be described on `joint_states`.
#[derive(Debug, Clone, PartialEq, Eq)]
pub enum SamplerError {
    /// The model has no active single-variable joint.
    NoSingleDofJoints,
    /// A joint's own variable is not a variable of the model that owns it.
    UnknownVariable(String),
}

/// A [`SamplerError`] with its string as characters.
pub enum SamplerErrorView {
    /// [`SamplerError::NoSingleDofJoints`].
    NoSingleDofJoints,
    /// [`SamplerError::UnknownVariable`].
    UnknownVariable(Seq<char>),
}

/// What `str`'s `Debug` renders `s` as: quoted, with the characters that
/// need it escaped.
pub uninterp spec fn debug_str(s: Seq<char>) -> Seq<char>;

/// `format!("{:?}", s)`: the `Debug` rendering of a string.
#[verifier::external_body]
fn debug_quoted(s: &str) -> (r: String)
    ensures
        r@ == debug_str(s@),
{
    format!("{:?}", s)
}

impl SamplerError {
    /// The error with its variable name as characters.
    pub open spec fn view_of(self) -> SamplerErrorView {
        match self {
            SamplerError::NoSingleDofJoints => SamplerErrorView::NoSingleDofJoints,
            SamplerError::UnknownVariable(v) => SamplerErrorView::UnknownVariable(v@),
        }
    }

    /// A sentence explaining the error.
    pub fn message(&self) -> (m: String)
        ensures
            self is NoSingleDofJoints ==> m@ == "the model has no active single-DOF joint, so a joint_states message built from it could never complete a client's current state"@,
            self matches SamplerError::UnknownVariable(v) ==> m@ == "joint variable "@ + debug_str(v@)
                + " is not a variable of its own model"@,
    {
        match self {
            SamplerError::NoSingleDofJoints => String::from_str(
                "the model has no active single-DOF joint, so a joint_states message built from it could never complete a client's current state",
            ),
            SamplerError::UnknownVariable(v) => {
                let mut m = String::from_str("joint variable ");
                let quoted = debug_quoted(v.as_str());
                m.append(quoted.as_str());
                m.append(" is not a variable of its own model");
                m
            },
        }
    }
}

/// The `(name, position index)` list resolved from `joints[i..]`, or the
/// first joint whose variable the model does not know.
pub open spec fn resolve_from(joints: Seq<ActiveJoint>, i: int) -> Result<
    Seq<(Seq<char>, usize)>,
    SamplerErrorView,
>
    decreases joints.len() - i,
{
    if i < 0 || i >= joints.len() {
        Ok(seq![])
    } else if joints[i].variable_count != 1 {
        resolve_from(joints, i + 1)
    } else {
        match joints[i].variable_index {
            None => Err(SamplerErrorView::UnknownVariable(joints[i].first_variable@)),
            Some(p) => match resolve_from(joints, i + 1) {
                Ok(rest) => Ok(seq![(joints[i].name@, p)] + rest),
                Err(e) => Err(e),
            },
        }
    }
}

/// What [`JointSampler::new`] decides for `joints`.
pub open spec fn spec_sampler(joints: Seq<ActiveJoint>) -> Result<
    Seq<(Seq<char>, usize)>,
    SamplerErrorView,
> {
    match resolve_from(joints, 0) {
        Err(e) => Err(e),
        Ok(s) => if s.len() == 0 {
            Err(SamplerErrorView::NoSingleDofJoints)
        } else {
            Ok(s)
        },
    }
}

/// The active single-variable joints of one model, resolved to position
/// indices once so that sampling cannot fail.
pub struct JointSampler {
    joints: Vec<(String, usize)>,
}

impl View for JointSampler {
    type V = Seq<(Seq<char>, usize)>;

    closed spec fn view(&self) -> Seq<(Seq<char>, usize)> {
        self.joints@.map_values(|j: (String, usize)| (j.0@, j.1))
    }
}

impl JointSampler {
    /// Resolves the active joints with exactly one variable, in order.
    ///
    /// Fails with the first joint whose variable the model does not know,
    /// or, when there is none to describe, with `NoSingleDofJoints`.
    pub fn new(joints: &[ActiveJoint]) -> (r: Result<JointSampler, SamplerError>)
        ensures
            r matches Ok(s) ==> spec_sampler(joints@) == Ok::<_, SamplerErrorView>(s@),
            r matches Err(e) ==> spec_sampler(joints@) == Err::<Seq<(Seq<char>, usize)>, _>(
                e.view_of(),
            ),
    {
        let mut out: Vec<(String, usize)> = Vec::new();
        let mut i: usize = 0;
        let ghost mapped = |j: (String, usize)| (j.0@, j.1);
        while i < joints.len()
            invariant
                i <= joints@.len(),
                mapped == (|j: (String, usize)| (j.0@, j.1)),
                resolve_from(joints@, 0) == match resolve_from(joints@, i as int) {
                    Ok(rest) => Ok(out@.map_values(mapped) + rest),
                    Err(e) => Err(e),
                },
            decreases joints@.len() - i,
        {
            let j = &joints[i];
            if j.variable_count == 1 {
                match j.variable_index {
                    None => {
                        return Err(SamplerError::UnknownVariable(j.first_variable.clone()));
                    },
                    Some(p) => {
                        let ghost before = out@.map_values(mapped);
                        out.push((j.name.clone(), p));
                        proof {
                            assert(out@.map_values(mapped) =~= before.push((j.name@, p)));
                            match resolve_from(joints@, i + 1) {
                                Ok(rest) => {
                                    assert(before.push((j.name@, p)) + rest =~= before + (seq![
                                        (j.name@, p),
                                    ] + rest));
                                },
                                Err(_) => {},
                            }
                        }
                    },
                }
            }
            i = i + 1;
        }
        proof {
            assert(out@.map_values(mapped) + seq![] =~= out@.map_values(mapped));
        }
        if out.len() == 0 {
            return Err(SamplerError::NoSingleDofJoints);
        }
        Ok(JointSampler { joints: out })
    }

    /// Whether every sampled joint's position index lies below `len`, so
    /// that [`JointSampler::sample`] may read a state of `len` positions.
    pub fn reads_within(&self, len: usize) -> (b: bool)
        ensures
            b == (forall|k: int| 0 <= k < self@.len() ==> (#[trigger] self@[k]).1 < len),
    {
        let n = self.joints.len();
        let mut k: usize = 0;
        while k < n
            invariant
                n == self.joints@.len(),
                k <= n,
                self@ == self.joints@.map_values(|j: (String, usize)| (j.0@, j.1)),
                forall|m: int| 0 <= m < k ==> (#[trigger] self@[m]).1 < len,
            decreases n - k,
        {
            assert(self@[k as int].1 == self.joints@[k as int].1);
            if self.joints[k].1 >= len {
                return false;
            }
            k = k + 1;
        }
        true
    }

    /// The message for a state whose variable positions are `positions`,
    /// stamped `stamp`.
    ///
    /// `name` and `position` are read off one list, so they have one
    /// length; `velocity` and `effort` are empty, because nothing measured
    /// them; the header carries the caller's stamp unchanged and no frame.
    pub fn sample<T: Copy>(&self, positions: &[T], stamp: Time) -> (r: JointState<T>)
        requires
            forall|k: int| 0 <= k < self@.len() ==> (#[trigger] self@[k]).1 < positions@.len(),
        ensures
            r.name@.len() == self@.len(),
            r.position@.len() == self@.len(),
            forall|k: int| 0 <= k < self@.len() ==> (#[trigger] r.name@[k])@ == self@[k].0,
            forall|k: int| 0 <= k < self@.len() ==> #[trigger] r.position@[k] == positions@[self@[k].1 as int],
            r.velocity@.len() == 0,
            r.effort@.len() == 0,
            r.header.stamp == stamp,
            r.header.frame_id@.len() == 0,
    {
        let mut names: Vec<String> = Vec::new();
        let mut values: Vec<T> = Vec::new();
        let mut k: usize = 0;
        while k < self.joints.len()
            invariant
                k <= self.joints@.len(),
                self@ == self.joints@.map_values(|j: (String, usize)| (j.0@, j.1)),
                forall|m: int|
                    0 <= m < self@.len() ==> (#[trigger] self@[m]).1 < positions@.len(),
                names@.len() == k,
                values@.len() == k,
                forall|m: int| 0 <= m < k ==> (#[trigger] names@[m])@ == self@[m].0,
                forall|m: int| 0 <= m < k ==> #[trigger] values@[m] == positions@[self@[m].1 as int],
            decreases self.joints@.len() - k,
        {
            assert(self@[k as int] == (self.joints@[k as int].0@, self.joints@[k as int].1));
            let index = self.joints[k].1;
            names.push(self.joints[k].0.clone());
            values.push(positions[index]);
            k = k + 1;
        }
        let r = JointState {
            header: Header { stamp, frame_id: String::new() },
            name: names,
            position: values,
            velocity: Vec::new(),
            effort: Vec::new(),
        };
        r
    }
}

} // verus!
