//! The decisions `compute_cartesian_path` takes before any interpolation:
//! which group, which link, how the waypoints' frame is read, and which of
//! the request's faults answers first.
//!
//! The order of the tests is the service's contract, not the order the
//! request declares its fields in: an unknown group wins over everything;
//! the frame test only runs per waypoint, so an empty waypoint list never
//! fails it; `max_step` is tested after the frame and before the emptiness
//! test; and a filter this service does not apply is refused only once
//! there is a path to filter.

use vstd::prelude::*;
use vstd::string::StringExecFns;

use crate::text::string_views;

verus! {

/// The name of the service, unqualified so that it resolves against the
/// node's namespace.
pub const SERVICE_NAME: &'static str = "compute_cartesian_path";

/// Two frame names denote the same frame: both are non-empty and equal.
pub open spec fn same_frame(a: Seq<char>, b: Seq<char>) -> bool {
    a.len() > 0 && b.len() > 0 && a == b
}

/// Whether two frame names denote the same frame.
pub fn frames_match(a: &str, b: &str) -> (r: bool)
    ensures
        r == same_frame(a@, b@),
{
    if a.is_empty() || b.is_empty() {
        return false;
    }
    a.to_owned() == b.to_owned()
}

/// How a request's waypoints are to be read.
///
/// The two booleans "transform the waypoints" and "the reference frame is
/// global" are computed from the same three strings and cannot be "no
/// transform" and "link-relative" while also naming a third frame, so three
/// variants replace their four combinations.
#[derive(Debug, Clone, PartialEq, Eq)]
pub enum WaypointFrame {
    /// The waypoints are in the model frame: the frame id is empty or names
    /// the model frame.
    Model,
    /// The waypoints are relative to the link's own current pose: the frame
    /// id names the link.
    Link,
    /// The frame id names some third frame, which only a transform lookup
    /// could resolve.
    Foreign(String),
}

/// The abstract value of a [`WaypointFrame`].
pub enum FrameView {
    Model,
    Link,
    Foreign(Seq<char>),
}

impl View for WaypointFrame {
    type V = FrameView;

    open spec fn view(&self) -> FrameView {
        match self {
            WaypointFrame::Model => FrameView::Model,
            WaypointFrame::Link => FrameView::Link,
            WaypointFrame::Foreign(f) => FrameView::Foreign(f@),
        }
    }
}

/// The frame a request names, given the model frame and the link the path
/// is for. The link is tested first: a frame id equal to both the model
/// frame and the link is link-relative.
pub open spec fn spec_resolve(frame_id: Seq<char>, model_frame: Seq<char>, link_name: Seq<char>) -> FrameView {
    if same_frame(frame_id, link_name) {
        FrameView::Link
    } else if frame_id.len() == 0 || same_frame(frame_id, model_frame) {
        FrameView::Model
    } else {
        FrameView::Foreign(frame_id)
    }
}

/// Whether a frame reading is global: everything but link-relative.
pub open spec fn spec_global_reference_frame(frame: FrameView) -> bool {
    !(frame is Link)
}

impl WaypointFrame {
    /// Resolves the request's frame id against the model frame and the link.
    pub fn resolve(frame_id: &str, model_frame: &str, link_name: &str) -> (r: WaypointFrame)
        ensures
            r@ == spec_resolve(frame_id@, model_frame@, link_name@),
    {
        if frames_match(frame_id, link_name) {
            WaypointFrame::Link
        } else if frame_id.is_empty() || frames_match(frame_id, model_frame) {
            WaypointFrame::Model
        } else {
            WaypointFrame::Foreign(frame_id.to_owned())
        }
    }

    /// Whether the waypoints are read in a global frame rather than
    /// relative to the link.
    pub fn global_reference_frame(&self) -> (b: bool)
        ensures
            b == spec_global_reference_frame(self@),
    {
        !matches!(self, WaypointFrame::Link)
    }
}

/// A request field that asks for a filter this service does not apply.
#[derive(Debug, Clone, Copy, PartialEq, Eq, Structural)]
pub enum FilterField {
    JumpThreshold,
    PrismaticJumpThreshold,
    RevoluteJumpThreshold,
    MaxCartesianSpeed,
}

/// The wire name of each filter field.
pub open spec fn filter_field_name(f: FilterField) -> Seq<char> {
    match f {
        FilterField::JumpThreshold => "jump_threshold"@,
        FilterField::PrismaticJumpThreshold => "prismatic_jump_threshold"@,
        FilterField::RevoluteJumpThreshold => "revolute_jump_threshold"@,
        FilterField::MaxCartesianSpeed => "max_cartesian_speed"@,
    }
}

impl FilterField {
    /// The field's name on the wire.
    pub fn name(&self) -> (s: String)
        ensures
            s@ == filter_field_name(*self),
    {
        match self {
            FilterField::JumpThreshold => String::from_str("jump_threshold"),
            FilterField::PrismaticJumpThreshold => String::from_str("prismatic_jump_threshold"),
            FilterField::RevoluteJumpThreshold => String::from_str("revolute_jump_threshold"),
            FilterField::MaxCartesianSpeed => String::from_str("max_cartesian_speed"),
        }
    }
}

/// What the decision reads of a Cartesian-path request, as plain values.
///
/// The float fields arrive already compared: `max_step_usable` is
/// `max_step >= f64::EPSILON`, and each `*_set` flag is `field > 0.0`.
#[derive(Debug, Clone)]
pub struct CartesianRequest {
    pub group_name: String,
    pub link_name: String,
    pub frame_id: String,
    pub waypoint_count: usize,
    pub max_step_usable: bool,
    pub jump_threshold_set: bool,
    pub prismatic_jump_threshold_set: bool,
    pub revolute_jump_threshold_set: bool,
    pub max_cartesian_speed_set: bool,
}

/// Why a request is answered with an error code and no path.
#[derive(Debug, Clone, PartialEq, Eq)]
pub enum CartesianRefusal {
    /// The request names no group of the model (`INVALID_GROUP_NAME`).
    UnknownGroup,
    /// The request names no link and the group has none to default to
    /// (`FAILURE`).
    GroupHasNoLinks,
    /// The waypoints are in a frame this node cannot transform from
    /// (`FRAME_TRANSFORM_FAILURE`); the frame id is carried.
    ForeignFrame(String),
    /// `max_step` is below machine epsilon (`FAILURE`).
    MaxStepUnusable,
    /// A filter the service does not apply was asked for (`FAILURE`).
    UnappliedFilter(FilterField),
}

/// What the service does with a request before interpolating.
#[derive(Debug, Clone, PartialEq, Eq)]
pub enum CartesianPlan {
    /// Answer with an error code.
    Refused(CartesianRefusal),
    /// No waypoints and a usable step: answer success with every other
    /// response field left at its default.
    NothingRequested,
    /// Interpolate for `link_name`, reading the waypoints as `frame` says.
    Interpolate { link_name: String, frame: WaypointFrame },
}

/// The abstract value of a [`CartesianRefusal`].
pub enum RefusalView {
    UnknownGroup,
    GroupHasNoLinks,
    ForeignFrame(Seq<char>),
    MaxStepUnusable,
    UnappliedFilter(FilterField),
}

/// The abstract value of a [`CartesianRefusal`].
pub open spec fn refusal_view(r: CartesianRefusal) -> RefusalView {
    match r {
        CartesianRefusal::UnknownGroup => RefusalView::UnknownGroup,
        CartesianRefusal::GroupHasNoLinks => RefusalView::GroupHasNoLinks,
        CartesianRefusal::ForeignFrame(f) => RefusalView::ForeignFrame(f@),
        CartesianRefusal::MaxStepUnusable => RefusalView::MaxStepUnusable,
        CartesianRefusal::UnappliedFilter(f) => RefusalView::UnappliedFilter(f),
    }
}

/// The abstract value of a [`CartesianPlan`].
pub enum PlanView {
    Refused(RefusalView),
    NothingRequested,
    Interpolate { link_name: Seq<char>, frame: FrameView },
}

impl View for CartesianPlan {
    type V = PlanView;

    open spec fn view(&self) -> PlanView {
        match self {
            CartesianPlan::Refused(r) => PlanView::Refused(refusal_view(*r)),
            CartesianPlan::NothingRequested => PlanView::NothingRequested,
            CartesianPlan::Interpolate { link_name, frame } => PlanView::Interpolate {
                link_name: link_name@,
                frame: frame@,
            },
        }
    }
}

/// The first filter field, in the order the service reads them, that asks
/// for a filter.
pub open spec fn first_filter(r: CartesianRequest) -> Option<FilterField> {
    if r.jump_threshold_set {
        Some(FilterField::JumpThreshold)
    } else if r.prismatic_jump_threshold_set {
        Some(FilterField::PrismaticJumpThreshold)
    } else if r.revolute_jump_threshold_set {
        Some(FilterField::RevoluteJumpThreshold)
    } else if r.max_cartesian_speed_set {
        Some(FilterField::MaxCartesianSpeed)
    } else {
        None
    }
}

/// The service's answer before interpolation. `group_links` is the link
/// list of the group the request names, or `None` when the model has no
/// such group.
pub open spec fn spec_plan(
    r: CartesianRequest,
    group_links: Option<Seq<Seq<char>>>,
    model_frame: Seq<char>,
) -> PlanView {
    match group_links {
        None => PlanView::Refused(RefusalView::UnknownGroup),
        Some(links) => if r.link_name@.len() == 0 && links.len() == 0 {
            PlanView::Refused(RefusalView::GroupHasNoLinks)
        } else {
            let link = if r.link_name@.len() == 0 { links.last() } else { r.link_name@ };
            let frame = spec_resolve(r.frame_id@, model_frame, link);
            if (frame is Foreign) && r.waypoint_count > 0 {
                PlanView::Refused(RefusalView::ForeignFrame(r.frame_id@))
            } else if !r.max_step_usable {
                PlanView::Refused(RefusalView::MaxStepUnusable)
            } else if r.waypoint_count == 0 {
                PlanView::NothingRequested
            } else if first_filter(r) is Some {
                PlanView::Refused(RefusalView::UnappliedFilter(first_filter(r)->0))
            } else {
                PlanView::Interpolate { link_name: link, frame }
            }
        },
    }
}

/// Decides what the service does with `request` before interpolating.
///
/// `group_links` is the link list of the requested group as the robot
/// model has it, or `None` when the model has no such group.
pub fn plan_cartesian_path(
    request: &CartesianRequest,
    group_links: Option<&Vec<String>>,
    model_frame: &str,
) -> (p: CartesianPlan)
    ensures
        p@ == spec_plan(
            *request,
            match group_links {
                Some(l) => Some(string_views(l@)),
                None => None,
            },
            model_frame@,
        ),
{
    let links = match group_links {
        None => return CartesianPlan::Refused(CartesianRefusal::UnknownGroup),
        Some(l) => l,
    };
    let link_name = if request.link_name.as_str().is_empty() {
        let n = links.len();
        if n == 0 {
            return CartesianPlan::Refused(CartesianRefusal::GroupHasNoLinks);
        }
        links[n - 1].clone()
    } else {
        request.link_name.clone()
    };
    let frame = WaypointFrame::resolve(request.frame_id.as_str(), model_frame, link_name.as_str());
    if matches!(frame, WaypointFrame::Foreign(_)) && request.waypoint_count > 0 {
        return CartesianPlan::Refused(CartesianRefusal::ForeignFrame(request.frame_id.clone()));
    }
    if !request.max_step_usable {
        return CartesianPlan::Refused(CartesianRefusal::MaxStepUnusable);
    }
    if request.waypoint_count == 0 {
        return CartesianPlan::NothingRequested;
    }
    let filter = if request.jump_threshold_set {
        Some(FilterField::JumpThreshold)
    } else if request.prismatic_jump_threshold_set {
        Some(FilterField::PrismaticJumpThreshold)
    } else if request.revolute_jump_threshold_set {
        Some(FilterField::RevoluteJumpThreshold)
    } else if request.max_cartesian_speed_set {
        Some(FilterField::MaxCartesianSpeed)
    } else {
        None
    };
    match filter {
        Some(f) => CartesianPlan::Refused(CartesianRefusal::UnappliedFilter(f)),
        None => CartesianPlan::Interpolate { link_name, frame },
    }
}

/// The link a request's waypoints are read against: the one it names, or
/// else the last link of its group.
pub open spec fn spec_request_link(r: CartesianRequest, group_links: Option<Seq<Seq<char>>>) -> Seq<char> {
    if r.link_name@.len() == 0 && group_links is Some && group_links->0.len() > 0 {
        group_links->0.last()
    } else {
        r.link_name@
    }
}

/// The answer's message for a refusal whose wording holds no floating-point
/// value; `None` for the two that quote the offending number.
pub open spec fn spec_refusal_text(
    refusal: RefusalView,
    group_name: Seq<char>,
    model_frame: Seq<char>,
    link: Seq<char>,
) -> Option<Seq<char>> {
    match refusal {
        RefusalView::UnknownGroup => Some("no group named '"@ + group_name + "'"@),
        RefusalView::GroupHasNoLinks => Some(
            "group '"@ + group_name + "' has no links and the request named no link_name"@,
        ),
        RefusalView::ForeignFrame(frame) => Some(
            "waypoints are in frame '"@ + frame + "', which is neither the model frame '"@ + model_frame
                + "' nor '"@ + link + "', and this node runs no TF client"@,
        ),
        RefusalView::MaxStepUnusable => None,
        RefusalView::UnappliedFilter(_) => None,
    }
}

/// The message a refusal is answered with, where its wording holds no
/// floating-point value. `group_links` is as [`plan_cartesian_path`] takes
/// it.
pub fn refusal_text(
    refusal: &CartesianRefusal,
    request: &CartesianRequest,
    group_links: Option<&Vec<String>>,
    model_frame: &str,
) -> (t: Option<String>)
    ensures
        match t {
            Some(s) => spec_refusal_text(
                refusal_view(*refusal),
                request.group_name@,
                model_frame@,
                spec_request_link(
                    *request,
                    match group_links {
                        Some(l) => Some(string_views(l@)),
                        None => None,
                    },
                ),
            ) == Some(s@),
            None => spec_refusal_text(
                refusal_view(*refusal),
                request.group_name@,
                model_frame@,
                spec_request_link(
                    *request,
                    match group_links {
                        Some(l) => Some(string_views(l@)),
                        None => None,
                    },
                ),
            ) is None,
        },
{
    match refusal {
        CartesianRefusal::UnknownGroup => {
            let mut s = String::from_str("no group named '");
            s.append(request.group_name.as_str());
            s.append("'");
            Some(s)
        },
        CartesianRefusal::GroupHasNoLinks => {
            let mut s = String::from_str("group '");
            s.append(request.group_name.as_str());
            s.append("' has no links and the request named no link_name");
            Some(s)
        },
        CartesianRefusal::ForeignFrame(frame) => {
            let link: &str = match group_links {
                Some(l) => if request.link_name.as_str().is_empty() && l.len() > 0 {
                    proof {
                        assert(string_views(l@).last() == l@[l@.len() - 1]@);
                    }
                    l[l.len() - 1].as_str()
                } else {
                    request.link_name.as_str()
                },
                None => request.link_name.as_str(),
            };
            let mut s = String::from_str("waypoints are in frame '");
            s.append(frame.as_str());
            s.append("', which is neither the model frame '");
            s.append(model_frame);
            s.append("' nor '");
            s.append(link);
            s.append("', and this node runs no TF client");
            Some(s)
        },
        CartesianRefusal::MaxStepUnusable => None,
        CartesianRefusal::UnappliedFilter(_) => None,
    }
}

/// Whether a path-constraints message constrains nothing: all four of its
/// constraint lists are empty. Takes the lists' lengths.
pub fn constraints_are_empty(
    position: usize,
    orientation: usize,
    visibility: usize,
    joint: usize,
) -> (b: bool)
    ensures
        b == (position == 0 && orientation == 0 && visibility == 0 && joint == 0),
{
    position == 0 && orientation == 0 && visibility == 0 && joint == 0
}

/// The link-relative reading is the only one that is not global, whatever
/// the three names are.
pub proof fn global_unless_link_relative(frame_id: Seq<char>, model_frame: Seq<char>, link_name: Seq<char>)
    ensures
        spec_global_reference_frame(spec_resolve(frame_id, model_frame, link_name))
            <==> !same_frame(frame_id, link_name),
{
}

/// An empty waypoint list is never refused for its frame: whatever frame it
/// names, a usable step answers "nothing requested" once the group and link
/// resolve.
pub proof fn empty_request_never_needs_a_transform(
    r: CartesianRequest,
    links: Seq<Seq<char>>,
    model_frame: Seq<char>,
)
    requires
        r.waypoint_count == 0,
        r.max_step_usable,
        r.link_name@.len() > 0 || links.len() > 0,
    ensures
        spec_plan(r, Some(links), model_frame) == PlanView::NothingRequested,
{
}

/// An unknown group is reported as such whatever else the request gets
/// wrong.
pub proof fn an_unknown_group_is_reported_first(r: CartesianRequest, model_frame: Seq<char>)
    ensures
        spec_plan(r, None, model_frame) == PlanView::Refused(RefusalView::UnknownGroup),
{
}

/// An unusable step is refused even when there is nothing to interpolate:
/// the step is checked before the waypoints are counted.
pub proof fn an_unusable_step_is_refused_without_waypoints(
    r: CartesianRequest,
    links: Seq<Seq<char>>,
    model_frame: Seq<char>,
)
    requires
        r.waypoint_count == 0,
        !r.max_step_usable,
        r.link_name@.len() > 0 || links.len() > 0,
    ensures
        spec_plan(r, Some(links), model_frame) == PlanView::Refused(RefusalView::MaxStepUnusable),
{
}

/// A request with waypoints in a frame that no transform resolves is
/// refused for its frame, before its step or its filters are looked at.
pub proof fn a_foreign_frame_with_waypoints_is_refused_for_its_frame(
    r: CartesianRequest,
    links: Seq<Seq<char>>,
    model_frame: Seq<char>,
)
    requires
        r.waypoint_count > 0,
        r.link_name@.len() > 0,
        r.frame_id@.len() > 0,
        !same_frame(r.frame_id@, r.link_name@),
        !same_frame(r.frame_id@, model_frame),
    ensures
        spec_plan(r, Some(links), model_frame) == PlanView::Refused(RefusalView::ForeignFrame(r.frame_id@)),
{
}

/// The link a plan interpolates for is the request's own, or else the
/// group's last link, and its waypoints are read relative to that very
/// link exactly when the frame they name is that link.
pub proof fn the_frame_is_read_against_the_interpolated_link(
    r: CartesianRequest,
    links: Seq<Seq<char>>,
    model_frame: Seq<char>,
)
    ensures
        spec_plan(r, Some(links), model_frame) matches PlanView::Interpolate { link_name, frame } ==> {
            &&& r.link_name@.len() > 0 ==> link_name == r.link_name@
            &&& r.link_name@.len() == 0 ==> links.len() > 0 && link_name == links[links.len() - 1]
            &&& (frame is Link) == (r.frame_id@.len() > 0 && r.frame_id@ == link_name)
            &&& (frame is Model) == (!(frame is Link) && (r.frame_id@.len() == 0 || r.frame_id@
                == model_frame))
        },
{
}

/// A request that names no link, with waypoints in the frame of its
/// group's last link, a usable step and no filter, interpolates for that
/// last link with the waypoints read relative to it.
pub proof fn an_empty_link_defaults_to_the_last_link_and_its_frame(
    r: CartesianRequest,
    links: Seq<Seq<char>>,
    model_frame: Seq<char>,
)
    requires
        r.link_name@.len() == 0,
        links.len() > 0,
        links[links.len() - 1].len() > 0,
        r.frame_id@ == links[links.len() - 1],
        r.waypoint_count > 0,
        r.max_step_usable,
        !r.jump_threshold_set,
        !r.prismatic_jump_threshold_set,
        !r.revolute_jump_threshold_set,
        !r.max_cartesian_speed_set,
    ensures
        spec_plan(r, Some(links), model_frame) == (PlanView::Interpolate {
            link_name: links[links.len() - 1],
            frame: FrameView::Link,
        }),
{
}

} // verus!
