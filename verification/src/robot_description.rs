//! The URDF and SRDF text a client builds its own robot model from,
//! published once on two latched topics.
//!
//! A client's loader reads both strings and gives up unless both parse, so
//! both are published. [`RobotDescription`] is their single owner: the text
//! the node plans against and the text a client reads are the same value,
//! and parsing reports which of the two documents it could not read by
//! naming that document's topic.

use vstd::prelude::*;
use vstd::string::StringExecFns;

use crate::error::Error;
use crate::text::{chars_of, contains, find_chars};

verus! {

/// The topic the URDF is published on, unqualified so that it resolves
/// against the node's namespace.
pub const URDF_TOPIC: &'static str = "robot_description";

/// The topic the SRDF is published on: the URDF topic's name with
/// `_semantic` appended.
pub const SRDF_TOPIC: &'static str = "robot_description_semantic";

/// The URDF and SRDF text this process was started with.
#[derive(Debug)]
pub struct RobotDescription {
    urdf_xml: String,
    srdf_xml: String,
}

/// The abstract value of a [`RobotDescription`]: the two documents.
pub struct DescriptionView {
    pub urdf: Seq<char>,
    pub srdf: Seq<char>,
}

impl View for RobotDescription {
    type V = DescriptionView;

    closed spec fn view(&self) -> DescriptionView {
        DescriptionView { urdf: self.urdf_xml@, srdf: self.srdf_xml@ }
    }
}

#[verifier::external_type_specification]
#[verifier::external_body]
pub struct ExUrdfRobot(urdf_rs::Robot);

#[verifier::external_type_specification]
#[verifier::external_body]
pub struct ExUrdfError(urdf_rs::UrdfError);

/// Whether `urdf_rs::read_from_string` accepts the text. Acceptance is a
/// function of the text alone; the refusal's own wording is not (which of
/// two bad attributes it names follows a hash map's order), so it has no
/// name here.
pub uninterp spec fn urdf_accepted(xml: Seq<char>) -> bool;

/// The attribute name that binds the `xmlns` prefix itself to a
/// namespace.
pub open spec fn xmlns_rebinding() -> Seq<char> {
    seq!['x', 'm', 'l', 'n', 's', ':', 'x', 'm', 'l', 'n', 's']
}

/// The text holds `xmlns:xmlns` anywhere: in a tag, where it rebinds the
/// `xmlns` prefix, or elsewhere.
pub open spec fn mentions_xmlns_rebinding(s: Seq<char>) -> bool {
    contains(s, xmlns_rebinding())
}

/// `urdf_rs::read_from_string`, with a refusal carried as the text the
/// `UrdfError` displays as (its `Display`, through `ToString::to_string`).
/// The parsed `Robot` is opaque here, and nothing is said of the refusal's
/// wording.
///
/// Before deserialising, the crate writes the document back out through
/// RustyXML. An attribute `xmlns:xmlns` rebinds the `xmlns` prefix, after
/// which the parser records no namespace declaration made with it, and the
/// writer panics ("No namespace prefix bound") on an attribute whose
/// namespace no recorded declaration names, the rebinding attribute itself
/// among them. Every other attribute's or element's namespace was declared
/// through the unrebound prefix, so the writer finds it. The `requires`
/// leaves out every text holding `xmlns:xmlns`, which includes the few that
/// only mention it in a comment or in character data.
#[verifier::external_body]
fn read_urdf(xml: &str) -> (r: Result<urdf_rs::Robot, String>)
    requires
        !mentions_xmlns_rebinding(xml@),
    ensures
        r.is_ok() == urdf_accepted(xml@),
{
    match urdf_rs::read_from_string(xml) {
        Ok(robot) => Ok(robot),
        Err(e) => Err(e.to_string()),
    }
}

/// Whether the text holds `xmlns:xmlns`, the input
/// [`RobotDescription::parse_urdf`] cannot take.
pub fn mentions_xmlns_rebinding_in(xml: &str) -> (b: bool)
    ensures
        b == mentions_xmlns_rebinding(xml@),
{
    let s = chars_of(xml);
    let p: Vec<char> = vec!['x', 'm', 'l', 'n', 's', ':', 'x', 'm', 'l', 'n', 's'];
    assert(p@ =~= xmlns_rebinding());
    let found = find_chars(s.as_slice(), p.as_slice());
    found.is_some()
}

/// The message of a failed parse step: the topic of the document that
/// failed, then why.
pub open spec fn parse_step_message(topic: Seq<char>, detail: Seq<char>) -> Seq<char> {
    "parsing "@ + topic + ": "@ + detail
}

/// The error for a document that did not parse, naming the document by its
/// topic.
pub fn parse_step_error(topic: &str, detail: &str) -> (e: Error)
    ensures
        e matches Error::Other(m) && m@ == parse_step_message(topic@, detail@),
{
    let mut m = String::from_str("parsing ");
    m.append(topic);
    m.append(": ");
    m.append(detail);
    Error::Other(m)
}

impl RobotDescription {
    /// The two documents as given.
    pub fn from_strings(urdf_xml: &str, srdf_xml: &str) -> (d: RobotDescription)
        ensures
            d@.urdf == urdf_xml@,
            d@.srdf == srdf_xml@,
    {
        RobotDescription { urdf_xml: urdf_xml.to_owned(), srdf_xml: srdf_xml.to_owned() }
    }

    /// The URDF text, verbatim: both what the model is built from and what
    /// is published.
    pub fn urdf_xml(&self) -> (s: &str)
        ensures
            s@ == self@.urdf,
    {
        self.urdf_xml.as_str()
    }

    /// The SRDF text, verbatim.
    pub fn srdf_xml(&self) -> (s: &str)
        ensures
            s@ == self@.srdf,
    {
        self.srdf_xml.as_str()
    }

    /// Parses the URDF document, the first of the three steps that build a
    /// model. A failure names the URDF topic, not the SRDF one, then the
    /// parser's reason.
    pub fn parse_urdf(&self) -> (r: Result<urdf_rs::Robot, Error>)
        requires
            !mentions_xmlns_rebinding(self@.urdf),
        ensures
            r.is_ok() == urdf_accepted(self@.urdf),
            r matches Err(e) ==> {
                &&& e matches Error::Other(m)
                &&& exists|detail: Seq<char>| m@ == parse_step_message(URDF_TOPIC@, detail)
            },
    {
        match read_urdf(self.urdf_xml.as_str()) {
            Ok(robot) => Ok(robot),
            Err(detail) => Err(parse_step_error(URDF_TOPIC, detail.as_str())),
        }
    }
}

} // verus!
