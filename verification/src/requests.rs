//! The requests that reach the vehicle through the command policy: what their payloads hold.
//! Whether bytes hold a table is judged as hosts do that have words of eight bytes and align
//! eight-byte numbers to eight bytes. An error calls the types by the names that the compiler of
//! this build gives them.

use crate::binary64::{Binary32, Binary64};
use crate::tables::optional_view;
use synapse_fbs::cmd::{ParamGetRequest, ParamSetRequest, TrajectorySetRequest};
use synapse_fbs::topic::RadioControlData;
use vstd::prelude::*;
use vstd::utf8::{decode_utf8, valid_utf8};

verus! {

/// The name and value of a parameter to be set, and the value as printed with three decimals.
#[derive(Debug)]
pub struct ParameterFields {
    pub name: Option<String>,
    pub kind: u8,
    pub value: Binary64,
    pub value_text: String,
}

/// The plan of a trajectory.
#[derive(Debug)]
pub struct TrajectoryFields {
    pub total: u32,
    pub segments: Option<Vec<Segment>>,
}

/// One segment of a trajectory: its place, its frame, and the coordinates of its two ends.
#[derive(Clone, Copy, Debug)]
pub struct Segment {
    pub sequence: u32,
    pub frame: u8,
    pub start: (Binary32, Binary32, Binary32),
    pub end: (Binary32, Binary32, Binary32),
}

/// The name and value of a parameter to be set, and the value as printed with three decimals.
pub ghost struct Parameter {
    pub name: Option<Seq<char>>,
    pub kind: u8,
    pub value: Binary64,
    pub value_text: Seq<char>,
}

/// The plan of a trajectory.
pub ghost struct Trajectory {
    pub total: u32,
    pub segments: Option<Seq<Segment>>,
}

impl View for ParameterFields {
    type V = Parameter;

    open spec fn view(&self) -> Parameter {
        Parameter {
            name: optional_view(self.name),
            kind: self.kind,
            value: self.value,
            value_text: self.value_text@,
        }
    }
}

impl View for TrajectoryFields {
    type V = Trajectory;

    open spec fn view(&self) -> Trajectory {
        Trajectory {
            total: self.total,
            segments: match self.segments {
                Some(segments) => Some(segments@),
                None => None,
            },
        }
    }
}

/// The size of a radio control message.
pub const RADIO_BYTES: usize = 48;

/// The kind of a floating-point parameter.
pub const FLOAT_KIND: u8 = 0;

/// The value of the `ParamSetRequest` that the bytes hold, if it has one; where the bytes hold no
/// such table, the printed error.
pub uninterp spec fn param_set_request(bytes: Seq<u8>) -> Result<Option<Parameter>, Seq<char>>;

/// The name in the `ParamGetRequest` that the bytes hold, if it has one; where the bytes hold no
/// such table, the printed error.
pub uninterp spec fn param_get_request(bytes: Seq<u8>) -> Result<Option<Seq<char>>, Seq<char>>;

/// The `TrajectorySetRequest` that the bytes hold; where they hold none, the printed error.
pub uninterp spec fn trajectory_request(bytes: Seq<u8>) -> Result<Trajectory, Seq<char>>;

/// `flatbuffers::root` on a `ParamSetRequest`, and the accessors of its value: the name of a
/// parameter, its kind, the bits of its floating-point value, and that value printed with three
/// decimals. Bytes that hold no such table give the printed error. All of it is a function of the
/// bytes.
#[verifier::external_body]
pub(crate) fn read_param_set(bytes: &[u8]) -> (request: Result<Option<ParameterFields>, String>)
    ensures
        match param_set_request(bytes@) {
            Err(error) => request is Err && request->Err_0@ == error,
            Ok(None) => request is Ok && request->Ok_0 is None,
            Ok(Some(parameter)) => request is Ok && request->Ok_0 is Some && (request->Ok_0->0)@
                == parameter,
        },
{
    match flatbuffers::root::<ParamSetRequest<'_>>(bytes) {
        Ok(request) => Ok(request.value().map(|value| ParameterFields {
            name: value.name().map(str::to_string),
            kind: value.kind().0,
            value: Binary64 { bits: value.float_value().to_bits() },
            value_text: format!("{:.3}", value.float_value()),
        })),
        Err(error) => Err(error.to_string()),
    }
}

/// `flatbuffers::root` on a `ParamGetRequest`, and the accessor of its name. Bytes that hold no
/// such table give the printed error. All of it is a function of the bytes.
#[verifier::external_body]
pub(crate) fn read_param_get(bytes: &[u8]) -> (name: Result<Option<String>, String>)
    ensures
        match param_get_request(bytes@) {
            Err(error) => name is Err && name->Err_0@ == error,
            Ok(view) => name is Ok && optional_view(name->Ok_0) == view,
        },
{
    match flatbuffers::root::<ParamGetRequest<'_>>(bytes) {
        Ok(request) => Ok(request.name().map(str::to_string)),
        Err(error) => Err(error.to_string()),
    }
}

/// `flatbuffers::root` on a `TrajectorySetRequest`, and the accessors of its segments. Bytes that
/// hold no such table give the printed error. All of it is a function of the bytes.
#[verifier::external_body]
pub(crate) fn read_trajectory(bytes: &[u8]) -> (request: Result<TrajectoryFields, String>)
    ensures
        match trajectory_request(bytes@) {
            Err(error) => request is Err && request->Err_0@ == error,
            Ok(trajectory) => request is Ok && request->Ok_0@ == trajectory,
        },
{
    let point = |p: &synapse_fbs::types::Vec3f| (
        Binary32 { bits: p.x().to_bits() },
        Binary32 { bits: p.y().to_bits() },
        Binary32 { bits: p.z().to_bits() },
    );
    match flatbuffers::root::<TrajectorySetRequest<'_>>(bytes) {
        Ok(request) => Ok(TrajectoryFields {
            total: request.total(),
            segments: request.segments().map(|segments| segments.iter().map(|segment| Segment {
                sequence: segment.segment_seq(), frame: segment.frame().0,
                start: point(segment.p0_enu_m()), end: point(segment.p1_enu_m()),
            }).collect()),
        }),
        Err(error) => Err(error.to_string()),
    }
}

/// `RadioControlData::channel_count` and `RadioControlData::link_quality_pct`: two bytes of the
/// message.
#[verifier::external_body]
pub(crate) fn read_radio(bytes: &[u8]) -> (header: (u8, u8))
    requires
        bytes@.len() == RADIO_BYTES,
    ensures
        header == (bytes@[8], bytes@[9]),
{
    let mut message = RadioControlData([0; 48]);
    message.0.copy_from_slice(bytes);
    (message.channel_count(), message.link_quality_pct())
}

/// `std::str::from_utf8`: the text that the bytes encode, if they are valid UTF-8.
#[verifier::external_body]
pub(crate) fn read_text(bytes: &[u8]) -> (text: Option<String>)
    ensures
        text is Some == valid_utf8(bytes@),
        text is Some ==> text->0@ == decode_utf8(bytes@),
{
    match std::str::from_utf8(bytes) {
        Ok(text) => Some(text.to_string()),
        Err(_) => None,
    }
}

} // verus!
