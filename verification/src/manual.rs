//! Manual control messages.

use crate::binary64::little_endian;
use crate::text::{decimal, decimal_text, joined};
use synapse_fbs::topic::ManualControlData;
use vstd::prelude::*;

verus! {

/// The size of a manual control message.
pub const MANUAL_CONTROL_PAYLOAD_SIZE: usize = 40;

/// Set while the vehicle is to be armed.
pub const ARM_FLAG: u8 = 1;

/// Set while the kill switch is thrown.
pub const KILL_FLAG: u8 = 2;

/// Set while the operator is in control.
pub const ACTIVE_FLAG: u8 = 4;

/// Set while the message is valid.
pub const VALID_FLAG: u8 = 8;

/// What a manual control message says: the sticks in thousandths, the mode and the switches.
#[derive(Clone, Copy, Debug, PartialEq, Eq, Structural)]
pub struct ManualReport {
    pub roll_milli: i16,
    pub pitch_milli: i16,
    pub yaw_milli: i16,
    pub throttle_milli: i16,
    pub flight_mode: u8,
    pub arm: bool,
    pub kill: bool,
    pub active: bool,
    pub valid: bool,
    pub timestamp_us: u64,
}

/// The flag with the given weight is set.
pub open spec fn is_set(flags: u8, weight: u8) -> bool {
    (flags / weight) % 2 == 1
}

/// Whether the flag with the given weight is set.
pub fn flag_set(flags: u8, weight: u8) -> (result: bool)
    requires
        weight > 0,
    ensures
        result == is_set(flags, weight),
{
    (flags / weight) % 2 == 1
}

/// The signed number that two bytes hold, the low one first.
pub open spec fn signed_word(bytes: Seq<u8>, at: int) -> int {
    let word = bytes[at] + 256 * bytes[at + 1];
    if word < 0x8000 {
        word
    } else {
        word - 0x1_0000
    }
}

/// `ManualControlData::flags` and `ManualControlData::flight_mode`: two bytes of the message.
#[verifier::external_body]
pub(crate) fn read_switches(bytes: &[u8]) -> (switches: (u8, u8))
    requires
        bytes@.len() == MANUAL_CONTROL_PAYLOAD_SIZE,
    ensures
        switches == (bytes@[35], bytes@[34]),
{
    let mut message = ManualControlData([0; 40]);
    message.0.copy_from_slice(bytes);
    (message.flags(), message.flight_mode())
}

/// The number of axes of a manual control message.
pub const MANUAL_AXES: usize = 10;

/// The position of an axis, in thousandths.
pub open spec fn axis(bytes: Seq<u8>, index: int) -> int {
    signed_word(bytes, 14 + 2 * index)
}

/// The set of axes that are in use: one bit for each.
pub open spec fn axes_in_use(bytes: Seq<u8>) -> int {
    bytes[12] + 256 * bytes[13]
}

/// `ManualControlData::pitch_milli`, `roll_milli`, `throttle_milli`, `yaw_milli`, and `aux0_milli`
/// to `aux5_milli`: ten signed words of the message.
#[verifier::external_body]
pub(crate) fn read_axes(bytes: &[u8]) -> (axes: Vec<i16>)
    requires
        bytes@.len() == MANUAL_CONTROL_PAYLOAD_SIZE,
    ensures
        axes@.len() == MANUAL_AXES,
        forall|i: int| 0 <= i < MANUAL_AXES ==> (#[trigger] axes@[i]) == axis(bytes@, i),
{
    let mut m = ManualControlData([0; 40]);
    m.0.copy_from_slice(bytes);
    vec![
        m.pitch_milli(), m.roll_milli(), m.throttle_milli(), m.yaw_milli(), m.aux0_milli(),
        m.aux1_milli(), m.aux2_milli(), m.aux3_milli(), m.aux4_milli(), m.aux5_milli(),
    ]
}

/// `ManualControlData::active_axes`: one word of the message.
#[verifier::external_body]
pub(crate) fn read_active_axes(bytes: &[u8]) -> (active: u16)
    requires
        bytes@.len() == MANUAL_CONTROL_PAYLOAD_SIZE,
    ensures
        active == axes_in_use(bytes@),
{
    let mut message = ManualControlData([0; 40]);
    message.0.copy_from_slice(bytes);
    message.active_axes()
}

/// `ManualControlData::timestamp_us`: the first eight bytes of the message, the low one first.
#[verifier::external_body]
fn read_timestamp(bytes: &[u8]) -> (timestamp_us: u64)
    requires
        bytes@.len() == MANUAL_CONTROL_PAYLOAD_SIZE,
    ensures
        timestamp_us == little_endian(bytes@.take(8)),
{
    let mut message = ManualControlData([0; 40]);
    message.0.copy_from_slice(bytes);
    message.timestamp_us()
}

/// What a manual control message says; a payload of another size is an error.
pub fn manual_report(payload: &[u8]) -> (result: Result<ManualReport, String>)
    ensures
        result is Ok == (payload@.len() == MANUAL_CONTROL_PAYLOAD_SIZE),
        result is Ok ==> {
            let report = result->Ok_0;
            &&& report.roll_milli == signed_word(payload@, 16)
            &&& report.pitch_milli == signed_word(payload@, 14)
            &&& report.yaw_milli == signed_word(payload@, 20)
            &&& report.throttle_milli == signed_word(payload@, 18)
            &&& report.flight_mode == payload@[34]
            &&& report.arm == is_set(payload@[35], ARM_FLAG)
            &&& report.kill == is_set(payload@[35], KILL_FLAG)
            &&& report.active == is_set(payload@[35], ACTIVE_FLAG)
            &&& report.valid == is_set(payload@[35], VALID_FLAG)
            &&& report.timestamp_us == little_endian(payload@.take(8))
        },
        result is Err ==> result->Err_0@ == "manual control payload is "@ + decimal_text(
            payload@.len(),
        ) + " bytes, expected "@ + decimal_text(MANUAL_CONTROL_PAYLOAD_SIZE as nat),
{
    let total: usize = payload.len();
    if total != MANUAL_CONTROL_PAYLOAD_SIZE {
        let start = joined("manual control payload is ", decimal(total as u64).as_str());
        let middle = joined(start.as_str(), " bytes, expected ");
        let size = decimal(MANUAL_CONTROL_PAYLOAD_SIZE as u64);
        return Err(joined(middle.as_str(), size.as_str()));
    }
    let (flags, flight_mode): (u8, u8) = read_switches(payload);
    let axes = read_axes(payload);
    assert(axes@[0] == axis(payload@, 0) && axes@[1] == axis(payload@, 1));
    assert(axes@[2] == axis(payload@, 2) && axes@[3] == axis(payload@, 3));
    Ok(
        ManualReport {
            roll_milli: axes[1],
            pitch_milli: axes[0],
            yaw_milli: axes[3],
            throttle_milli: axes[2],
            flight_mode,
            arm: flag_set(flags, ARM_FLAG),
            kill: flag_set(flags, KILL_FLAG),
            active: flag_set(flags, ACTIVE_FLAG),
            valid: flag_set(flags, VALID_FLAG),
            timestamp_us: read_timestamp(payload),
        },
    )
}

} // verus!
