//! The boundary between the network and the simulated plant: which radio signal the plant is given.

use crate::manual::{
    flag_set, is_set, read_switches, KILL_FLAG, MANUAL_CONTROL_PAYLOAD_SIZE, VALID_FLAG,
};
use vstd::prelude::*;
use vstd::slice::slice_to_vec;

verus! {

/// Where the plant is given its radio signal.
pub const PRIVATE_RADIO_PWM_TOPIC: &'static str = "electrode/sim/rumoca/radio_pwm_signal_outputs";

/// Where the plant reports its pose.
pub const PRIVATE_MOCAP_TOPIC: &'static str = "electrode/sim/rumoca/mocap_frame";

/// Where the autopilot puts its outputs.
pub const PUBLIC_PWM_TOPIC: &'static str = "synapse/v1/topic/pwm_signal_outputs";

/// Where manual control is published.
pub const PUBLIC_MANUAL_TOPIC: &'static str = "synapse/v1/topic/manual_control_command";

/// Where the plant's pose is published.
pub const PUBLIC_MOCAP_TOPIC: &'static str = "synapse/mocap/rigid_body/cub1/pose";

/// Who steers the plant.
#[derive(Debug, Clone, Copy, PartialEq, Eq, Structural)]
pub enum ManualMode {
    Manual,
    Auto,
    Failsafe,
}

/// The signals among which the plant's is chosen.
#[derive(Debug)]
pub struct RadioState {
    pub manual_mode: ManualMode,
    pub manual_pwm_payload: Vec<u8>,
    pub control_pwm_payload: Option<Vec<u8>>,
    pub failsafe_pwm_payload: Vec<u8>,
}

/// How many messages were handed on.
#[derive(Debug, Clone, Copy, PartialEq, Eq, Structural)]
pub struct SimBridgeCounts {
    pub radio_pwm_frames: u64,
    pub mocap_frames: u64,
}

/// Who steers, by the switches of a manual control message: nobody unless it is valid and the kill
/// switch is off, the operator in the first flight mode, the autopilot in any other.
pub open spec fn steering(flags: u8, flight_mode: u8) -> ManualMode {
    if !is_set(flags, VALID_FLAG) || is_set(flags, KILL_FLAG) {
        ManualMode::Failsafe
    } else if flight_mode == 0 {
        ManualMode::Manual
    } else {
        ManualMode::Auto
    }
}

/// Who steers, by the switches of a manual control message.
pub fn manual_mode(flags: u8, flight_mode: u8) -> (mode: ManualMode)
    ensures
        mode == steering(flags, flight_mode),
{
    if !flag_set(flags, VALID_FLAG) || flag_set(flags, KILL_FLAG) {
        ManualMode::Failsafe
    } else if flight_mode == 0 {
        ManualMode::Manual
    } else {
        ManualMode::Auto
    }
}

/// Who steers, by a manual control message; nothing for a payload of another size.
pub fn manual_selection_from_payload(payload: &[u8]) -> (mode: Option<ManualMode>)
    ensures
        mode == if payload@.len() != MANUAL_CONTROL_PAYLOAD_SIZE {
            None
        } else {
            Some(steering(payload@[35], payload@[34]))
        },
{
    if payload.len() != MANUAL_CONTROL_PAYLOAD_SIZE {
        return None;
    }
    let (flags, flight_mode): (u8, u8) = read_switches(payload);
    Some(manual_mode(flags, flight_mode))
}

impl RadioState {
    /// The signal that the plant is given.
    pub open spec fn selected(self) -> Seq<u8> {
        match self.manual_mode {
            ManualMode::Manual => self.manual_pwm_payload@,
            ManualMode::Auto => match self.control_pwm_payload {
                Some(payload) => payload@,
                None => self.failsafe_pwm_payload@,
            },
            ManualMode::Failsafe => self.failsafe_pwm_payload@,
        }
    }

    /// Nobody steers until a message says so.
    pub fn initial(failsafe_pwm_payload: Vec<u8>) -> (state: Self)
        ensures
            state.manual_mode == ManualMode::Failsafe,
            state.manual_pwm_payload@ == failsafe_pwm_payload@,
            state.control_pwm_payload is None,
            state.failsafe_pwm_payload@ == failsafe_pwm_payload@,
            state.selected() == failsafe_pwm_payload@,
    {
        RadioState {
            manual_mode: ManualMode::Failsafe,
            manual_pwm_payload: slice_to_vec(failsafe_pwm_payload.as_slice()),
            control_pwm_payload: None,
            failsafe_pwm_payload,
        }
    }

    /// The signal that the plant is given.
    pub fn selected_payload(&self) -> (payload: Vec<u8>)
        ensures
            payload@ == self.selected(),
    {
        match self.manual_mode {
            ManualMode::Manual => slice_to_vec(self.manual_pwm_payload.as_slice()),
            ManualMode::Auto => match &self.control_pwm_payload {
                Some(payload) => slice_to_vec(payload.as_slice()),
                None => slice_to_vec(self.failsafe_pwm_payload.as_slice()),
            },
            ManualMode::Failsafe => slice_to_vec(self.failsafe_pwm_payload.as_slice()),
        }
    }

    /// Takes the autopilot's outputs, if they are such, and says what the plant is given.
    /// `decodes` says whether the bytes hold pulse widths.
    pub fn handle_public_pwm_sample(&mut self, bytes: &[u8], decodes: bool) -> (published: Option<
        Vec<u8>,
    >)
        ensures
            published is Some == decodes,
            final(self).manual_mode == old(self).manual_mode,
            final(self).manual_pwm_payload == old(self).manual_pwm_payload,
            final(self).failsafe_pwm_payload == old(self).failsafe_pwm_payload,
            decodes ==> {
                &&& final(self).control_pwm_payload is Some
                &&& (final(self).control_pwm_payload->0)@ == bytes@
                &&& (published->0)@ == final(self).selected()
            },
            !decodes ==> final(self).control_pwm_payload == old(self).control_pwm_payload,
    {
        if !decodes {
            return None;
        }
        self.control_pwm_payload = Some(slice_to_vec(bytes));
        Some(self.selected_payload())
    }

    /// Takes a manual control message, if it is one, and says what the plant is given.
    /// `pwm_payload` holds the pulse widths of its sticks.
    pub fn handle_public_manual_sample(&mut self, payload: &[u8], pwm_payload: Vec<u8>) -> (
    published: Option<Vec<u8>>)
        ensures
            published is Some == (payload@.len() == MANUAL_CONTROL_PAYLOAD_SIZE),
            final(self).control_pwm_payload == old(self).control_pwm_payload,
            final(self).failsafe_pwm_payload == old(self).failsafe_pwm_payload,
            published is Some ==> {
                &&& final(self).manual_mode == steering(payload@[35], payload@[34])
                &&& final(self).manual_pwm_payload@ == pwm_payload@
                &&& (published->0)@ == final(self).selected()
            },
            published is None ==> *final(self) == *old(self),
    {
        match manual_selection_from_payload(payload) {
            Some(mode) => {
                self.manual_mode = mode;
                self.manual_pwm_payload = pwm_payload;
                Some(self.selected_payload())
            },
            None => None,
        }
    }
}

/// A message that is not valid, or comes with the kill switch thrown, leaves the plant with the
/// failsafe signal, whatever else it says and whatever the autopilot puts out.
pub proof fn lemma_kill_switch_means_failsafe(state: RadioState, flags: u8, flight_mode: u8)
    requires
        state.manual_mode == steering(flags, flight_mode),
        !is_set(flags, VALID_FLAG) || is_set(flags, KILL_FLAG),
    ensures
        state.selected() == state.failsafe_pwm_payload@,
{
}

} // verus!
