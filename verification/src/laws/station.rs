//! The ground station: headers, commands of browsers, the plant's signals and the autopilot.

use crate::autopilot::{
    binary_outcome, ended_status, idle_status, monitored, records, remembered, running_status,
    topic_tells, AutopilotRunStatus, FrameCounts, LifecycleEvent, LinkChild, MonitoredTopic,
    RunStatus,
};
use crate::control::{ack_fields, effect, only_texts, wish_of, CommandAck, Doing};
use crate::json::{json_text_at, json_texts_at, Json};
use crate::laws::commands::lemma_flags;
use crate::laws::texts::{all_space, lemma_trimmed_text};
use crate::sim_bridge::{steering, ManualMode, RadioState};
use crate::telemetry::{header_fault, MessageHeader, ValidationError};
use crate::text::{decimal_text, finishes_with, has_part, trimmed};
use vstd::prelude::*;

verus! {

// ---------------------------------------------------------------------------------------------
// Headers
// ---------------------------------------------------------------------------------------------

/// A message is taken exactly when its header has version one, its time has not run out (none never
/// does), and it names a vehicle and a stream. Otherwise the error is the first of these that is
/// violated, and says so.
pub proof fn lemma_headers(header: MessageHeader, now_ns: u64)
    ensures
        header_fault(header, now_ns) is None <==> header.schema_version == 1 && (
        header.expire_time_ns == 0 || now_ns <= header.expire_time_ns) && !all_space(
            header.vehicle_id@,
        ) && !all_space(header.stream_id@),
        header_fault(header, now_ns) is Some ==> header_fault(header, now_ns)->0
            == if header.schema_version != 1 {
            (ValidationError::UnsupportedSchema { expected: 1, actual: header.schema_version })
        } else if header.expire_time_ns != 0 && now_ns > header.expire_time_ns {
            (ValidationError::Expired { expire_time_ns: header.expire_time_ns, now_ns })
        } else if all_space(header.vehicle_id@) {
            ValidationError::MissingVehicleId
        } else {
            ValidationError::MissingStreamId
        },
{
    lemma_trimmed_text(header.vehicle_id@);
    lemma_trimmed_text(header.stream_id@);
}

/// The sentences that describe why a message is not taken.
pub proof fn lemma_header_errors(expected: u16, actual: u16, expire_time_ns: u64, now_ns: u64)
    ensures
        (ValidationError::UnsupportedSchema { expected, actual }).text() == "schema version "@
            + decimal_text(actual as nat) + " is not supported; expected "@ + decimal_text(
            expected as nat,
        ),
        (ValidationError::Expired { expire_time_ns, now_ns }).text() == "message expired at "@
            + decimal_text(expire_time_ns as nat) + "; now is "@ + decimal_text(now_ns as nat),
        ValidationError::MissingVehicleId.text() == "vehicle id is empty"@,
        ValidationError::MissingStreamId.text() == "stream id is empty"@,
{
}

// ---------------------------------------------------------------------------------------------
// Browsers
// ---------------------------------------------------------------------------------------------

/// A message is a control message exactly when its kind says so; it selects the texts among its
/// keys, in their order, when its action is to, and asks for a fresh catalog otherwise.
pub proof fn lemma_control_messages(document: Seq<char>)
    ensures
        json_text_at(document, "kind"@) != Some(Some("control"@)) ==> wish_of(document)
            is NotControl,
        json_text_at(document, "kind"@) == Some(Some("control"@)) && json_text_at(
            document,
            "action"@,
        ) != Some(Some("setSubscriptions"@)) ==> wish_of(document) is Refresh,
        json_text_at(document, "kind"@) == Some(Some("control"@)) && json_text_at(
            document,
            "action"@,
        ) == Some(Some("setSubscriptions"@)) ==> {
            &&& wish_of(document) is Select
            &&& json_texts_at(document, "keys"@) is Some && json_texts_at(
                document,
                "keys"@,
            )->0 is Some ==> wish_of(document)->Select_0 == (json_texts_at(
                document,
                "keys"@,
            )->0->0).filter(|item: Option<Seq<char>>| item is Some).map_values(
                |item: Option<Seq<char>>| item->0,
            )
            &&& json_texts_at(document, "keys"@) is None || json_texts_at(
                document,
                "keys"@,
            )->0 is None ==> wish_of(document)->Select_0.len() == 0
        },
{
    if json_texts_at(document, "keys"@) is Some && json_texts_at(document, "keys"@)->0 is Some {
        lemma_only_texts(json_texts_at(document, "keys"@)->0->0);
    }
}

proof fn lemma_only_texts(items: Seq<Option<Seq<char>>>)
    ensures
        only_texts(items) == items.filter(|item: Option<Seq<char>>| item is Some).map_values(
            |item: Option<Seq<char>>| item->0,
        ),
    decreases items.len(),
{
    reveal(Seq::filter);
    let there = |item: Option<Seq<char>>| item is Some;
    let text = |item: Option<Seq<char>>| item->0;
    if items.len() > 0 {
        lemma_only_texts(items.drop_last());
        let before = items.drop_last().filter(there);
        assert(before.push(items.last()).map_values(text) =~= before.map_values(text).push(
            items.last()->0,
        ));
    } else {
        assert(items.filter(there).map_values(text) =~= Seq::empty());
    }
}

/// The fields of an answer to a command.
pub proof fn lemma_answers(ack: CommandAck)
    ensures
        ({
            let fields = ack_fields(ack);
            &&& fields.len() == 7
            &&& fields[0] == ("kind"@, Json::Text("commandAck"@))
            &&& fields[1] == ("commandId"@, Json::Text(ack.command_id@))
            &&& fields[2] == ("command"@, Json::Text(ack.command@))
            &&& fields[3] == ("status"@, Json::Text(ack.status@))
            &&& fields[4] == ("reason"@, Json::Text(ack.reason@))
            &&& fields[5] == ("sequence"@, Json::Number(ack.sequence))
            &&& fields[6] == ("receivedAtMs"@, Json::Number(ack.received_at_ms))
        }),
{
}

/// What commands do to the vehicle: arming and disarming change nothing else, nor does a change of
/// mode; landing and returning are modes of their own; any other command does nothing.
pub proof fn lemma_command_effects(doing: Doing, command: Seq<char>, mode: Option<Seq<char>>)
    ensures
        ({
            let after = effect(doing, command, mode);
            &&& after.armed == if command == "arm"@ {
                true
            } else if command == "disarm"@ {
                false
            } else {
                doing.armed
            }
            &&& after.mode == if command == "land"@ {
                "land"@
            } else if command == "return"@ {
                "return"@
            } else if command == "setMode"@ && mode is Some {
                mode->0
            } else {
                doing.mode
            }
        }),
{
    reveal_strlit("arm");
    reveal_strlit("disarm");
    reveal_strlit("setMode");
    reveal_strlit("land");
    reveal_strlit("return");
    assert("arm"@.len() == 3 && "disarm"@.len() == 6 && "setMode"@.len() == 7 && "land"@.len() == 4
        && "return"@.len() == 6);
    assert("disarm"@[0] == 'd' && "return"@[0] == 'r');
}

// ---------------------------------------------------------------------------------------------
// The plant
// ---------------------------------------------------------------------------------------------

/// Who steers the plant: nobody unless the message is valid and the kill switch is off; the
/// operator in flight mode zero; the autopilot in any other.
pub proof fn lemma_steering(flags: u8, flight_mode: u8)
    ensures
        steering(flags, flight_mode) is Failsafe <==> flags & 8 == 0 || flags & 2 != 0,
        steering(flags, flight_mode) is Manual <==> flags & 8 != 0 && flags & 2 == 0 && flight_mode
            == 0,
        steering(flags, flight_mode) is Auto <==> flags & 8 != 0 && flags & 2 == 0 && flight_mode
            != 0,
{
    lemma_flags(flags);
}

/// The plant gets the operator's signal while the operator steers, the autopilot's while that does
/// and has put one out, and the failsafe signal otherwise.
pub proof fn lemma_selected_signals(state: RadioState)
    ensures
        state.manual_mode == ManualMode::Manual ==> state.selected() == state.manual_pwm_payload@,
        state.manual_mode == ManualMode::Auto && state.control_pwm_payload is Some
            ==> state.selected() == (state.control_pwm_payload->0)@,
        state.manual_mode == ManualMode::Auto && state.control_pwm_payload is None
            ==> state.selected() == state.failsafe_pwm_payload@,
        state.manual_mode == ManualMode::Failsafe ==> state.selected()
            == state.failsafe_pwm_payload@,
{
}

// ---------------------------------------------------------------------------------------------
// The autopilot
// ---------------------------------------------------------------------------------------------

/// What is told of a running autopilot, of one that has ended, and of one that never ran.
pub proof fn lemma_autopilot_statuses(
    child: LinkChild,
    message: Seq<char>,
    frames: FrameCounts,
    now_ms: u128,
    code: Option<i32>,
    signal: Option<i32>,
    stop_requested: bool,
)
    ensures
        ({
            let status = running_status(child, message, frames);
            &&& status.running
            &&& status.pid == Some(child.pid)
            &&& status.started_at_ms == Some(child.started_at_ms)
            &&& status.message == message
            &&& status.binary == child.binary@
            &&& status.log_path == child.log_path@
            &&& status.frames_out == frames.outgoing
            &&& status.frames_in == frames.incoming
            &&& status.last_exit_at_ms is None
            &&& status.last_exit_code is None
            &&& status.last_exit_signal is None
            &&& status.last_pid is None
            &&& !status.stop_requested
        }),
        ({
            let status = ended_status(
                child,
                message,
                frames,
                now_ms,
                code,
                signal,
                stop_requested,
            );
            &&& !status.running
            &&& status.pid is None
            &&& status.started_at_ms is None
            &&& status.message == message
            &&& status.binary == child.binary@
            &&& status.log_path == child.log_path@
            &&& status.frames_out == frames.outgoing
            &&& status.frames_in == frames.incoming
            &&& status.last_exit_at_ms == Some(now_ms)
            &&& status.last_exit_code == code
            &&& status.last_exit_signal == signal
            &&& status.last_pid == Some(child.pid)
            &&& status.stop_requested == stop_requested
        }),
        ({
            let status = idle_status();
            &&& !status.running
            &&& status.pid is None
            &&& status.started_at_ms is None
            &&& status.message == "autopilot stopped"@
            &&& status.binary.len() == 0
            &&& status.log_path.len() == 0
            &&& status.frames_out == 0
            &&& status.frames_in == 0
            &&& status.last_exit_at_ms is None
            &&& status.last_exit_code is None
            &&& status.last_exit_signal is None
            &&& status.last_pid is None
            &&& !status.stop_requested
        }),
{
}

/// What is remembered of an autopilot is its last status; a record stands in its own log, with the
/// event and the status.
pub proof fn lemma_autopilot_records(
    last_status: AutopilotRunStatus,
    record: LifecycleEvent,
    child: LinkChild,
    event: Seq<char>,
    status: RunStatus,
)
    requires
        records(Some(record), child, event, status),
    ensures
        remembered(Some(last_status)) == last_status@,
        remembered(None) == idle_status(),
        record.log_path@ == child.log_path@,
        record.event@ == event,
        record.status@ == status,
        !records(None, child, event, status),
{
}

/// The binary is the configured path without the white space around it, if there is one and a file
/// is there.
pub proof fn lemma_binaries(configured: Seq<char>, found: bool)
    ensures
        binary_outcome(configured, found) is Ok <==> found && !all_space(configured),
        binary_outcome(configured, found) is Ok ==> binary_outcome(configured, found)->Ok_0
            == trimmed(configured),
        all_space(configured) ==> binary_outcome(configured, found)->Err_0
            == "autopilot native binary is not configured"@,
{
    lemma_trimmed_text(configured);
}

/// A configured topic is counted under its name without the white space around it: a stream of
/// motion capture whatever its samples say of themselves, any other by the contract that the
/// catalog has for it. Without a name, or one that the catalog does not know, nothing is counted.
pub proof fn lemma_monitored_topics(
    topic: Seq<char>,
    mocap_pose_topic: Seq<char>,
    mocap_known: bool,
    parsed: Option<u16>,
)
    ensures
        ({
            let name = trimmed(topic);
            let captured = name == mocap_pose_topic || has_part(name, "/mocap/rigid_body/"@)
                || has_part(name, "/mocap/selected/rigid_body/"@) || finishes_with(
                name,
                "mocap/frame"@,
            ) || finishes_with(name, "mocap_frame"@);
            let counted = monitored(topic, mocap_pose_topic, mocap_known, parsed);
            &&& all_space(topic) ==> counted is None
            &&& !all_space(topic) && captured ==> (counted is Some <==> mocap_known)
            &&& !all_space(topic) && !captured ==> (counted is Some <==> parsed is Some)
            &&& counted is Some ==> counted->0 == (
                name,
                if captured {
                    None
                } else {
                    parsed
                },
            )
        }),
{
    lemma_trimmed_text(topic);
}

/// A topic that is counted has the key and the contract that were found for it.
pub proof fn lemma_counted_topics(
    topic: Option<MonitoredTopic>,
    found: Option<(Seq<char>, Option<u16>)>,
)
    requires
        topic_tells(topic, found),
    ensures
        topic is Some <==> found is Some,
        topic is Some ==> topic->0.key@ == (found->0).0,
        topic is Some ==> topic->0.contract == (found->0).1,
{
}

} // verus!
