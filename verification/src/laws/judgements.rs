//! Judgements: what the functions that decide say of single values.

use crate::binary64::{read_double, Binary64};
use crate::bridge::{BridgeSettings, ZenohConfig};
use crate::control::{handle_control, AppState, Control};
use crate::gate::{FirmwareGate, GateOutcome, GateSettings};
use crate::json::json_text_at;
use crate::laws::commands::{
    good_radio, good_segment, lemma_channels, lemma_envelopes, lemma_manual_messages,
    lemma_segments, mark, seals,
};
use crate::laws::images::stores;
use crate::laws::manifests::{good_limits, lemma_limits_documents, public_names};
use crate::laws::texts::all_space;
use crate::laws::uploads::{lemma_candidates, may_install};
use crate::limits::{
    default_parameter_limits, parse_parameter_limits, Limits, ParameterLimitsFile,
};
use crate::listeners::{is_bound, unbound_listeners, SocketTables};
use crate::policy::{
    check_manual, check_name, check_radio, credential_envelope, judge_gain, judge_trajectory,
    judge_velocity, team_name_from_any_velocity_envelope, validate_gain, CommandPolicy,
    PolicyConfig, PolicyError,
};
use crate::requests::{ParameterFields, TrajectoryFields};
use crate::settings::{env_bool, env_u32, env_u64, env_usize};
use crate::sim_bridge::{manual_selection_from_payload, ManualMode};
use crate::status::is_update_id;
use crate::tables::{accept_code, accept_info, code_text, require_accepted, FirmwareError};
use crate::text::{
    blank, byte_length, decimal_text, lower, parse_unsigned, split, trim, trimmed, views,
};
use crate::text_map::TextMap;
use crate::upload::{assemble, is_complete, FirmwareUpload};
use vstd::prelude::*;

verus! {

// ---------------------------------------------------------------------------------------------
// Values of commands
// ---------------------------------------------------------------------------------------------

/// A value may be set exactly when it is a floating-point one with limits, finite, and within them.
pub proof fn lemma_validated_gains(
    kind: u8,
    value: Binary64,
    name: &str,
    limits: Option<&Limits>,
    result: Result<(), PolicyError>,
)
    requires
        call_ensures(validate_gain, (kind, value, name, limits), result),
    ensures
        result is Ok <==> kind == 0 && limits is Some && value.finite() && !value.below(
            limits->0.minimum,
        ) && !limits->0.maximum.below(value),
        result is Err ==> result->Err_0 is Rejected,
{
}

/// A parameter is judged by its trimmed name: it may be set without an attempt exactly when it is
/// not the velocity, has limits, and its value is finite and within them.
pub proof fn lemma_judged_gains(
    limits: &TextMap<Limits>,
    parameter: &ParameterFields,
    result: Result<(), PolicyError>,
)
    requires
        limits.well_formed(),
        call_ensures(judge_gain, (limits, parameter), result),
    ensures
        result is Ok <==> parameter.name is Some && ({
            let name = trimmed(parameter.name->0@);
            &&& 1 <= byte_length(name) <= 128
            &&& name != "velocity.setpoint"@
            &&& limits@.dom().contains(name)
            &&& parameter.kind == 0
            &&& parameter.value.finite()
            &&& !parameter.value.below(limits@[name].minimum)
            &&& !limits@[name].maximum.below(parameter.value)
        }),
{
    assert(trimmed(Seq::<char>::empty()) =~= Seq::empty());
    assert(crate::limits::bounds_of(limits@).dom() =~= limits@.dom());
}

/// A velocity may be sent exactly when it is that parameter, floating-point, finite, and within the
/// configured limits.
pub proof fn lemma_judged_velocities(
    config: &PolicyConfig,
    parameter: &ParameterFields,
    result: Result<(), PolicyError>,
)
    requires
        call_ensures(judge_velocity, (config, parameter), result),
    ensures
        result is Ok <==> parameter.name is Some && parameter.name->0@ == "velocity.setpoint"@
            && parameter.kind == 0 && parameter.value.finite() && !parameter.value.below(
            config.velocity_min_mps,
        ) && !config.velocity_max_mps.below(parameter.value),
        result is Err ==> result->Err_0 is Rejected,
{
    reveal_strlit("velocity.setpoint");
    assert("velocity.setpoint"@.len() > 0);
}

/// A trajectory may be set exactly when it has one to six segments, as many as it says, and each is
/// a good one in its place.
pub proof fn lemma_judged_trajectories(
    trajectory: TrajectoryFields,
    result: Result<(), PolicyError>,
)
    requires
        call_ensures(judge_trajectory, (trajectory,), result),
    ensures
        result is Ok <==> trajectory.segments is Some && 1 <= (trajectory.segments->0)@.len() <= 6
            && trajectory.total == (trajectory.segments->0)@.len() && forall|i: int|
            0 <= i < (trajectory.segments->0)@.len() ==> good_segment(
                #[trigger] (trajectory.segments->0)@[i],
                i,
            ),
{
    if trajectory.segments is Some {
        lemma_segments((trajectory.segments->0)@, 0);
    }
}

/// Radio messages and manual messages are judged by all of their values, and names by their length.
pub proof fn lemma_judged_messages(
    radio: &[u8],
    sent: Result<(), PolicyError>,
    manual: &[u8],
    steered: Result<(), PolicyError>,
    name: &Option<String>,
    bare: Option<String>,
)
    requires
        call_ensures(check_radio, (radio,), sent),
        call_ensures(check_manual, (manual,), steered),
        call_ensures(check_name, (name,), bare),
    ensures
        sent is Ok <==> good_radio(radio@),
        steered is Ok <==> {
            &&& manual@.len() == 40
            &&& forall|i: int|
                0 <= i < 10 ==> {
                    let word = #[trigger] manual@[14 + 2 * i] + 256 * manual@[15 + 2 * i];
                    word <= 1000 || 0x1_0000 - 1000 <= word
                }
            &&& manual@[12] + 256 * manual@[13] <= 0x3ff
            &&& manual@[35] & 4 != 0
            &&& manual@[35] & 8 != 0
        },
        bare is Some <==> *name is Some && 1 <= byte_length(trimmed((*name)->0@)) <= 128,
        bare is Some ==> bare->0@ == trimmed((*name)->0@),
{
    lemma_manual_messages(manual@);
    lemma_channels(radio@, 0, radio@[8] as int);
    assert(trimmed(Seq::<char>::empty()) =~= Seq::empty());
}

/// An envelope is opened exactly when it was sealed with the magic, and then gives the team and the
/// body that were sealed in it.
pub proof fn lemma_opened_envelopes(
    payload: &[u8],
    magic: &[u8; 4],
    expected: Option<usize>,
    result: Result<(String, &[u8]), PolicyError>,
    team: Seq<char>,
    body: Seq<u8>,
)
    requires
        call_ensures(credential_envelope, (payload, magic, expected), result),
    ensures
        result is Ok && result->Ok_0.0@ == team && result->Ok_0.1@ == body <==> seals(
            payload@,
            magic@,
            team,
            body,
        ) && (expected is Some ==> body.len() == expected->0),
{
    lemma_envelopes(payload@, magic@, expected, team, body);
}

/// The team of any envelope is the one that it was sealed for.
pub proof fn lemma_found_teams(
    payload: &[u8],
    result: Result<String, PolicyError>,
    id: Option<String>,
    team: Seq<char>,
    body: Seq<u8>,
)
    requires
        call_ensures(team_name_from_any_velocity_envelope, (payload,), result),
        call_ensures(CommandPolicy::credential_id_for_payload, (payload,), id),
    ensures
        seals(payload@, mark(67), team, body) || seals(payload@, mark(82), team, body)
            ==> result is Ok && result->Ok_0@ == team,
        result is Ok <==> id is Some,
        id is Some ==> id->0@ == lower(result->Ok_0@),
{
    crate::laws::commands::lemma_named_teams(payload@, team);
}

/// A limits document is taken exactly when it is in order, and gives the limits that are written
/// there; without one there are the default limits, of every public parameter.
pub proof fn lemma_taken_limits(
    file: &ParameterLimitsFile,
    result: Result<TextMap<Limits>, String>,
    defaults: TextMap<Limits>,
    name: Seq<char>,
)
    requires
        call_ensures(parse_parameter_limits, (file,), result),
        call_ensures(default_parameter_limits, (), defaults),
    ensures
        result is Ok <==> file.schema@ == "electrode.public-lan-parameter-limits.v1"@
            && file.parameters@.len() == 7 && good_limits(file.parameters@),
        result is Ok ==> forall|i: int|
            0 <= i < file.parameters@.len() ==> {
                let parameter = #[trigger] file.parameters@[i];
                &&& result->Ok_0@.dom().contains(parameter.name@)
                &&& result->Ok_0@[parameter.name@].minimum == parameter.minimum
                &&& result->Ok_0@[parameter.name@].maximum == parameter.maximum
            },
        defaults@.dom().contains(name) <==> public_names().contains(name),
{
    lemma_limits_documents(*file);
    crate::laws::manifests::lemma_default_limits(name);
    assert(crate::limits::bounds_of(defaults@).dom() =~= defaults@.dom());
    if result is Ok {
        let limits = result->Ok_0@;
        let bounds = crate::limits::bounds_of(limits);
        assert(bounds.dom() =~= limits.dom());
        assert forall|i: int| 0 <= i < file.parameters@.len() implies {
            let parameter = #[trigger] file.parameters@[i];
            &&& limits.dom().contains(parameter.name@)
            &&& limits[parameter.name@].minimum == parameter.minimum
            &&& limits[parameter.name@].maximum == parameter.maximum
        } by {
            let parameter = file.parameters@[i];
            assert(bounds.dom().contains(parameter.name@));
            assert(bounds[parameter.name@].minimum == parameter.minimum);
        }
    }
}

// ---------------------------------------------------------------------------------------------
// Firmware
// ---------------------------------------------------------------------------------------------

/// A candidate is sent on exactly when it may replace the baseline; the baseline stays unless there
/// was none and the first image was to become it.
pub proof fn lemma_handled_candidates(
    gate: &mut FirmwareGate,
    prefix: &str,
    update_id: &str,
    version: &str,
    image: Vec<u8>,
    outcome: GateOutcome,
)
    requires
        gate.well_formed(),
        is_update_id(update_id@),
        byte_length(version@) <= 128,
        call_ensures(
            FirmwareGate::handle_candidate,
            (gate, prefix, update_id, version, image),
            outcome,
        ),
    ensures
        outcome.transfer is Some <==> may_install(*old(gate), image@) && image@.len() > 0,
        outcome.transfer is Some ==> outcome.transfer->0.image@ == image@,
        final(gate).pending() == old(gate).pending(),
        final(gate).baseline == old(gate).baseline || (old(gate).baseline is None && old(
            gate,
        ).auto_bootstrap && (final(gate).baseline->0)@ == image@),
{
    lemma_candidates(
        *old(gate),
        *final(gate),
        outcome,
        prefix@,
        update_id@,
        version@,
        image@,
    );
}

/// How a firmware gate is set up: numbers that are set are brought into their ranges, the first
/// image becomes the baseline only where there is none and that was asked for, and without a policy
/// no byte may change.
pub proof fn lemma_set_up_gates(
    key_prefix: String,
    query_timeout_ms: u64,
    settings: GateSettings,
    gate: FirmwareGate,
)
    requires
        call_ensures(FirmwareGate::from_settings, (key_prefix, query_timeout_ms, settings), gate),
    ensures
        gate.pending().dom() == Set::<Seq<char>>::empty(),
        gate.baseline == settings.baseline,
        settings.policy is None ==> gate.regions@.len() == 0,
        settings.policy is Some ==> gate.regions@ == settings.policy->0.regions@,
        gate.auto_bootstrap ==> settings.baseline is None && settings.auto_bootstrap is Some,
        1 <= gate.max_image_size <= 67_108_864,
        settings.max_image_size is None ==> gate.max_image_size == 8_388_608,
        128 <= gate.transfer.chunk_size <= 4096,
        settings.chunk_size is None ==> gate.transfer.chunk_size == 512,
        1 <= gate.transfer.retries <= 10,
        settings.retries is None ==> gate.transfer.retries == 3,
        100 <= gate.transfer.timeout_ms <= 60_000,
        settings.timeout_ms is None && 100 <= query_timeout_ms <= 60_000
            ==> gate.transfer.timeout_ms == query_timeout_ms,
        settings.target is None ==> gate.transfer.target@ == "cubs2"@,
        settings.target is Some ==> gate.transfer.target@ == settings.target->0@,
        settings.board_id is None ==> gate.transfer.board_id@.len() == 0,
        settings.board_id is Some ==> gate.transfer.board_id@ == settings.board_id->0@,
        gate.transfer.key_prefix@ == key_prefix@,
{
    assert(gate.pending().dom() =~= Set::<Seq<char>>::empty());
}

/// An upload makes an image of its chunks, one after the other, and is complete when every one of
/// them is there.
pub proof fn lemma_assembled_uploads(upload: &FirmwareUpload, image: Vec<u8>, complete: bool)
    requires
        upload.well_formed(),
        call_ensures(assemble, (upload,), image),
        call_ensures(is_complete, (upload,), complete),
    ensures
        complete <==> forall|i: int|
            0 <= i < upload.chunks@.len() ==> (#[trigger] upload.chunks@[i]) is Some,
        complete ==> image@.len() == upload.expected_size,
        image@.len() <= upload.expected_size,
{
    crate::upload::lemma_received_bytes(upload@);
    assert forall|i: int| 0 <= i < upload.chunks@.len() implies (#[trigger] upload.chunks@[i])
        is Some == upload@.chunks[i] is Some by {
        assert(upload@.chunks[i] == crate::upload::chunk_view(upload.chunks@[i]));
    }
    if complete {
        assert forall|i: int| 0 <= i < upload.chunks@.len() implies (#[trigger] upload.chunks@[i])
            is Some by {
            assert(upload@.chunks[i] is Some);
        }
    } else {
        let i = choose|i: int|
            0 <= i < upload@.chunks.len() && !((#[trigger] upload@.chunks[i]) is Some);
        assert(!(upload.chunks@[i] is Some));
    }
}

/// A code lets an update go on when it says accepted or in progress, and no other does.
pub proof fn lemma_judged_codes(
    code: u8,
    operation: &str,
    required: Result<(), FirmwareError>,
    table: &str,
    accepted: Result<(), FirmwareError>,
    largest: u32,
    info: Result<u32, FirmwareError>,
)
    requires
        call_ensures(require_accepted, (code, operation), required),
        call_ensures(accept_code, (Some(code), table, operation), accepted),
        call_ensures(accept_info, (Some((code, largest)),), info),
    ensures
        required is Ok <==> code == 0 || code == 5,
        accepted is Ok <==> code == 0 || code == 5,
        info is Ok <==> code == 0 || code == 5,
        info is Ok ==> info->Ok_0 == largest,
        required is Err ==> required->Err_0.message@ == operation@
            + " rejected with firmware result code "@ + code_text(code),
{
}

// ---------------------------------------------------------------------------------------------
// Texts, numbers and settings
// ---------------------------------------------------------------------------------------------

/// Trimming, splitting and reading numbers, as calls.
pub proof fn lemma_read_texts(
    text: &str,
    bare: String,
    empty: bool,
    separator: char,
    parts: Vec<String>,
    max: u64,
    number: Option<u64>,
)
    requires
        call_ensures(trim, (text,), bare),
        call_ensures(blank, (text,), empty),
        call_ensures(split, (text, separator), parts),
        call_ensures(parse_unsigned, (text, max), number),
    ensures
        bare@.len() <= text@.len(),
        bare@.len() > 0 ==> !crate::text::is_whitespace(bare@[0]) && !crate::text::is_whitespace(
            bare@.last(),
        ),
        empty <==> all_space(text@),
        crate::laws::texts::linked(views(parts@), separator) == text@,
        number is Some ==> number->0 <= max,
        text@.len() == 0 ==> number is None,
{
    crate::laws::texts::lemma_trimmed_text(text@);
    crate::laws::texts::lemma_pieces_make_the_text(text@, separator);
    if text@.len() == 0 {
        assert(text@ =~= Seq::empty());
    }
}

/// Doubles are read and compared as their bits say.
pub proof fn lemma_compared_doubles(
    left: &Binary64,
    right: &Binary64,
    finite: bool,
    below: bool,
    equal: bool,
    bytes: &[u8],
    at: usize,
    read: Binary64,
)
    requires
        at + 8 <= bytes@.len(),
        call_ensures(Binary64::is_finite, (left,), finite),
        call_ensures(Binary64::is_below, (left, right), below),
        call_ensures(Binary64::is_equal, (left, right), equal),
        call_ensures(read_double, (bytes, at), read),
    ensures
        finite <==> left.finite(),
        below <==> left.below(*right),
        equal <==> left.equals(*right),
        stores(bytes@, at as int, read),
{
    crate::laws::numbers::lemma_stored_doubles(bytes@, at as int, read);
}

/// Settings that are not set have their defaults, and numbers stay in their ranges.
pub proof fn lemma_read_settings(
    value: &Option<String>,
    yes: bool,
    small: u32,
    default_small: u32,
    large: u64,
    default_large: u64,
    ranged: usize,
    default_ranged: usize,
    min: usize,
    max: usize,
)
    requires
        min <= max,
        call_ensures(env_bool, (value,), yes),
        call_ensures(env_u32, (value, default_small), small),
        call_ensures(env_u64, (value, default_large), large),
        call_ensures(env_usize, (value, default_ranged, min, max), ranged),
    ensures
        yes <==> *value is Some && ((*value)->0@ == "1"@ || lower((*value)->0@) == lower(
            "true"@,
        )),
        *value is None ==> small == default_small && large == default_large,
        min <= ranged <= max,
        *value is None && min <= default_ranged <= max ==> ranged == default_ranged,
        forall|number: nat|
            *value is Some && (*value)->0@ == #[trigger] decimal_text(number) && number <= u32::MAX
                ==> small == number && large == number,
{
    assert forall|number: nat|
        *value is Some && (*value)->0@ == #[trigger] decimal_text(number) && number
            <= u32::MAX implies small == number && large == number by {
        crate::text::lemma_decimal_is_read_back(number, u32::MAX as nat);
        crate::text::lemma_decimal_is_read_back(number, u64::MAX as nat);
    }
}

// ---------------------------------------------------------------------------------------------
// The station
// ---------------------------------------------------------------------------------------------

/// What a message of a browser asks for, and who steers by a manual message.
pub proof fn lemma_read_messages(
    text: &str,
    control: Control,
    payload: &[u8],
    mode: Option<ManualMode>,
)
    requires
        call_ensures(handle_control, (text,), control),
        call_ensures(manual_selection_from_payload, (payload,), mode),
    ensures
        control is NotControl <==> json_text_at(text@, "kind"@) != Some(Some("control"@)),
        control is Select <==> json_text_at(text@, "kind"@) == Some(Some("control"@))
            && json_text_at(text@, "action"@) == Some(Some("setSubscriptions"@)),
        mode is Some <==> payload@.len() == 40,
        mode is Some ==> (mode->0 is Failsafe <==> payload@[35] & 8 == 0 || payload@[35] & 2 != 0),
        mode is Some ==> (mode->0 is Manual <==> payload@[35] & 8 != 0 && payload@[35] & 2 == 0
            && payload@[34] == 0),
{
    crate::laws::station::lemma_control_messages(text@);
    if payload@.len() == 40 {
        crate::laws::station::lemma_steering(payload@[35], payload@[34]);
    }
}

/// A command changes what the vehicle does, but neither its name nor the numbers taken.
pub proof fn lemma_carried_out_commands(
    state: &mut AppState,
    command: &str,
    mode: Option<String>,
)
    requires
        call_ensures(AppState::apply_command_effect, (state, command, mode), ()),
    ensures
        final(state).vehicle_id == old(state).vehicle_id,
        final(state).command_sequence == old(state).command_sequence,
        command@ == "arm"@ ==> final(state).runtime.armed,
        command@ == "disarm"@ ==> !final(state).runtime.armed,
        command@ != "arm"@ && command@ != "disarm"@ ==> final(state).runtime.armed == old(
            state,
        ).runtime.armed,
        command@ == "land"@ ==> final(state).runtime.mode@ == "land"@,
        command@ == "return"@ ==> final(state).runtime.mode@ == "return"@,
        command@ == "setMode"@ && mode is Some ==> final(state).runtime.mode@ == mode->0@,
{
    crate::laws::station::lemma_command_effects(
        old(state).runtime@,
        command@,
        crate::tables::optional_view(mode),
    );
    reveal_strlit("arm");
    reveal_strlit("disarm");
    assert("arm"@.len() != "disarm"@.len());
    reveal_strlit("setMode");
    reveal_strlit("land");
    reveal_strlit("return");
    assert("setMode"@.len() == 7 && "land"@.len() == 4 && "return"@.len() == 6);
}

/// The listeners found missing are those that are not bound.
pub proof fn lemma_found_listeners(
    locators: &[String],
    tables: &SocketTables,
    missing: Vec<String>,
)
    requires
        call_ensures(unbound_listeners, (locators, tables), missing),
    ensures
        views(missing@) == views(locators@).filter(
            |locator: Seq<char>| !is_bound(locator, views(tables.udp@), views(tables.tcp@)),
        ),
{
    crate::laws::network::lemma_missing_locators(
        views(locators@),
        views(tables.udp@),
        views(tables.tcp@),
    );
}

/// A bridge in a given mode shows where it listens, or else whom it dials.
pub proof fn lemma_shown_endpoints(
    mode: String,
    vehicle_id: String,
    settings: BridgeSettings,
    config: ZenohConfig,
    label: &str,
)
    requires
        call_ensures(ZenohConfig::in_mode, (mode, vehicle_id, settings), config),
        call_ensures(ZenohConfig::endpoint_label, (&config,), label),
    ensures
        config.mode@ == mode@,
        config.vehicle_id@ == vehicle_id@,
        config.listen is Some ==> label@ == config.listen->0@,
        config.listen is None ==> label@ == config.connect@,
        mode@ == "peer"@ ==> config.listen is Some,
        mode@ == "peer"@ && settings.listen is None ==> config.connect@.len() == 0,
        mode@ != "peer"@ && settings.connect is Some ==> config.connect@ == settings.connect->0@,
        settings.listen is Some ==> config.listen is Some && config.listen->0@
            == settings.listen->0@,
{
    crate::laws::network::lemma_joining(
        mode@,
        crate::settings::setting(settings.connect),
        crate::settings::setting(settings.listen),
        crate::settings::setting(settings.ws_listen),
        crate::settings::setting(settings.keyexpr),
        crate::settings::setting(settings.autoselect),
        vehicle_id@,
    );
}

} // verus!
