use electrode::authority::CommandAuthorityConfig;
use electrode::binary64::{read_double, Binary32, Binary64};
use electrode::catalog::{
    command_request_encoding, encoding_text, topic_key, CMD_KEY_PREFIX, FLATBUFFER_MEDIA_TYPE,
    STRUCT_MEDIA_TYPE,
};
use electrode::limits::{
    default_parameter_limits, parse_parameter_limits, ParameterLimit, ParameterLimitsFile,
};
use electrode::policy::{
    check_manual, check_name, check_radio, credential_envelope, invalid, judge_gain, judge_trajectory,
    judge_velocity, rejected, safe_id, team_name_from_any_velocity_envelope, validate_gain,
    CommandPolicy, Delivery, PolicyConfig, PolicyError, CANONICAL_FIRMWARE_QUERY_KEYS,
};
use electrode::requests::{ParameterFields, Segment, TrajectoryFields};
use electrode::velocity_budget::{
    ledger_csv, ledger_from_csv, ledger_json, safe_device_id, VelocityBudget,
};
use flatbuffers::FlatBufferBuilder;
use synapse_fbs::cmd::{
    ParamGetRequest, ParamGetRequestArgs, ParamKind, ParamSetRequest, ParamSetRequestArgs,
    ParamValue, ParamValueArgs, TrajectorySetRequest, TrajectorySetRequestArgs,
};
use synapse_fbs::topic::TrajectorySegmentData;
use synapse_fbs::types::Vec3f;

fn policy() -> CommandPolicy {
    CommandPolicy::new(PolicyConfig::default(), None)
}

fn number(value: f64) -> Binary64 {
    Binary64 { bits: value.to_bits() }
}

#[test]
fn default_runtime_uses_distinct_browser_and_vehicle_transports() {
    let config = CommandAuthorityConfig::default();
    assert!(config.browser_listen.starts_with("ws/127.0.0.1:"));
    assert!(config.lan_request_listen.starts_with("ws/0.0.0.0:"));
    assert!(config.vehicle_listen.starts_with("udp/"));
    assert_eq!(config.vehicle_listen, "udp/127.0.0.1:7447");
    assert!(config.vehicle_connect.is_none());
    assert!(config.telemetry_connect.is_none());
    assert_ne!(config.browser_listen, config.vehicle_listen);
    assert_ne!(config.browser_listen, config.lan_request_listen);
}

fn velocity_intent(team: &str, value: f64) -> Vec<u8> {
    envelope(b"EVC1", team, &parameter("velocity.setpoint", value))
}

fn named_velocity_intent(team: &str, name: &str, kind: ParamKind, value: f64) -> Vec<u8> {
    envelope(b"EVC1", team, &parameter_with_kind(name, kind, value))
}

fn velocity_budget_request(team: &str) -> Vec<u8> {
    envelope(b"EVB1", team, &[])
}

fn envelope(magic: &[u8; 4], team: &str, body: &[u8]) -> Vec<u8> {
    let mut payload = Vec::with_capacity(5 + team.len() + body.len());
    payload.extend_from_slice(magic);
    payload.push(team.len() as u8);
    payload.extend_from_slice(team.as_bytes());
    payload.extend_from_slice(body);
    payload
}

fn radio(channel: u16) -> Vec<u8> {
    let mut payload = vec![0_u8; 48];
    payload[8] = 5;
    payload[9] = 100;
    for index in 0..5 {
        let offset = 10 + index * 2;
        payload[offset..offset + 2].copy_from_slice(&channel.to_le_bytes());
    }
    payload
}

fn parameter(name: &str, value: f64) -> Vec<u8> {
    parameter_with_kind(name, ParamKind::Float, value)
}

fn parameter_with_kind(name: &str, kind: ParamKind, value: f64) -> Vec<u8> {
    let mut builder = FlatBufferBuilder::new();
    let name = builder.create_string(name);
    let parameter = ParamValue::create(
        &mut builder,
        &ParamValueArgs {
            name: Some(name),
            kind,
            float_value: value,
            ..Default::default()
        },
    );
    let request = ParamSetRequest::create(
        &mut builder,
        &ParamSetRequestArgs {
            value: Some(parameter),
        },
    );
    builder.finish(request, None);
    builder.finished_data().to_vec()
}

#[test]
fn budgeted_velocity_is_a_canonical_param_set_query() {
    let mut policy = policy();
    let vehicle_payload = parameter("velocity.setpoint", 2.5);
    let command = policy
        .authorize(
            "gcs/v1/cmd/velocity",
            &envelope(b"EVC1", "team-alpha", &vehicle_payload),
        )
        .unwrap();
    assert_eq!(command.delivery, Delivery::Query);
    assert_eq!(command.target, "cmd/param_set");
    assert_eq!(command.payload, vehicle_payload);
    assert_eq!(command.status_leaf, "velocity");
    assert!(command
        .encoding
        .as_deref()
        .is_some_and(|encoding| encoding.contains("synapse.cmd.ParamSetRequest")));
    assert_eq!(command.velocity_remaining, Some(4));

    assert!(policy
        .authorize(
            "gcs/v1/cmd/velocity",
            &named_velocity_intent("team-alpha", "route.cruiseSpeed", ParamKind::Float, 2.5,),
        )
        .is_err());
    assert!(policy
        .authorize(
            "gcs/v1/cmd/velocity",
            &named_velocity_intent("team-alpha", "velocity.setpoint", ParamKind::Int, 2.5,),
        )
        .is_err());
    for invalid in [0.999, 4.001, f64::NAN] {
        assert!(policy
            .authorize(
                "gcs/v1/cmd/velocity",
                &velocity_intent("team-alpha", invalid),
            )
            .is_err());
    }
    for _ in 0..4 {
        policy
            .authorize("gcs/v1/cmd/velocity", &velocity_intent("TEAM-ALPHA", 1.0))
            .unwrap();
    }
    assert!(policy
        .authorize("gcs/v1/cmd/velocity", &velocity_intent("team-alpha", 1.0))
        .is_err());
    let budget = policy
        .authorize(
            "gcs/v1/cmd/velocity_budget",
            &velocity_budget_request("team-alpha"),
        )
        .unwrap();
    assert_eq!(budget.delivery, Delivery::Budget);
    assert_eq!(budget.velocity_used, Some(5));
    assert_eq!(budget.velocity_remaining, Some(0));
}

#[test]
fn checked_manual_is_denied_but_trusted_manual_is_preserved() {
    let mut policy = policy();
    let payload = (0_u8..40).collect::<Vec<_>>();
    assert!(policy.authorize("gcs/v1/cmd/manual", &payload).is_err());
    let trusted = policy
        .authorize_trusted("gcs/v1/cmd/manual", &payload)
        .unwrap();
    assert_eq!(trusted.target, "manual");
    assert_eq!(trusted.payload, payload);
    assert!(policy
        .authorize_trusted("gcs/v1/cmd/velocity", &parameter("velocity.setpoint", 2.0))
        .is_err());
}

#[test]
fn typed_radio_has_exact_mapping_and_ranges() {
    let mut policy = policy();
    assert_eq!(
        policy
            .authorize("gcs/v1/cmd/radio", &radio(1500))
            .unwrap()
            .target,
        "rc"
    );
    assert!(policy.authorize("gcs/v1/cmd/radio", &radio(899)).is_err());
    assert!(policy.authorize("gcs/v1/cmd/radio", &radio(2101)).is_err());
}

#[test]
fn gain_is_schema_verified_and_allowlisted() {
    let mut policy = policy();
    for (name, min, max) in [
        ("route.crossTrackSteeringDistance", 0.25, 50.0),
        ("route.waypointSwitchingDistance", 0.1, 50.0),
        ("attitude.rollLimit", 0.05, 1.2),
        ("attitude.headingPid.kp", 0.0, 10.0),
        ("attitude.headingPid.ki", 0.0, 10.0),
        ("attitude.headingPid.kd", 0.0, 10.0),
    ] {
        for value in [min, max] {
            let command = policy
                .authorize("gcs/v1/cmd/gain", &parameter(name, value))
                .unwrap();
            assert_eq!(command.delivery, Delivery::Query);
            assert_eq!(command.target, "cmd/param_set");
        }
        assert!(policy
            .authorize("gcs/v1/cmd/gain", &parameter(name, min - 0.001))
            .is_err());
        assert!(policy
            .authorize("gcs/v1/cmd/gain", &parameter(name, max + 0.001))
            .is_err());
    }
    assert!(policy
        .authorize(
            "gcs/v1/cmd/gain",
            &parameter("attitude.headingPid.trim", 1.0),
        )
        .is_err());
    assert!(policy
        .authorize("gcs/v1/cmd/gain", &parameter("attitude.rollRateLimit", 1.0),)
        .is_err());
    for name in [
        "velocity.setpoint",
        "guidance.cruiseSpeed",
        "route.cruiseSpeed",
    ] {
        assert!(policy
            .authorize("gcs/v1/cmd/gain", &parameter(name, 2.0))
            .is_err());
    }
    assert!(policy
        .authorize(
            "gcs/v1/cmd/config",
            &parameter("attitude.headingPid.kp", 1.2),
        )
        .is_err());
}

#[test]
fn trusted_local_parameters_bypass_lan_value_policy() {
    let mut policy = policy();
    let payload = parameter("experimental.unlistedGain", 1234.0);
    let trusted = policy
        .authorize_trusted("gcs/v1/cmd/gain", &payload)
        .unwrap();
    assert_eq!(trusted.delivery, Delivery::Query);
    assert_eq!(trusted.target, "cmd/param_set");
    assert!(policy.authorize("gcs/v1/cmd/gain", &payload).is_err());
}

#[test]
fn raw_path_denies_checked_control_topics_but_preserves_trusted_bytes() {
    let mut policy = policy();
    assert_eq!(
        policy
            .authorize("gcs/v1/cmd/raw/text_status", b"operator bytes")
            .unwrap()
            .target,
        "text_status"
    );
    let payload = (0_u8..40).collect::<Vec<_>>();
    assert!(policy
        .authorize("gcs/v1/cmd/raw/manual_control_command", &payload)
        .is_err());
    assert!(policy.authorize("gcs/v1/cmd/raw/manual", &payload).is_err());
    let trusted = policy
        .authorize_trusted("gcs/v1/cmd/raw/manual_control_command", &payload)
        .unwrap();
    assert_eq!(trusted.target, "manual_control_command");
    assert_eq!(trusted.payload, payload);

    for leaf in ["pos_sp", "local_position_command"] {
        assert!(policy
            .authorize(&format!("gcs/v1/cmd/raw/{leaf}"), &[1, 2, 3, 4])
            .is_err());
    }
    let command = policy
        .authorize_trusted("gcs/v1/cmd/raw/pos_sp", &[1, 2, 3, 4])
        .unwrap();
    assert_eq!(command.target, "pos_sp");
    assert_eq!(command.payload, vec![1, 2, 3, 4]);
    assert_eq!(command.velocity_remaining, None);
    assert!(policy
        .authorize("gcs/v1/cmd/raw/nested/channel", &[0; 16])
        .is_err());
    assert!(policy
        .authorize("gcs/v1/cmd/raw/text_status", &vec![0; 4097])
        .is_err());
}

#[test]
fn firmware_upload_uses_staged_authority_delivery() {
    let mut policy = policy();
    assert_eq!(PolicyConfig::default().firmware_key_prefix, "cmd/firmware");
    assert!(CANONICAL_FIRMWARE_QUERY_KEYS.contains(&"cmd/firmware_abort"));
    let command = policy
        .authorize("gcs/v1/cmd/firmware/update-1/start", &[0; 32])
        .unwrap();
    assert_eq!(command.delivery, Delivery::Firmware);
    assert_eq!(command.target, "update-1/start");
    assert_eq!(command.status_leaf, "firmware/update-1");
    assert_eq!(command.payload, vec![0; 32]);
    assert!(policy
        .authorize("gcs/v1/cmd/firmware/update-1/chunk/2", &[1; 64])
        .is_ok());
    assert!(policy
        .authorize(
            "gcs/v1/cmd/firmware/update-1/chunk/2",
            &vec![1; 68 * 1024 + 1]
        )
        .is_err());
    assert!(policy
        .authorize("gcs/v1/cmd/firmware/../commit", &[0; 32])
        .is_err());
    assert!(policy
        .authorize("gcs/v1/cmd/firmware_info", &[0; 32])
        .is_err());
}

fn refusal(policy: &mut CommandPolicy, key: &str, payload: &[u8]) -> String {
    policy.authorize(key, payload).unwrap_err().message()
}

#[test]
fn refusals_have_their_sentences() {
    let mut policy = policy();
    assert_eq!(
        refusal(&mut policy, "gcs/v2/cmd/radio", &[]),
        "intent key is outside the command namespace"
    );
    assert_eq!(
        refusal(&mut policy, "gcs/v1/cmd/man\"ual", &[]),
        "unknown command intent \"man\\\"ual\""
    );
    assert_eq!(
        refusal(&mut policy, "gcs/v1/cmd/radio", &[0; 47]),
        "invalid command payload: payload is 47 bytes, expected 48"
    );
    assert_eq!(
        refusal(&mut policy, "gcs/v1/cmd/raw/a b", &[0; 4]),
        "command rejected by policy: raw target must be one safe topic leaf"
    );
    assert_eq!(
        refusal(&mut policy, "gcs/v1/cmd/raw/ok", &[]),
        "command rejected by policy: raw payload must contain 1 to 4096 bytes"
    );
    assert_eq!(
        refusal(&mut policy, "gcs/v1/cmd/firmware/u/chunk/x", &[1]),
        "unknown command intent \"firmware/u/chunk/x\""
    );
    assert_eq!(
        refusal(&mut policy, "gcs/v1/cmd/firmware/u/commit", &[]),
        "command rejected by policy: firmware payload must contain 1 to 2048 bytes"
    );
    assert!(refusal(&mut policy, "gcs/v1/cmd/gain", &[1, 2])
        .starts_with("invalid command payload: "));
    assert_eq!(
        refusal(&mut policy, "gcs/v1/cmd/gain", &parameter("  ", 1.0)),
        "command rejected by policy: parameter name must contain 1 to 128 characters"
    );
    assert_eq!(
        refusal(&mut policy, "gcs/v1/cmd/gain", &parameter("velocity.setpoint", 1.0)),
        "command rejected by policy: public parameter \"velocity.setpoint\" is not allowlisted"
    );
    assert_eq!(
        policy
            .authorize("gcs/v1/cmd/gain", &parameter(" attitude.rollLimit ", 1.25))
            .unwrap_err(),
        PolicyError::Rejected("parameter attitude.rollLimit must be within [0.05, 1.2]".to_string())
    );
    assert_eq!(
        refusal(&mut policy, "gcs/v1/cmd/gain", &parameter("attitude.headingPid.kp", -0.5)),
        "command rejected by policy: parameter attitude.headingPid.kp must be within [0, 10]"
    );
    assert_eq!(
        refusal(&mut policy, "gcs/v1/cmd/velocity", &velocity_intent("team", 4.0625)),
        "command rejected by policy: velocity 4.062 m/s is outside [1.000, 4.000]"
    );
    assert_eq!(
        refusal(&mut policy, "gcs/v1/cmd/velocity", &velocity_intent("team", f64::NAN)),
        "command rejected by policy: velocity components must be finite"
    );
}

#[test]
fn undecodable_payloads_are_refused_with_the_decoding_error() {
    let mut policy = policy();
    let truncated = &parameter("attitude.rollLimit", 1.0)[..20];
    let error = flatbuffers::root::<ParamSetRequest<'_>>(truncated).unwrap_err().to_string();
    assert_eq!(
        policy.authorize("gcs/v1/cmd/gain", truncated).unwrap_err(),
        PolicyError::InvalidPayload(error)
    );
    for payload in [&[1, 2][..], &[0xff; 16][..]] {
        let error = flatbuffers::root::<ParamSetRequest<'_>>(payload).unwrap_err().to_string();
        assert_eq!(
            policy.authorize("gcs/v1/cmd/gain", payload).unwrap_err(),
            PolicyError::InvalidPayload(error.clone())
        );
        assert_eq!(
            policy
                .authorize("gcs/v1/cmd/velocity", &envelope(b"EVC1", "team", payload))
                .unwrap_err(),
            PolicyError::InvalidPayload(error)
        );
        let error = flatbuffers::root::<ParamGetRequest<'_>>(payload).unwrap_err().to_string();
        assert_eq!(
            policy.authorize("gcs/v1/cmd/parameters", payload).unwrap_err(),
            PolicyError::InvalidPayload(error)
        );
        let error = flatbuffers::root::<TrajectorySetRequest<'_>>(payload).unwrap_err().to_string();
        assert_eq!(
            policy.authorize("gcs/v1/cmd/trajectory", payload).unwrap_err(),
            PolicyError::InvalidPayload(error)
        );
    }
}

#[test]
fn default_limits_are_printed_as_their_numbers() {
    let limits = default_parameter_limits();
    for entry in &limits.entries {
        let printed = |limit: &Binary64| f64::from_bits(limit.bits).to_string();
        assert_eq!(entry.value.minimum_text, printed(&entry.value.minimum));
        assert_eq!(entry.value.maximum_text, printed(&entry.value.maximum));
    }
    let config = PolicyConfig::default();
    let printed = |limit: &Binary64| format!("{:.3}", f64::from_bits(limit.bits));
    assert_eq!(config.velocity_min_text, printed(&config.velocity_min_mps));
    assert_eq!(config.velocity_max_text, printed(&config.velocity_max_mps));
}

#[test]
fn keys_of_firmware_intents_name_their_update() {
    let policy = policy();
    let update = |key: &str| policy.update_of(key);
    assert_eq!(update("gcs/v1/cmd/firmware/update-1/start").as_deref(), Some("update-1"));
    assert_eq!(update("gcs/v1/cmd/firmware/u/chunk/x/y").as_deref(), Some("u"));
    assert_eq!(update("gcs/v1/cmd/firmware/u").as_deref(), Some("u"));
    assert_eq!(update("gcs/v1/cmd/firmware/").as_deref(), Some(""));
    assert_eq!(update("gcs/v1/cmd/firmware_info"), None);
    assert_eq!(update("gcs/v2/cmd/firmware/u/start"), None);
    let config = PolicyConfig { intent_prefix: "a//".to_string(), ..PolicyConfig::default() };
    let policy = CommandPolicy::new(config, None);
    assert_eq!(policy.update_of("a/firmware/u/commit").as_deref(), Some("u"));
}

#[test]
fn envelopes_are_taken_apart() {
    let payload = envelope(b"EVC1", "Team.A_1:b-c", &[7, 8]);
    let (team, body) = credential_envelope(&payload, b"EVC1", None).unwrap();
    assert_eq!(team, "team.a_1:b-c");
    assert_eq!(body, [7, 8]);
    let message = |payload: &[u8], size: Option<usize>| {
        credential_envelope(payload, b"EVC1", size).unwrap_err().message()
    };
    assert_eq!(
        message(b"EVB1", None),
        "invalid command payload: velocity credential envelope has invalid magic"
    );
    assert_eq!(
        message(b"EVC1", None),
        "invalid command payload: velocity credential envelope is missing a team name"
    );
    assert_eq!(
        message(b"EVC1\0", None),
        "invalid command payload: velocity team name length is out of range"
    );
    assert_eq!(
        message(&envelope(b"EVC1", &"a".repeat(65), &[]), None),
        "invalid command payload: velocity team name length is out of range"
    );
    assert_eq!(
        message(b"EVC1\x05abc", None),
        "invalid command payload: velocity team name is truncated"
    );
    assert_eq!(
        message(&[69, 86, 67, 49, 1, 255], None),
        "invalid command payload: velocity team name is not valid UTF-8"
    );
    assert_eq!(
        message(&envelope(b"EVC1", "a b", &[]), None),
        "command rejected by policy: team name must be 1-64 characters of letters, numbers, dot, underscore, colon, or hyphen"
    );
    assert_eq!(
        message(&payload, Some(3)),
        "invalid command payload: velocity payload has an invalid size"
    );
}

#[test]
fn any_envelope_names_its_team() {
    let team = |payload: &[u8]| team_name_from_any_velocity_envelope(payload);
    assert_eq!(team(&envelope(b"EVC1", "A", &[1])).unwrap(), "a");
    assert_eq!(team(&envelope(b"EVB1", "B", &[])).unwrap(), "b");
    assert_eq!(team(&envelope(b"EVR1", "C", &[1, 2])).unwrap(), "c");
    assert!(team(&envelope(b"EVB1", "B", &[1])).is_err());
    assert_eq!(
        team(b"EV").unwrap_err().message(),
        "invalid command payload: velocity credential envelope is too short"
    );
    assert!(team(&envelope(b"XXXX", "B", &[])).is_err());
    assert_eq!(
        CommandPolicy::credential_id_for_payload(&envelope(b"EVR1", "C", &[])),
        Some("c".to_string())
    );
    assert_eq!(CommandPolicy::credential_id_for_payload(&[]), None);
}

#[test]
fn refused_requests_leave_the_budget_alone_and_refunds_undo_attempts() {
    let mut policy = policy();
    let used = |policy: &CommandPolicy| {
        policy.velocity_state_for_payload(&velocity_budget_request("team")).unwrap().used
    };
    assert_eq!(used(&policy), 0);
    policy.authorize("gcs/v1/cmd/velocity", &velocity_intent("team", 9.0)).unwrap_err();
    policy.authorize_trusted("gcs/v1/cmd/raw/pos_sp", &[1]).unwrap();
    assert_eq!(used(&policy), 0);
    policy.authorize("gcs/v1/cmd/velocity", &velocity_intent("TEAM", 2.0)).unwrap();
    policy.authorize("gcs/v1/cmd/velocity", &velocity_intent("other", 2.0)).unwrap();
    assert_eq!(used(&policy), 1);
    let state = policy.refund_velocity("team");
    assert_eq!(state.used, 0);
    assert_eq!(state.remaining, 5);
    assert_eq!(state.limit, 5);
    assert_eq!(policy.refund_velocity("team").used, 0);
    assert_eq!(used(&policy), 0);
    assert!(policy.velocity_state_for_payload(b"EVB").is_err());
}

#[test]
fn the_ledger_stops_at_its_limit() {
    let mut ledger = VelocityBudget::new(2);
    assert_eq!(ledger.consume("Ab").unwrap().remaining, 1);
    let state = ledger.consume("aB").unwrap();
    assert_eq!(state.credential_id, "ab");
    assert_eq!(state.device_id, "ab");
    assert_eq!(state.used, 2);
    assert_eq!(ledger.consume("AB").unwrap_err(), "velocity budget is exhausted");
    assert_eq!(ledger.state("ab").used, 2);
    assert!(safe_device_id("a.b_c:d-9"));
    assert!(!safe_device_id("") && !safe_device_id("a b") && !safe_device_id(&"a".repeat(65)));
}

#[test]
fn ledgers_are_written_and_read_back() {
    let mut ledger = VelocityBudget::new(5);
    ledger.consume("Team-A").unwrap();
    ledger.consume("b:1").unwrap();
    ledger.consume("b:1").unwrap();
    let text = ledger_csv(&ledger);
    assert_eq!(text, "team-a,1\nb:1,2\n");
    let again = ledger_from_csv(&text, 5);
    assert_eq!(again.state("team-a").used, 1);
    assert_eq!(again.state("b:1").used, 2);
    assert_eq!(again.used.len(), 2);
    assert_eq!(ledger_csv(&again), text);
    assert_eq!(ledger_csv(&VelocityBudget::new(5)), "");
    let edited = ledger_from_csv("team,used\r\n A , 9 \r\nno comma\na,1\nc,-1\nd,7\n", 5);
    assert_eq!(edited.state("a").used, 1);
    assert_eq!(edited.state("d").used, 5);
    assert_eq!(edited.used.len(), 2);
    let document: serde_json::Value = serde_json::from_str(&ledger_json(&ledger)).unwrap();
    assert_eq!(document.get("team-a").unwrap().as_u64(), Some(1));
    assert_eq!(document.get("b:1").unwrap().as_u64(), Some(2));
}

#[test]
fn radio_messages_are_checked_by_their_bytes() {
    assert!(check_radio(&radio(900)).is_ok());
    assert!(check_radio(&radio(2100)).is_ok());
    let mut few = radio(1500);
    few[8] = 4;
    assert_eq!(
        check_radio(&few).unwrap_err().message(),
        "command rejected by policy: radio channel_count must be within [5, 18]"
    );
    let mut many = radio(1500);
    many[8] = 6;
    assert_eq!(
        check_radio(&many).unwrap_err().message(),
        "command rejected by policy: radio channel 5 is outside [900, 2100] us"
    );
    let mut lost = radio(1500);
    lost[9] = 0;
    assert_eq!(
        check_radio(&lost).unwrap_err().message(),
        "command rejected by policy: radio link quality must be within [1, 100]"
    );
}

#[test]
fn manual_messages_are_checked_by_their_bytes() {
    let mut payload = vec![0u8; 40];
    payload[35] = 12;
    payload[12..14].copy_from_slice(&0x03ff_u16.to_le_bytes());
    payload[32..34].copy_from_slice(&(-1000_i16).to_le_bytes());
    assert!(check_manual(&payload).is_ok());
    let refused = |edit: &dyn Fn(&mut Vec<u8>)| {
        let mut payload = payload.clone();
        edit(&mut payload);
        check_manual(&payload).unwrap_err().message()
    };
    assert_eq!(
        refused(&|payload| payload.truncate(39)),
        "invalid command payload: payload is 39 bytes, expected 40"
    );
    assert_eq!(
        refused(&|payload| payload[32..34].copy_from_slice(&1001_i16.to_le_bytes())),
        "command rejected by policy: manual axes must be within [-1000, 1000]"
    );
    assert_eq!(
        refused(&|payload| payload[13] = 4),
        "command rejected by policy: manual active_axes contains unknown bits"
    );
    assert_eq!(
        refused(&|payload| payload[35] = 8),
        "command rejected by policy: manual command must be active and valid"
    );
}

fn read_request(name: Option<&str>) -> Vec<u8> {
    let mut builder = FlatBufferBuilder::new();
    let name = name.map(|name| builder.create_string(name));
    let args = ParamGetRequestArgs { name, offset: 0, limit: 1 };
    let request = ParamGetRequest::create(&mut builder, &args);
    builder.finish(request, None);
    builder.finished_data().to_vec()
}

#[test]
fn parameters_are_read_by_name() {
    let mut policy = policy();
    let payload = read_request(Some("velocity.setpoint"));
    let command = policy.authorize("gcs/v1/cmd/parameters", &payload).unwrap();
    assert_eq!(command.target, "cmd/param_get");
    assert_eq!(command.payload, payload);
    assert_eq!(command.status_leaf, "parameters");
    assert!(command.encoding.unwrap().contains("type=synapse.cmd.ParamGetRequest;"));
    assert!(policy.authorize("gcs/v1/cmd/parameters", &read_request(None)).is_err());
    assert!(policy
        .authorize("gcs/v1/cmd/parameters", &read_request(Some(&"n".repeat(129))))
        .is_err());
    assert!(policy.authorize("gcs/v1/cmd/parameters", &[]).is_err());
    assert_eq!(check_name(&Some(" a ".to_string())), Some("a".to_string()));
    assert_eq!(check_name(&None), None);
}

fn segment(sequence: u32, x: f32) -> TrajectorySegmentData {
    let mut data = TrajectorySegmentData::default();
    data.set_segment_seq(sequence);
    data.set_p0_enu_m(&Vec3f::new(x, 0.0, 0.0));
    data
}

fn trajectory(total: u32, segments: &[TrajectorySegmentData]) -> Vec<u8> {
    let mut builder = FlatBufferBuilder::new();
    let segments = builder.create_vector(segments);
    let args = TrajectorySetRequestArgs { total, segments: Some(segments), ..Default::default() };
    let request = TrajectorySetRequest::create(&mut builder, &args);
    builder.finish(request, None);
    builder.finished_data().to_vec()
}

#[test]
fn trajectories_are_complete_ordered_and_finite() {
    let mut policy = policy();
    let key = "gcs/v1/cmd/trajectory";
    let payload = trajectory(2, &[segment(0, 1.0), segment(1, 2.0)]);
    let command = policy.authorize(key, &payload).unwrap();
    assert_eq!(command.target, "cmd/trajectory_set");
    assert_eq!(command.payload, payload);
    assert_eq!(
        refusal(&mut policy, key, &trajectory(3, &[segment(0, 1.0)])),
        "command rejected by policy: trajectory must contain one to six complete segments"
    );
    assert_eq!(
        refusal(&mut policy, key, &trajectory(1, &[segment(1, 1.0)])),
        "command rejected by policy: trajectory segments must be ordered Local ENU segments"
    );
    assert_eq!(
        refusal(&mut policy, key, &trajectory(1, &[segment(0, f32::INFINITY)])),
        "command rejected by policy: trajectory coordinates must be finite"
    );
    assert!(policy.authorize_trusted(key, &[1, 2, 3]).is_ok());
}

#[test]
fn trajectories_are_judged_by_their_values() {
    let zero = Binary32 { bits: 0 };
    let point = (zero, zero, zero);
    let plan = |frame: u8, segments: u32| TrajectoryFields {
        total: segments,
        segments: Some(
            (0..segments)
                .map(|sequence| Segment { sequence, frame, start: point, end: point })
                .collect(),
        ),
    };
    assert!(judge_trajectory(plan(0, 6)).is_ok());
    assert!(judge_trajectory(plan(0, 7)).is_err());
    assert!(judge_trajectory(plan(0, 0)).is_err());
    assert!(judge_trajectory(plan(1, 1)).is_err());
    assert_eq!(
        judge_trajectory(TrajectoryFields { total: 0, segments: None }).unwrap_err().message(),
        "invalid command payload: TrajectorySetRequest has no segments"
    );
}

#[test]
fn parameters_are_judged_by_their_values() {
    let named = |name: &str, kind: u8, value: f64| ParameterFields {
        name: Some(name.to_string()),
        kind,
        value: number(value),
        value_text: format!("{value:.3}"),
    };
    let config = PolicyConfig::default();
    assert!(judge_velocity(&config, &named("velocity.setpoint", 0, 4.0)).is_ok());
    assert!(judge_velocity(&config, &named(" velocity.setpoint", 0, 4.0)).is_err());
    assert!(judge_velocity(&config, &named("velocity.setpoint", 1, 4.0)).is_err());
    let limits = default_parameter_limits();
    assert!(judge_gain(&limits, &named("attitude.rollLimit", 0, 1.2)).is_ok());
    assert!(judge_gain(&limits, &named("attitude.rollLimit", 0, f64::NAN)).is_err());
    assert!(judge_gain(&limits, &named("velocity.setpoint", 0, 2.0)).is_err());
    assert_eq!(
        judge_velocity(&config, &named("velocity.setpoint", 0, -0.25)).unwrap_err().message(),
        "command rejected by policy: velocity -0.250 m/s is outside [1.000, 4.000]"
    );
    assert_eq!(
        validate_gain(0, number(60.5), "x", limits.get("route.crossTrackSteeringDistance")),
        Err(PolicyError::Rejected("parameter x must be within [0.25, 50]".to_string()))
    );
    assert_eq!(
        validate_gain(0, number(f64::INFINITY), "x", limits.get("attitude.rollLimit"))
            .unwrap_err()
            .message(),
        "command rejected by policy: parameter x must be finite"
    );
    assert_eq!(
        validate_gain(3, number(1.0), "x", None).unwrap_err().message(),
        "command rejected by policy: public parameters must use ParamKind::Float"
    );
}

#[test]
fn namespaces_stand_before_targets() {
    let config = PolicyConfig {
        vehicle_topic_prefix: "/cub1/".to_string(),
        ..PolicyConfig::default()
    };
    let mut policy = CommandPolicy::new(config, None);
    let radio_command = policy.authorize("gcs/v1/cmd/radio", &radio(1500)).unwrap();
    assert_eq!(radio_command.target, "cub1/rc");
    assert_eq!(radio_command.delivery, Delivery::Publish);
    assert!(radio_command.encoding.unwrap().starts_with("application/x-synapse-struct;type="));
    let raw = policy.authorize("gcs/v1/cmd/raw/private-leaf", &[1]).unwrap();
    assert_eq!(raw.target, "cub1/private-leaf");
    assert_eq!(raw.status_leaf, "raw/private-leaf");
    assert_eq!(raw.encoding, None);
    let read = policy.authorize_trusted("gcs/v1/cmd/parameters", &[]).unwrap();
    assert_eq!(read.target, "cub1/cmd/param_get");
    assert_eq!(topic_key("//", "att"), "att");
    assert_eq!(topic_key("a/b/", "att"), "a/b/att");
}

#[test]
fn encodings_follow_the_catalog() {
    let encoding = command_request_encoding("param_set").unwrap();
    assert!(encoding.starts_with(
        "application/x-flatbuffers;type=synapse.cmd.ParamSetRequest;schema=sha256-128:"
    ));
    assert_eq!(command_request_encoding("no_such_command"), None);
    assert_eq!(CMD_KEY_PREFIX, synapse_fbs::topic_catalog::CMD_KEY_PREFIX);
    assert_eq!(STRUCT_MEDIA_TYPE, synapse_fbs::value_contract::STRUCT_MEDIA_TYPE);
    assert_eq!(FLATBUFFER_MEDIA_TYPE, synapse_fbs::value_contract::FLATBUFFER_MEDIA_TYPE);
    assert_eq!(
        encoding_text("struct", "T", "h"),
        "application/x-synapse-struct;type=T;schema=sha256-128:h"
    );
    assert_eq!(
        encoding_text("table", "T", "h"),
        "application/x-flatbuffers;type=T;schema=sha256-128:h"
    );
}

fn limits_file() -> ParameterLimitsFile {
    let names = [
        "velocity.setpoint",
        "route.crossTrackSteeringDistance",
        "route.waypointSwitchingDistance",
        "attitude.rollLimit",
        "attitude.headingPid.kp",
        "attitude.headingPid.ki",
        "attitude.headingPid.kd",
    ];
    ParameterLimitsFile {
        schema: "electrode.public-lan-parameter-limits.v1".to_string(),
        parameters: names
            .iter()
            .map(|name| ParameterLimit {
                name: name.to_string(),
                minimum: number(-1.0),
                maximum: number(1.0),
                minimum_text: "-1".to_string(),
                maximum_text: "1".to_string(),
            })
            .collect(),
    }
}

#[test]
fn limits_documents_define_every_public_parameter() {
    let limits = parse_parameter_limits(&limits_file()).unwrap();
    assert_eq!(limits.len(), 7);
    assert_eq!(limits.get("attitude.rollLimit").unwrap().minimum, number(-1.0));
    let refused = |edit: &dyn Fn(&mut ParameterLimitsFile)| {
        let mut file = limits_file();
        edit(&mut file);
        parse_parameter_limits(&file).unwrap_err()
    };
    assert_eq!(
        refused(&|file| file.schema = "v2".to_string()),
        "unsupported schema \"v2\""
    );
    assert_eq!(
        refused(&|file| file.parameters.truncate(6)),
        "limits must define exactly seven public parameters"
    );
    assert_eq!(
        refused(&|file| file.parameters[2].name = "x".to_string()),
        "unexpected public parameter \"x\""
    );
    assert_eq!(
        refused(&|file| file.parameters[0].minimum = number(2.0)),
        "invalid limits for \"velocity.setpoint\""
    );
    assert_eq!(
        refused(&|file| file.parameters[1].maximum = number(f64::NAN)),
        "invalid limits for \"route.crossTrackSteeringDistance\""
    );
    assert_eq!(
        refused(&|file| file.parameters[1].name = "velocity.setpoint".to_string()),
        "duplicate public parameter \"velocity.setpoint\""
    );
}

#[test]
fn unreadable_limits_deny_every_write() {
    let config = || PolicyConfig {
        parameter_limits_path: Some("limits.json".to_string()),
        ..PolicyConfig::default()
    };
    let write = parameter("attitude.rollLimit", 1.0);
    let mut policy = CommandPolicy::new(config(), None);
    assert!(policy.authorize("gcs/v1/cmd/gain", &write).is_err());
    let mut policy = CommandPolicy::new(config(), Some(limits_file()));
    assert!(policy.authorize("gcs/v1/cmd/gain", &write).is_ok());
    assert_eq!(
        refusal(&mut policy, "gcs/v1/cmd/gain", &parameter("attitude.rollLimit", 1.5)),
        "command rejected by policy: parameter attitude.rollLimit must be within [-1, 1]"
    );
    let mut broken = limits_file();
    broken.schema.clear();
    let mut policy = CommandPolicy::new(config(), Some(broken));
    assert!(policy.authorize("gcs/v1/cmd/gain", &write).is_err());
}

#[test]
fn small_helpers_of_the_policy() {
    assert!(safe_id("update-1") && !safe_id("a/b"));
    let refused: Result<(), PolicyError> = rejected("no");
    assert_eq!(refused.unwrap_err().message(), "command rejected by policy: no");
    assert_eq!(invalid("bad").message(), "invalid command payload: bad");
}

#[test]
fn bit_patterns_order_like_the_numbers_they_stand_for() {
    let values = [
        f64::NEG_INFINITY,
        -1.5,
        -f64::MIN_POSITIVE,
        -5e-324,
        -0.0,
        0.0,
        5e-324,
        0.1,
        1.0,
        4.000000000000001,
        f64::MAX,
        f64::INFINITY,
        f64::NAN,
    ];
    for left in values {
        assert_eq!(number(left).is_finite(), left.is_finite());
        assert_eq!(number(left).is_nan(), left.is_nan());
        for right in values {
            assert_eq!(number(left).is_below(&number(right)), left < right);
            assert_eq!(number(left).is_equal(&number(right)), left == right);
        }
    }
    assert!(Binary32 { bits: 1.5_f32.to_bits() }.is_finite());
    assert!(!Binary32 { bits: f32::NAN.to_bits() }.is_finite());
    let mut bytes = vec![9u8; 3];
    bytes.extend_from_slice(&(-2.25_f64).to_le_bytes());
    assert_eq!(read_double(&bytes, 3), number(-2.25));
}
