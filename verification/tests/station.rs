use electrode::autopilot::{
    autopilot_session, autopilot_zenoh_endpoints, counts_sample, monitored_topic, output_topic,
    push_unique_endpoint, resolve_monitored_topic, satisfies_contract, validate_native_binary,
    wait_step, AutopilotLink, FrameCounts, LinkChild, ProcessExit, WaitStep,
    AUTOPILOT_OUTPUT_TOPICS,
};
use electrode::binary64::Binary64;
use electrode::bridge::{BridgeSettings, ZenohConfig};
use electrode::catalog::{publisher_encoding, query_encoding};
use electrode::clock::{
    microseconds, microseconds_shown, milliseconds, milliseconds_shown, now_ms, timestamp_us,
    Reading,
};
use electrode::control::{
    ack_document, control_of, handle_control, parse_error_ack, Answer, AppState, Connection,
    Control,
};
use electrode::devices::{
    input_node, joystick_name, joystick_name_for, joystick_node, list, name_file, InputNode,
};
use electrode::discovery::{stamped_encoding, TopicRegistry};
use electrode::listeners::{
    bind_step, expected_listeners, locator_is_bound, unbound_listeners, vehicle_expected, BindStep,
    SocketTables,
};
use electrode::manual::manual_report;
use electrode::session::{
    active_streams, bridge_session, client_session, plant_session, probe_session, vehicle_session,
    SessionSetting,
};
use electrode::sim_bridge::{
    manual_mode, manual_selection_from_payload, ManualMode, RadioState, PRIVATE_MOCAP_TOPIC,
};
use electrode::simulation::{
    check_model_name, check_model_place, is_old_external_rumoca_path, model_path_needs_reset,
    path_repeats_project_dir, path_starts_with, ModelError, SimulationProfile,
};
use electrode::telemetry::{
    validate_header, validate_json_frame, MessageHeader, Priority, TelemetryEnvelope,
    ValidationError,
};
use electrode::text;

const MOCAP_POSE_TOPIC: &str = "synapse/mocap/rigid_body/cub1/pose";

fn set(text: &str) -> Option<String> {
    Some(text.to_string())
}

#[test]
fn bridge_raw_pose_resolves_to_raw_pose_contract() {
    let inbound = resolve_monitored_topic("qualisys/cub1/pose_raw", MOCAP_POSE_TOPIC).unwrap();
    let expected = synapse_fbs::topic_catalog::topic_by_name("RawPose").unwrap();

    assert_eq!(inbound.contract, Some(expected.id));
}

#[test]
fn output_topics_include_mission_segments() {
    assert!(AUTOPILOT_OUTPUT_TOPICS.contains(&"traj"));
    assert!(synapse_fbs::topic_catalog::parse_key("traj").is_some());
    for key in AUTOPILOT_OUTPUT_TOPICS {
        assert!(output_topic(key).is_ok());
    }
}

#[test]
fn pose_streams_resolve_to_the_mocap_frame_id() {
    let pose =
        resolve_monitored_topic("synapse/mocap/rigid_body/cub1/pose", MOCAP_POSE_TOPIC).unwrap();
    let selected = resolve_monitored_topic(
        "synapse/mocap/selected/rigid_body/cub1/pose",
        MOCAP_POSE_TOPIC,
    )
    .unwrap();
    assert_eq!(pose.contract, selected.contract);
    assert_eq!(pose.key, "synapse/mocap/rigid_body/cub1/pose");
}

#[test]
fn default_profile_uses_electrode_owned_model() {
    let profile = SimulationProfile::default();
    assert_eq!(profile.project_path, "models");
    assert_eq!(profile.model_path, "FixedWingTrueSILFull.mo");
    assert_eq!(profile.generated_config_path, "");
}

#[test]
fn normalize_migrates_old_external_rumoca_paths() {
    let mut profile = SimulationProfile {
        project_path: "/tmp/external/rumoca/project".to_string(),
        model_path: "/tmp/external/rumoca/project/FixedWingTrueSILFull.mo".to_string(),
        generated_config_path: "/tmp/old.toml".to_string(),
        ..Default::default()
    };
    profile.normalize();
    assert_eq!(profile.project_path, "models");
    assert_eq!(profile.model_path, "FixedWingTrueSILFull.mo");
    assert_eq!(profile.generated_config_path, "");
}

#[test]
fn normalize_removes_repeated_models_prefix() {
    let mut profile = SimulationProfile {
        project_path: "models".to_string(),
        model_path: "models/FixedWingTrueSILFull.mo".to_string(),
        ..Default::default()
    };
    profile.normalize();
    assert_eq!(profile.model_path, "FixedWingTrueSILFull.mo");
}

#[test]
fn normalize_replaces_blank_and_outdated_values() {
    let number = |value: f64| Binary64 { bits: value.to_bits() };
    let profile = SimulationProfile {
        project_path: " ".to_string(),
        model_path: ".electrode/old.mo".to_string(),
        modelica_lsp_command: String::new(),
        timing_mode: "\t".to_string(),
        simulation_dt: number(0.0),
        lockstep_send_rate_hz: number(-1.0),
        lockstep_receive_rate_hz: number(-0.0),
        lockstep_max_step_dt: number(f64::NAN),
        zenoh_connect: String::new(),
        command_input_topic: "rc".to_string(),
        actuator_output_topic: "pwm".to_string(),
        sensor_output_topic: "synapse/sim/sensors".to_string(),
        telemetry_output_topic: "qualisys/mocap".to_string(),
        ..Default::default()
    }
    .normalized();
    assert_eq!(profile.project_path, "models");
    assert_eq!(profile.model_path, "FixedWingTrueSILFull.mo");
    assert_eq!(profile.modelica_lsp_command, "modelica-language-server");
    assert_eq!(profile.timing_mode, "realtime");
    assert_eq!(profile.simulation_dt, number(0.002));
    assert_eq!(profile.lockstep_send_rate_hz, number(240.0));
    assert_eq!(profile.lockstep_receive_rate_hz, number(50.0));
    assert!(profile.lockstep_max_step_dt.is_nan());
    assert_eq!(profile.zenoh_connect, "udp/127.0.0.1:7447");
    assert_eq!(profile.command_input_topic, "synapse/motor_output");
    assert_eq!(profile.actuator_output_topic, "synapse/motor_output");
    assert_eq!(profile.sensor_output_topic, "synapse/v1/sim/sensors");
    assert_eq!(profile.telemetry_output_topic, PRIVATE_MOCAP_TOPIC);
    let again = SimulationProfile::loaded(Some(profile.clone()));
    assert_eq!(again.model_path, profile.model_path);
    assert_eq!(SimulationProfile::loaded(None).timing_mode, "realtime");
}

#[test]
fn paths_are_compared_by_their_components() {
    assert!(model_path_needs_reset("a/.rumoca/b.mo"));
    assert!(!model_path_needs_reset("a.rumoca/b.mo"));
    assert!(is_old_external_rumoca_path("/x/rumoca/y"));
    assert!(!is_old_external_rumoca_path("rumoca/y"));
    assert!(path_repeats_project_dir("/srv/models/", "models//x.mo"));
    assert!(!path_repeats_project_dir("models", "/models/x.mo"));
    assert!(!path_repeats_project_dir("models", "./models/x.mo"));
    assert!(!path_repeats_project_dir("..", "../x.mo"));
    assert!(path_starts_with("/a/./b/c", "/a/b/"));
    assert!(!path_starts_with("/ab/c", "/a"));
    assert!(!path_starts_with("a/b", "/a"));
    for (path, base) in [
        ("/a/./b/c", "/a/b/"),
        ("/ab/c", "/a"),
        ("a/b", "/a"),
        ("./a", "a"),
        ("a", ""),
        ("/", "/"),
        ("a//b/.", "a/b"),
        ("../a", ".."),
    ] {
        assert_eq!(
            path_starts_with(path, base),
            std::path::Path::new(path).starts_with(base),
            "{path} {base}"
        );
    }
}

#[test]
fn models_are_files_inside_the_project() {
    assert_eq!(check_model_name("x/plane.mo"), Ok(()));
    assert_eq!(check_model_name("plane.mo.in/"), Ok(()));
    assert_eq!(check_model_name("plane.txt"), Err(ModelError::NotAModel));
    assert_eq!(check_model_name("x/.."), Err(ModelError::NotAModel));
    assert_eq!(check_model_place("/srv/models/x.mo", "/srv/models"), Ok(()));
    assert_eq!(
        check_model_place("/srv/models2/x.mo", "/srv/models"),
        Err(ModelError::OutsideProject)
    );
    assert_eq!(
        ModelError::OutsideProject.message(),
        "model file must live inside the Electrode models directory"
    );
    assert_eq!(
        ModelError::NotAModel.message(),
        "simulation model must be a .mo or .mo.in file"
    );
    let mut profile = SimulationProfile::default();
    assert_eq!(profile.may_save(), Ok(()));
    profile.model_editable = false;
    assert_eq!(
        profile.may_save().unwrap_err().message(),
        "model editing is disabled for this simulation profile"
    );
}

#[test]
fn topics_are_monitored_by_contract_or_by_key() {
    assert!(resolve_monitored_topic("  ", MOCAP_POSE_TOPIC).is_none());
    assert!(resolve_monitored_topic("no_such_topic", MOCAP_POSE_TOPIC).is_none());
    let topic = monitored_topic(" cub1/att ", "x", false, Some(7)).unwrap();
    assert_eq!(topic.key, "cub1/att");
    assert_eq!(topic.contract, Some(7));
    assert!(monitored_topic("some/mocap_frame", "x", false, Some(7)).is_none());
    assert_eq!(monitored_topic("x", "x", true, Some(7)).unwrap().contract, None);
    assert!(satisfies_contract(None, None));
    assert!(satisfies_contract(Some(3), Some(3)));
    assert!(!satisfies_contract(Some(3), None));
    let pose = resolve_monitored_topic("qualisys/cub1/pose_raw", MOCAP_POSE_TOPIC).unwrap();
    let raw_pose = synapse_fbs::topic_catalog::topic_by_name("RawPose").unwrap();
    let encoding = synapse_fbs::value_contract::encoding_for_topic(raw_pose);
    assert!(counts_sample(&pose, &encoding));
    assert!(!counts_sample(&pose, "zenoh/bytes"));
    assert_eq!(
        output_topic("no_such_topic").unwrap_err(),
        "unknown autopilot output topic no_such_topic"
    );
}

#[test]
fn binaries_must_be_configured_and_there() {
    assert_eq!(validate_native_binary(" /opt/cubs2 ", true).unwrap(), "/opt/cubs2");
    assert_eq!(
        validate_native_binary(" ", true).unwrap_err(),
        "autopilot native binary is not configured"
    );
    assert_eq!(
        validate_native_binary("x", false).unwrap_err(),
        "autopilot binary not found: x — build it with `west build -b native_sim -d build-native_sim cerebri_cubs2`"
    );
}

#[test]
fn endpoints_are_listed_once() {
    let mut endpoints = Vec::new();
    push_unique_endpoint(&mut endpoints, "a");
    push_unique_endpoint(&mut endpoints, "");
    push_unique_endpoint(&mut endpoints, "b");
    push_unique_endpoint(&mut endpoints, "a");
    assert_eq!(endpoints, ["a", "b"]);
    assert_eq!(autopilot_zenoh_endpoints(" udp/1:2 "), ["udp/1:2"]);
    assert!(autopilot_zenoh_endpoints(" ").is_empty());
}

fn child() -> LinkChild {
    LinkChild {
        pid: 42,
        started_at_ms: 1000,
        binary: "/opt/cubs2".to_string(),
        log_path: "log/autopilot.log".to_string(),
    }
}

#[test]
fn the_autopilot_is_supervised_through_its_life() {
    let frames = FrameCounts { outgoing: 3, incoming: 4 };
    let mut link = AutopilotLink::new();
    let (status, event) = link.status(None, frames, 1);
    assert!(!status.running && event.is_none());
    assert_eq!(status.message, "autopilot stopped");
    assert_eq!(status.frames_out, 0);

    let event = link.started(child());
    assert_eq!(event.event, "start");
    assert_eq!(event.status.message, "autopilot started");
    let (status, event) = link.status(None, frames, 2);
    assert!(status.running && event.is_none());
    assert_eq!(status.pid, Some(42));
    assert_eq!(status.frames_in, 4);
    assert_eq!(status.message, "autopilot running");

    let exit = ProcessExit {
        description: "signal: 9".to_string(),
        code: None,
        signal: Some(9),
    };
    let (status, event) = link.status(Some(exit), frames, 3);
    assert_eq!(status.message, "autopilot exited with signal: 9");
    assert_eq!(status.last_exit_signal, Some(9));
    assert_eq!(status.last_exit_at_ms, Some(3));
    assert_eq!(status.last_pid, Some(42));
    assert!(!status.stop_requested);
    assert_eq!(event.unwrap().event, "unexpected_exit");
    let (again, event) = link.status(None, frames, 4);
    assert_eq!(again.message, status.message);
    assert!(event.is_none());

    assert!(link.prepare_start(frames, 5).is_none());
    assert_eq!(link.status(None, frames, 5).0.message, "autopilot stopped");
    link.started(child());
    let (status, event) = link.stop(frames, 6);
    assert_eq!(status.message, "autopilot stopped by operator request");
    assert!(status.stop_requested && !status.running);
    assert_eq!(event.unwrap().event, "requested_stop");
    assert!(link.stop_for_shutdown(frames, 7).1.is_none());
    link.started(child());
    assert_eq!(link.prepare_start(frames, 8).unwrap().event, "restart");
    link.started(child());
    let (status, event) = link.stop_for_shutdown(frames, 9);
    assert_eq!(status.message, "autopilot stopped with ground station");
    assert_eq!(event.unwrap().event, "ground_station_shutdown");
}

fn header() -> MessageHeader {
    MessageHeader {
        sequence: 1,
        source_time_ns: 0,
        receive_time_ns: 0,
        expire_time_ns: 100,
        vehicle_id: "cub1".to_string(),
        schema_version: 1,
        message_type: "Attitude".to_string(),
        priority: Priority::High,
        stream_id: "att".to_string(),
    }
}

#[test]
fn headers_are_validated_in_order() {
    assert_eq!(validate_header(&header(), 100), Ok(()));
    let expired = validate_header(&header(), 101).unwrap_err();
    assert_eq!(expired, ValidationError::Expired { expire_time_ns: 100, now_ns: 101 });
    assert_eq!(expired.message(), "message expired at 100; now is 101");
    let lasting = MessageHeader { expire_time_ns: 0, ..header() };
    assert_eq!(validate_header(&lasting, u64::MAX), Ok(()));
    let foreign = MessageHeader { schema_version: 2, vehicle_id: String::new(), ..header() };
    let error = validate_header(&foreign, 101).unwrap_err();
    assert_eq!(error.message(), "schema version 2 is not supported; expected 1");
    let nameless = MessageHeader { vehicle_id: " \u{3000}".to_string(), ..header() };
    assert_eq!(validate_header(&nameless, 1).unwrap_err().message(), "vehicle id is empty");
    let streamless = MessageHeader { stream_id: "\n".to_string(), ..header() };
    assert_eq!(validate_header(&streamless, 1).unwrap_err().message(), "stream id is empty");
}

#[test]
fn frames_are_validated_by_their_headers() {
    let envelope = |header: MessageHeader| TelemetryEnvelope {
        kind: "telemetry".to_string(),
        topic: "att".to_string(),
        header,
        payload: 7u8,
    };
    assert_eq!(validate_json_frame(Ok(envelope(header())), 5), Ok(()));
    assert_eq!(
        validate_json_frame(Ok(envelope(header())), 500),
        Err("message expired at 100; now is 500".to_string())
    );
    let unparsed: Result<TelemetryEnvelope<u8>, String> = Err("expected value".to_string());
    assert_eq!(validate_json_frame(unparsed, 5), Err("expected value".to_string()));
}

const TABLE: &str = "  sl  local_address rem_address   st tx_queue\n   \
    0: 0100007F:1D17 00000000:0000 0A 00000000:00000000\n   \
    1: 0100007F:1d18 00000000:0000 01 00000000:00000000\n   junk\n";

#[test]
fn listeners_are_looked_up_in_the_socket_tables() {
    let tables = SocketTables { udp: vec![TABLE.to_string()], tcp: vec![TABLE.to_string()] };
    let empty = SocketTables { udp: Vec::new(), tcp: vec![String::new()] };
    assert!(locator_is_bound("udp/0.0.0.0:7447", &tables));
    assert!(locator_is_bound("udp/0.0.0.0:7448", &tables));
    assert!(!locator_is_bound("udp/0.0.0.0:7449", &tables));
    assert!(locator_is_bound("ws/127.0.0.1:7447?rel=1", &tables));
    assert!(!locator_is_bound("tcp/127.0.0.1:7448", &tables));
    assert!(!locator_is_bound("quic/[::]:7447", &empty));
    assert!(locator_is_bound("serial/0:7447", &empty));
    assert!(locator_is_bound("no-slash:7447", &empty));
    assert!(locator_is_bound("udp/host:port", &empty));
    let locators = ["udp/1:7449".to_string(), "udp/1:7447".to_string(), "tls/1:9".to_string()];
    assert_eq!(unbound_listeners(&locators, &tables), ["udp/1:7449", "tls/1:9"]);
    assert_eq!(expected_listeners(&set(" "), &set("ws/1:2")), ["ws/1:2"]);
    assert_eq!(expected_listeners(&set("a"), &set("b")), ["a", "b"]);
    assert!(expected_listeners(&None, &None).is_empty());
    assert!(vehicle_expected("client", "udp/1:2", "ws/1:2").is_empty());
    assert_eq!(vehicle_expected("peer", "udp/1:2", "ws/1:2"), ["udp/1:2", "ws/1:2"]);
    assert_eq!(vehicle_expected("router", "udp/1:2", " "), ["udp/1:2"]);
    assert_eq!(bind_step(0, 9), BindStep::Ready);
    assert_eq!(bind_step(1, 4), BindStep::Retry { pause_ms: 1600 });
    assert_eq!(bind_step(1, 5), BindStep::GiveUp);
}

fn bridge_settings() -> BridgeSettings {
    BridgeSettings {
        mode: None,
        connect: None,
        listen: None,
        ws_listen: None,
        keyexpr: None,
        autoselect: None,
    }
}

fn pairs(settings: Vec<SessionSetting>) -> Vec<(String, String)> {
    settings.into_iter().map(|setting| (setting.key, setting.value)).collect()
}

fn expect(settings: &[(&str, &str)]) -> Vec<(String, String)> {
    settings.iter().map(|(key, value)| (key.to_string(), value.to_string())).collect()
}

#[test]
fn clients_dial_and_peers_host() {
    let client = ZenohConfig::from_settings("cub1".to_string(), bridge_settings());
    assert_eq!(client.mode, "client");
    assert_eq!(client.connect, "udp/127.0.0.1:7447");
    assert_eq!(client.listen, None);
    assert_eq!(client.ws_listen, None);
    assert_eq!(client.keyexpr, "**");
    assert!(client.auto_select_known);
    assert_eq!(client.endpoint_label(), "udp/127.0.0.1:7447");

    let settings = BridgeSettings { mode: set("PEER"), ..bridge_settings() };
    let peer = ZenohConfig::from_settings("cub1".to_string(), settings);
    assert_eq!(peer.mode, "peer");
    assert_eq!(peer.connect, "");
    assert_eq!(peer.endpoint_label(), "udp/0.0.0.0:7447");
    assert_eq!(peer.ws_listen, set("ws/0.0.0.0:7447"));
    assert_eq!(
        pairs(bridge_session(&peer)),
        expect(&[
            ("mode", "\"peer\""),
            ("listen/endpoints", "[\"udp/0.0.0.0:7447\",\"ws/0.0.0.0:7447\"]"),
            ("scouting/multicast/enabled", "false"),
        ])
    );

    let settings = BridgeSettings {
        connect: set("tcp/1:2"),
        ws_listen: set(""),
        autoselect: set("False"),
        ..bridge_settings()
    };
    let peer = ZenohConfig::in_mode("peer".to_string(), "cub1".to_string(), settings);
    assert_eq!(peer.listen, set("tcp/1:2"));
    assert_eq!(peer.ws_listen, None);
    assert!(!peer.auto_select_known);
    let settings = BridgeSettings { listen: set("udp/3:4"), ..bridge_settings() };
    let peer = ZenohConfig::in_mode("peer".to_string(), "cub1".to_string(), settings);
    assert_eq!(peer.connect, "udp/127.0.0.1:7447");
}

#[test]
fn sessions_have_their_settings() {
    assert_eq!(
        pairs(vehicle_session("router", "udp/1:2", " ws/1:2 ")),
        expect(&[
            ("mode", "\"router\""),
            ("listen/endpoints", "[\"udp/1:2\",\"ws/1:2\"]"),
            ("scouting/multicast/enabled", "false"),
        ])
    );
    assert_eq!(
        pairs(vehicle_session("peer", "udp/1:2", "udp/1:2"))[1].1,
        "[\"udp/1:2\"]"
    );
    let dial = expect(&[
        ("mode", "\"client\""),
        ("connect/endpoints", "[\"udp/1:2\"]"),
        ("scouting/multicast/enabled", "false"),
    ]);
    assert_eq!(pairs(vehicle_session("client", "udp/1:2", "ws/1:2")), dial);
    assert_eq!(pairs(client_session("udp/1:2")), dial);
    assert_eq!(pairs(probe_session("udp/1:2")), dial);
    assert_eq!(pairs(probe_session("peer")), expect(&[("mode", "\"peer\"")]));
    assert_eq!(
        pairs(plant_session(" udp/1:2 ")),
        expect(&[("mode", "\"peer\""), ("connect/endpoints", "[\"udp/1:2\"]")])
    );
    assert_eq!(
        pairs(autopilot_session(" ")),
        expect(&[("mode", "\"client\"")])
    );
    assert!(active_streams("both").mocap && active_streams("both").autopilot);
    assert!(!active_streams("mocap").autopilot && active_streams("autopilot").autopilot);
}

fn registry() -> TopicRegistry {
    let config = ZenohConfig::from_settings("cub1".to_string(), bridge_settings());
    TopicRegistry::new(&config)
}

#[test]
fn topics_are_discovered_counted_and_listed() {
    let mut registry = registry();
    registry.record_sample("b/att", "AttitudeEstimate", 40, 10);
    registry.record_sample("a/odd", "Raw", 7, 11);
    registry.record_sample("b/att", "AttitudeEstimate", 41, 12);
    assert!(registry.is_selected("b/att"));
    assert!(!registry.is_selected("a/odd"));
    let rows = registry.catalog();
    assert_eq!(rows.len(), 2);
    assert_eq!(rows[0].key, "a/odd");
    assert!(!rows[0].decodable && !rows[0].selected);
    assert_eq!(rows[1].key, "b/att");
    assert_eq!((rows[1].count, rows[1].last_bytes, rows[1].last_seen_ms), (2, 41, 12));
    assert!(rows[1].selected && rows[1].decodable);
    registry.recompute_rates();
    assert_eq!(registry.catalog()[1].recent, 2);
    registry.recompute_rates();
    assert_eq!(registry.catalog()[1].recent, 0);
    registry.set_selection(vec!["a/odd".to_string(), "a/odd".to_string()]);
    assert!(registry.is_selected("a/odd") && !registry.is_selected("b/att"));
    registry.set_connected(true);
    assert!(registry.connected);
    assert_eq!(registry.endpoint, "udp/127.0.0.1:7447");
}

#[test]
fn samples_are_counted_and_forwarded_where_selected() {
    let mut registry = registry();
    let header = registry.take_sample("b/att", "AttitudeEstimate", "Attitude", 40, 10).unwrap();
    assert_eq!((header.sequence, header.source_time_ns), (1, 10_000_000));
    assert_eq!((header.message_type.as_str(), header.stream_id.as_str()), ("Attitude", "b/att"));
    assert!(registry.take_sample("a/odd", "Raw", "Raw", 7, 11).is_none());
    assert_eq!(registry.catalog()[0].count, 1);
    registry.set_selection(vec!["a/odd".to_string()]);
    assert!(registry.take_sample("b/att", "AttitudeEstimate", "Attitude", 41, 12).is_none());
    assert_eq!(registry.catalog()[1].count, 2);
    assert_eq!(registry.take_sample("a/odd", "Raw", "Raw", 8, 13).unwrap().sequence, 2);
    assert_eq!(registry.catalog()[0].last_bytes, 8);
}

#[test]
fn killed_processes_have_two_seconds_to_end() {
    assert_eq!(wait_step(true, 0), WaitStep::Done);
    assert_eq!(wait_step(true, 9_000), WaitStep::Done);
    assert_eq!(wait_step(false, 0), WaitStep::Sleep(20));
    assert_eq!(wait_step(false, 1_999), WaitStep::Sleep(20));
    assert_eq!(wait_step(false, 2_000), WaitStep::GiveUp);
}

#[test]
fn forwarded_frames_carry_valid_headers() {
    let mut registry = registry();
    let first = registry.next_header("att", "AttitudeEstimate", 5);
    assert_eq!(first.sequence, 1);
    assert_eq!(first.source_time_ns, 5_000_000);
    assert_eq!(first.expire_time_ns, 0);
    assert_eq!(first.message_type, "AttitudeEstimate");
    assert_eq!(first.stream_id, "att");
    assert_eq!(first.vehicle_id, "cub1");
    assert_eq!(first.priority, Priority::Normal);
    assert_eq!(validate_header(&first, u64::MAX), Ok(()));
    assert_eq!(registry.next_header("att", "x", 6).sequence, 2);
    assert_eq!(stamped_encoding("zenoh/bytes"), None);
    assert_eq!(stamped_encoding(""), None);
    assert_eq!(stamped_encoding("text/plain"), Some("text/plain"));
}

#[test]
fn control_messages_select_topics() {
    assert_eq!(handle_control("not json"), Control::NotControl);
    assert_eq!(handle_control("{\"kind\":\"command\"}"), Control::NotControl);
    assert_eq!(handle_control("[1]"), Control::NotControl);
    assert_eq!(
        handle_control("{\"kind\":\"control\",\"action\":\"requestCatalog\"}"),
        Control::Refresh
    );
    assert_eq!(handle_control("{\"kind\":\"control\"}"), Control::Refresh);
    assert_eq!(
        handle_control(
            "{\"kind\":\"control\",\"action\":\"setSubscriptions\",\"keys\":[\"a\",3,\"b\"]}"
        ),
        Control::Select(vec!["a".to_string(), "b".to_string()])
    );
    assert_eq!(
        handle_control("{\"kind\":\"control\",\"action\":\"setSubscriptions\",\"keys\":\"a\"}"),
        Control::Select(Vec::new())
    );
    assert_eq!(
        control_of(set("control"), set("setSubscriptions"), Some(vec![None, set("k")])),
        Control::Select(vec!["k".to_string()])
    );
}

#[test]
fn unparsed_commands_are_answered() {
    let ack = parse_error_ack(3, "bad".to_string(), 99);
    assert_eq!(ack.command_id, "parse-error-3");
    assert_eq!(ack.command, "unknown");
    let document: serde_json::Value = serde_json::from_str(&ack_document(&ack)).unwrap();
    assert_eq!(document.get("kind").unwrap().as_str(), Some("commandAck"));
    assert_eq!(document.get("status").unwrap().as_str(), Some("rejected"));
    assert_eq!(document.get("reason").unwrap().as_str(), Some("bad"));
    assert_eq!(document.get("receivedAtMs").unwrap().as_u64(), Some(99));
}

#[test]
fn connections_count_what_they_cannot_parse() {
    let mut connection = Connection::new();
    assert_eq!(connection.answer(Control::Refresh, set("x"), 5), Answer::Catalog);
    let keys = vec!["a".to_string()];
    assert_eq!(
        connection.answer(Control::Select(keys.clone()), set("x"), 5),
        Answer::Select(keys)
    );
    assert_eq!(connection.answer(Control::NotControl, None, 5), Answer::Command);
    assert_eq!(connection.unparsed, 0);
    for count in 1..=2 {
        match connection.answer(Control::NotControl, set("bad"), 6) {
            Answer::Refused(ack) => {
                assert_eq!(ack.command_id, format!("parse-error-{count}"));
                assert_eq!(ack.sequence, count);
                assert_eq!(ack.received_at_ms, 6);
            }
            other => panic!("{other:?}"),
        }
    }
}

#[test]
fn command_sequences_only_grow() {
    let mut state = AppState::new("cub1".to_string());
    assert!(!state.accept_command_sequence(0));
    assert!(state.accept_command_sequence(5));
    assert!(!state.accept_command_sequence(5));
    assert!(!state.accept_command_sequence(4));
    assert!(state.accept_command_sequence(6));
    assert_eq!(state.command_sequence, 6);
}

#[test]
fn commands_take_effect_on_the_vehicle() {
    let mut state = AppState::new("cub1".to_string());
    assert_eq!(state.runtime.mode, "hold");
    state.apply_command_effect("disarm", None);
    assert!(!state.runtime.armed);
    state.apply_command_effect("arm", None);
    assert!(state.runtime.armed);
    state.apply_command_effect("setMode", set("auto"));
    state.apply_command_effect("setMode", None);
    state.apply_command_effect("dance", set("x"));
    assert_eq!(state.runtime.mode, "auto");
    state.apply_command_effect("land", None);
    assert_eq!(state.runtime.mode, "land");
    state.apply_command_effect("return", None);
    assert_eq!(state.runtime.mode, "return");
}

#[test]
fn devices_are_found_and_sorted() {
    let node = |node: &str, name: Option<&str>| InputNode {
        node: node.to_string(),
        name_text: name.map(|name| name.to_string()),
    };
    let inputs = vec![
        node("js1", Some(" Pad \n")),
        node("event0", None),
        node("js", None),
        node("jsx", None),
        node("js0", Some(" \n")),
        node("js1", Some(" Pad \n")),
    ];
    let nodes = vec!["ttyUSB1".to_string(), "ttyS0".to_string(), "ttyACM0".to_string()];
    let devices = list(&inputs, &nodes);
    let joysticks: Vec<(&str, &str)> =
        devices.joysticks.iter().map(|d| (d.path.as_str(), d.name.as_str())).collect();
    assert_eq!(joysticks, [
            ("/dev/input/js0", "Joystick"),
            ("/dev/input/js1", "Pad"),
            ("/dev/input/js1", "Pad"),
        ]);
    let serial: Vec<(&str, &str)> =
        devices.serial.iter().map(|d| (d.path.as_str(), d.name.as_str())).collect();
    assert_eq!(serial, [("/dev/ttyACM0", "ttyACM0"), ("/dev/ttyUSB1", "ttyUSB1")]);
    assert!(joystick_node("js12") && !joystick_node("js1a"));
    assert_eq!(joystick_name(&set(" x ")), set("x"));
    assert_eq!(joystick_name_for("/dev/input/js0", &set("Pad\n")), set("Pad"));
    assert_eq!(joystick_name_for("/dev/js0", &set("Pad\n")), None);
    assert_eq!(input_node("/dev/input/js3"), set("js3"));
    assert_eq!(name_file("js3"), "/sys/class/input/js3/device/name");
}

fn manual(flags: u8, mode: u8) -> Vec<u8> {
    let mut payload = vec![0u8; 40];
    payload[0..8].copy_from_slice(&123_456_u64.to_le_bytes());
    payload[14..16].copy_from_slice(&(-250_i16).to_le_bytes());
    payload[16..18].copy_from_slice(&500_i16.to_le_bytes());
    payload[18..20].copy_from_slice(&1000_i16.to_le_bytes());
    payload[20..22].copy_from_slice(&(-1000_i16).to_le_bytes());
    payload[34] = mode;
    payload[35] = flags;
    payload
}

#[test]
fn the_plant_is_given_the_selected_signal() {
    assert_eq!(manual_mode(8, 0), ManualMode::Manual);
    assert_eq!(manual_mode(8, 3), ManualMode::Auto);
    assert_eq!(manual_mode(0, 0), ManualMode::Failsafe);
    assert_eq!(manual_mode(10, 0), ManualMode::Failsafe);
    assert_eq!(manual_selection_from_payload(&manual(12, 1)), Some(ManualMode::Auto));
    assert_eq!(manual_selection_from_payload(&[0; 39]), None);

    let mut state = RadioState::initial(vec![9]);
    assert_eq!(state.selected_payload(), [9]);
    assert_eq!(state.handle_public_pwm_sample(&[1, 1], false), None);
    assert_eq!(state.handle_public_manual_sample(&manual(8, 1), vec![5]), Some(vec![9]));
    assert_eq!(state.handle_public_pwm_sample(&[1, 1], true), Some(vec![1, 1]));
    assert_eq!(state.handle_public_manual_sample(&manual(8, 0), vec![5]), Some(vec![5]));
    assert_eq!(state.handle_public_manual_sample(&manual(10, 0), vec![6]), Some(vec![9]));
    assert_eq!(state.handle_public_manual_sample(&[1], vec![7]), None);
}

#[test]
fn manual_control_messages_are_reported() {
    let report = manual_report(&manual(0b1101, 2)).unwrap();
    assert_eq!(report.pitch_milli, -250);
    assert_eq!(report.roll_milli, 500);
    assert_eq!(report.throttle_milli, 1000);
    assert_eq!(report.yaw_milli, -1000);
    assert_eq!(report.flight_mode, 2);
    assert_eq!(report.timestamp_us, 123_456);
    assert!(report.arm && !report.kill && report.active && report.valid);
    assert_eq!(
        manual_report(&[0; 3]).unwrap_err(),
        "manual control payload is 3 bytes, expected 40"
    );
}

#[test]
fn publishers_stamp_the_encoding_of_their_topic() {
    let topic = synapse_fbs::topic_catalog::topic_by_name("MocapFrame").unwrap();
    assert_eq!(
        publisher_encoding("MocapFrame").unwrap(),
        synapse_fbs::value_contract::encoding_for_topic(topic)
    );
    assert_eq!(publisher_encoding("NoSuchTopic"), None);
    let query = query_encoding("cub1/cmd/firmware_info").unwrap();
    assert!(query.contains("synapse.cmd.FirmwareInfoRequest"));
    assert_eq!(query_encoding("cmd/nothing"), None);
}

#[test]
fn clock_readings_are_converted() {
    let reading = Reading { seconds: 3, nanoseconds: 4_567_890 };
    assert_eq!(milliseconds(reading), 3004);
    assert_eq!(microseconds(reading), 3_004_567);
    let far = Reading { seconds: u64::MAX, nanoseconds: 0 };
    assert_eq!(milliseconds(far), u64::MAX.wrapping_mul(1000));
    assert_eq!(milliseconds_shown(Some(reading)), Some(3004));
    assert_eq!(milliseconds_shown(None), None);
    assert_eq!(microseconds_shown(Some(reading)), 3_004_567);
    assert_eq!(microseconds_shown(None), 0);
    assert!(now_ms().unwrap() > 1_500_000_000_000);
    assert!(timestamp_us() > 1_500_000_000_000_000);
}

#[test]
fn texts_behave_like_their_std_counterparts() {
    for sample in ["", " a b ", "\u{a0}x\u{2003}", "a/b//c", "/lead", "trail/", "Ünï CÖDE", "+12"] {
        assert_eq!(text::trim(sample), sample.trim());
        assert_eq!(text::to_lower(sample), sample.to_ascii_lowercase());
        assert_eq!(text::split(sample, '/'), sample.split('/').collect::<Vec<_>>());
        assert_eq!(
            text::split_words(sample),
            sample.split_whitespace().collect::<Vec<_>>()
        );
        assert_eq!(text::text_bytes(sample), sample.len());
        assert_eq!(text::drop_trailing(sample, '/'), sample.trim_end_matches('/'));
        assert_eq!(text::drop_leading(sample, '/'), sample.trim_start_matches('/'));
        assert_eq!(text::contains(sample, "/b"), sample.contains("/b"));
        assert_eq!(
            text::parse_unsigned(sample, u64::from(u32::MAX)).map(|value| value as u32),
            sample.parse::<u32>().ok()
        );
        for other in ["", "a", "a/b", "Ünï"] {
            assert_eq!(text::at_most(sample, other), sample <= other);
            assert_eq!(text::starts_with(sample, other), sample.starts_with(other));
            assert_eq!(text::ends_with(sample, other), sample.ends_with(other));
        }
    }
    for value in [0, 9, 10, 65_535, u64::MAX] {
        assert_eq!(text::decimal(value), value.to_string());
        assert_eq!(text::parse_unsigned(&value.to_string(), u64::MAX), Some(value));
    }
    assert_eq!(text::hex_word_text(0x1d17), "1D17");
    for c in '\0'..=char::MAX {
        assert_eq!(text::whitespace(c), c.is_whitespace(), "{c:?}");
        assert_eq!(text::alphanumeric(c), c.is_ascii_alphanumeric(), "{c:?}");
    }
}

#[test]
fn the_default_profile_needs_no_repair() {
    let default = SimulationProfile::default();
    let repaired = SimulationProfile::default().normalized();
    assert_eq!(format!("{default:?}"), format!("{repaired:?}"));
    let odd = SimulationProfile {
        project_path: "/srv/FixedWingTrueSILFull.mo".to_string(),
        model_path: "FixedWingTrueSILFull.mo/x.mo".to_string(),
        ..Default::default()
    }
    .normalized();
    assert_eq!(format!("{odd:?}"), format!("{:?}", odd.clone().normalized()));
}

#[test]
fn messages_stay_good_until_they_expire() {
    for now in 0..=100 {
        assert_eq!(validate_header(&header(), now), Ok(()));
    }
    assert!(validate_header(&header(), 101).is_err());
}
