use electrode::binary64::Binary64;
use electrode::digest::full_sha256;
use electrode::gate::{
    check_digest, failure_status, firmware_target, progress_status, FirmwareGate, GateSettings,
};
use electrode::parameters::{ParameterPolicy, ParameterRegion};
use electrode::policy::{CommandPolicy, PolicyConfig};
use electrode::settings::{chosen_path, env_bool, env_u32, env_u64, env_usize};
use electrode::status::{
    document_fields, publish_policy_rejection, sanitized_version, status_document,
    valid_sha256_hex, valid_update_id,
};
use electrode::tables::{
    build_chunk_request_with_hash, build_commit_request, build_prepare_request,
    FirmwareChunkUpload, FirmwareCommitUpload, FirmwarePrepareUpload,
};
use electrode::transfer::TransferProgress;

#[test]
fn update_ids_and_hashes_are_bounded() {
    assert!(valid_update_id("fw-123_alpha"));
    assert!(!valid_update_id("../firmware"));
    assert!(!valid_update_id(&"x".repeat(81)));
    assert!(valid_sha256_hex(&"a5".repeat(32)));
    assert!(!valid_sha256_hex(&"z".repeat(64)));
}

#[test]
fn versions_are_safe_and_bounded() {
    assert_eq!(
        sanitized_version("candidate cubs2!.bin"),
        "candidate_cubs2_.bin"
    );
    assert_eq!(sanitized_version(""), "browser-upload.bin");
    assert_eq!(sanitized_version(&"a".repeat(200)).len(), 128);
}

#[test]
fn identifiers_at_their_bounds() {
    assert!(valid_update_id(&"x".repeat(80)));
    assert!(!valid_update_id(""));
    assert!(!valid_update_id("é"));
    assert!(valid_sha256_hex(&"AbCdEf0123456789".repeat(4)));
    assert!(!valid_sha256_hex(&"a".repeat(63)));
    assert_eq!(sanitized_version("é/x"), "__x");
}

const PREFIX: &str = "gcs/v1/cmd";

fn settings(baseline: Option<Vec<u8>>) -> GateSettings {
    GateSettings {
        baseline,
        policy: None,
        auto_bootstrap: None,
        max_image_size: None,
        target: None,
        board_id: None,
        chunk_size: None,
        retries: None,
        timeout_ms: None,
    }
}

fn gate(baseline: Option<Vec<u8>>) -> FirmwareGate {
    FirmwareGate::from_settings("cmd/firmware".to_string(), 2500, settings(baseline))
}

fn prepare(id: &str, image: &[u8], chunk_size: usize) -> Vec<u8> {
    build_prepare_request(
        id,
        "",
        "",
        "candidate 1.bin",
        image.len(),
        &full_sha256(image),
        "",
        "",
        chunk_size,
        image.len().div_ceil(chunk_size),
    )
}

fn chunk(id: &str, image: &[u8], chunk_size: usize, index: usize) -> Vec<u8> {
    let start = index * chunk_size;
    let end = (start + chunk_size).min(image.len());
    build_chunk_request_with_hash(id, index, start, &image[start..end], end == image.len())
}

fn image() -> Vec<u8> {
    (0..2500u32).map(|value| (value % 253) as u8).collect()
}

fn sole(gate: &mut FirmwareGate, suffix: &str, payload: &[u8]) -> (String, String) {
    let outcome = gate.handle_intent(PREFIX, suffix, payload);
    assert!(outcome.transfer.is_none());
    assert_eq!(outcome.statuses.len(), 1);
    let status = &outcome.statuses[0];
    (status.status.clone(), status.message.clone())
}

fn rejected(message: &str) -> (String, String) {
    ("rejected".to_string(), message.to_string())
}

#[test]
fn an_upload_in_any_order_reaches_the_vehicle() {
    let image = image();
    let mut gate = gate(Some(image.clone()));
    let outcome = gate.handle_intent(PREFIX, "fw-1/start", &prepare("fw-1", &image, 1024));
    assert_eq!(outcome.statuses[0].key, "gcs/v1/status/firmware/fw-1");
    assert_eq!(outcome.statuses[0].message, "GCS is receiving the browser firmware image.");
    assert_eq!(outcome.statuses[0].upload.unwrap().total, 2500);
    assert_eq!(outcome.statuses[0].upload.unwrap().chunk_index, None);
    for (index, message, percent) in [
        (2, "Received 452/2500 browser bytes.", 0),
        (0, "Received 1476/2500 browser bytes.", 2),
        (0, "Received 1476/2500 browser bytes.", 2),
        (1, "Received 2500/2500 browser bytes.", 5),
    ] {
        let outcome = gate.handle_intent(
            PREFIX,
            &format!("fw-1/chunk/{index}"),
            &chunk("fw-1", &image, 1024, index),
        );
        let status = &outcome.statuses[0];
        assert_eq!(status.status, "in_progress");
        assert_eq!(status.message, message);
        assert_eq!(status.percent, percent);
        assert_eq!(status.upload.unwrap().chunk_index, Some(index));
    }
    let commit = build_commit_request("fw-1", &full_sha256(&image).to_uppercase());
    let outcome = gate.handle_intent(PREFIX, "fw-1/commit", &commit);
    let phases: Vec<&str> = outcome.statuses.iter().map(|status| status.phase.as_str()).collect();
    assert_eq!(phases, ["validate", "connect"]);
    let plan = outcome.transfer.unwrap();
    assert_eq!(plan.image, image);
    assert_eq!(plan.version, "candidate_1.bin");
    assert_eq!(plan.update_id, "fw-1");
    assert_eq!(plan.target, "cubs2");
    assert_eq!(plan.image_sha256, full_sha256(&image));
}

#[test]
fn intents_need_an_identifier_and_an_operation() {
    let mut gate = gate(None);
    let outcome = gate.handle_intent(PREFIX, "../start", &[1]);
    assert!(outcome.statuses.is_empty() && outcome.transfer.is_none());
    assert_eq!(
        sole(&mut gate, "fw-1", &[1]),
        rejected("Firmware uploads require prepare, chunk, and commit intents.")
    );
    for suffix in ["fw-1/abort", "fw-1/start/again", "fw-1/commit/again", "fw-1/"] {
        assert_eq!(
            sole(&mut gate, suffix, &[1]),
            rejected("Unknown firmware upload operation.")
        );
    }
}

#[test]
fn announcements_are_bounded() {
    let image = image();
    let mut gate = gate(None);
    assert_eq!(
        sole(&mut gate, "fw-1/start", &vec![0; 4097]),
        rejected("Firmware prepare payload is too large.")
    );
    assert_eq!(
        sole(&mut gate, "fw-1/start", &[4, 0, 0, 0]),
        rejected("Firmware prepare payload is not a valid Synapse FlatBuffer.")
    );
    let limits = rejected("Firmware upload size or chunk metadata is outside GCS limits.");
    assert_eq!(sole(&mut gate, "fw-1/start", &prepare("fw-2", &image, 1024)), limits);
    assert_eq!(sole(&mut gate, "fw-1/start", &prepare("fw-1", &image, 512)), limits);
    let too_large = build_prepare_request(
        "fw-1",
        "",
        "",
        "",
        8 * 1024 * 1024 + 1,
        &"a".repeat(64),
        "",
        "",
        1024,
        8193,
    );
    assert_eq!(sole(&mut gate, "fw-1/start", &too_large), limits);
    for index in 0..4 {
        let id = format!("fw-{index}");
        let (status, _) = sole(&mut gate, &format!("{id}/start"), &prepare(&id, &image, 1024));
        assert_eq!(status, "in_progress");
    }
    assert_eq!(
        sole(&mut gate, "fw-9/start", &prepare("fw-9", &image, 1024)),
        rejected("Too many firmware uploads are pending.")
    );
    let (status, _) = sole(&mut gate, "fw-3/start", &prepare("fw-3", &image, 2048));
    assert_eq!(status, "in_progress");
}

#[test]
fn chunks_must_belong_to_their_upload() {
    let image = image();
    let mut gate = gate(None);
    let first = chunk("fw-1", &image, 1024, 0);
    assert_eq!(
        sole(&mut gate, "fw-1/chunk", &first),
        rejected("Firmware chunk index is invalid.")
    );
    assert_eq!(
        sole(&mut gate, "fw-1/chunk/x", &first),
        rejected("Firmware chunk index is invalid.")
    );
    assert_eq!(
        sole(&mut gate, "fw-1/chunk/0/0", &first),
        rejected("Firmware chunk key or payload is invalid.")
    );
    assert_eq!(
        sole(&mut gate, "fw-1/chunk/0", &vec![0; 65_536 + 4097]),
        rejected("Firmware chunk key or payload is invalid.")
    );
    assert_eq!(
        sole(&mut gate, "fw-1/chunk/0", &[255; 12]),
        rejected("Firmware chunk payload is not a valid Synapse FlatBuffer.")
    );
    assert_eq!(
        sole(&mut gate, "fw-1/chunk/0", &first),
        rejected("Firmware upload was not started.")
    );
    sole(&mut gate, "fw-1/start", &prepare("fw-1", &image, 1024));
    assert_eq!(
        sole(&mut gate, "fw-1/chunk/3", &first),
        rejected("Firmware chunk index is out of range.")
    );
    let mismatch = rejected("Firmware chunk metadata or SHA-256 does not match the upload.");
    assert_eq!(sole(&mut gate, "fw-1/chunk/1", &first), mismatch);
    let wrong_final = build_chunk_request_with_hash("fw-1", 0, 0, &image[..1024], true);
    assert_eq!(sole(&mut gate, "fw-1/chunk/0", &wrong_final), mismatch);
    sole(&mut gate, "fw-1/chunk/0", &first);
    let other = build_chunk_request_with_hash("fw-1", 0, 0, &[9; 1024], false);
    assert_eq!(
        sole(&mut gate, "fw-1/chunk/0", &other),
        rejected("A repeated firmware chunk changed its contents.")
    );
}

#[test]
fn commits_need_a_complete_upload_of_the_announced_digest() {
    let image = image();
    let mut gate = gate(None);
    let commit = build_commit_request("fw-1", &full_sha256(&image));
    assert_eq!(
        sole(&mut gate, "fw-1/commit", &vec![0; 2049]),
        rejected("Firmware commit payload is too large.")
    );
    assert_eq!(
        sole(&mut gate, "fw-1/commit", &[]),
        rejected("Firmware commit payload is not a valid Synapse FlatBuffer.")
    );
    assert_eq!(
        sole(&mut gate, "fw-1/commit", &commit),
        rejected("Firmware upload was not started.")
    );
    sole(&mut gate, "fw-1/start", &prepare("fw-1", &image, 2048));
    assert_eq!(
        sole(&mut gate, "fw-1/commit", &build_commit_request("fw-1", &"0".repeat(64))),
        rejected("Firmware commit identifier or SHA-256 does not match prepare.")
    );
    sole(&mut gate, "fw-1/start", &prepare("fw-1", &image, 2048));
    sole(&mut gate, "fw-1/chunk/0", &chunk("fw-1", &image, 2048, 0));
    assert_eq!(
        sole(&mut gate, "fw-1/commit", &commit),
        rejected("Firmware upload is incomplete.")
    );
    let announced = "1".repeat(64);
    let start = build_prepare_request(
        "fw-1",
        "",
        "",
        "",
        image.len(),
        &announced,
        "",
        "",
        4096,
        1,
    );
    sole(&mut gate, "fw-1/start", &start);
    sole(&mut gate, "fw-1/chunk/0", &chunk("fw-1", &image, 4096, 0));
    assert_eq!(
        sole(&mut gate, "fw-1/commit", &build_commit_request("fw-1", &announced)),
        rejected("Reconstructed firmware SHA-256 does not match prepare.")
    );
}

#[test]
fn candidates_are_validated_against_the_baseline() {
    let base = vec![0u8; 32];
    let mut gate = gate(None);
    let outcome = gate.handle_candidate(PREFIX, "fw-1", "v1", base.clone());
    assert_eq!(outcome.statuses[0].status, "validating");
    assert_eq!(
        outcome.statuses[0].message,
        "Validating candidate against the trusted baseline."
    );
    assert_eq!(outcome.statuses[1].message, "No trusted firmware baseline is configured.");
    assert!(outcome.transfer.is_none());

    let region = ParameterRegion {
        name: "attitude.rollLimit".to_string(),
        offset: 8,
        length: 8,
        minimum: Binary64 { bits: 0.0_f64.to_bits() },
        maximum: Binary64 { bits: 1.2_f64.to_bits() },
    };
    let mut configured = settings(Some(base.clone()));
    configured.policy = Some(ParameterPolicy {
        baseline_sha256: full_sha256(&base),
        target: "cubs2".to_string(),
        board_id: String::new(),
        regions: vec![region],
        manifest_json: "{\"a\":1}".to_string(),
    });
    let mut gate = FirmwareGate::from_settings("cmd/firmware".to_string(), 2500, configured);
    let mut candidate = base.clone();
    candidate[8..16].copy_from_slice(&0.5_f64.to_le_bytes());
    let plan = gate
        .handle_candidate(PREFIX, "fw-1", "v1", candidate.clone())
        .transfer
        .unwrap();
    assert_eq!(plan.trusted_manifest, "{\"a\":1}");
    assert_eq!(plan.selective_sha256, full_sha256(&[0; 24]));
    candidate[0] = 1;
    let outcome = gate.handle_candidate(PREFIX, "fw-1", "v1", candidate);
    assert!(outcome.transfer.is_none());
    let refused = outcome.refused.unwrap();
    assert_eq!(refused.outside_parameter_diffs[0].offset, 0);
    assert_eq!(refused.candidate_size, 32);
    assert_eq!(refused.reason, outcome.statuses[1].message);
    assert_eq!(outcome.statuses[1].status, "rejected");
    assert_eq!(outcome.statuses[1].phase, "validate");
    assert_eq!(
        outcome.statuses[1].message,
        "Binary changes are not limited to authorized autopilot parameters."
    );
}

#[test]
fn an_empty_candidate_is_never_transferred() {
    let mut gate = gate(Some(Vec::new()));
    let outcome = gate.handle_candidate(PREFIX, "fw-1", "v1", Vec::new());
    assert!(outcome.transfer.is_none());
    assert_eq!(outcome.statuses[1].status, "failed");
}

#[test]
fn the_first_upload_becomes_the_baseline_only_when_asked() {
    let mut configured = settings(None);
    configured.auto_bootstrap = Some("TRUE".to_string());
    let mut gate = FirmwareGate::from_settings("cmd/firmware".to_string(), 2500, configured);
    let outcome = gate.handle_candidate(PREFIX, "fw-1", "v1", vec![1, 2, 3]);
    assert!(outcome.transfer.is_none());
    assert_eq!(outcome.statuses[1].status, "complete");
    assert_eq!(outcome.statuses[1].percent, 100);
    assert_eq!(gate.baseline, Some(vec![1, 2, 3]));
    assert!(gate.handle_candidate(PREFIX, "fw-2", "v1", vec![1, 2, 3]).transfer.is_some());

    let mut configured = settings(Some(vec![1]));
    configured.auto_bootstrap = Some("true".to_string());
    let gate = FirmwareGate::from_settings("cmd/firmware".to_string(), 2500, configured);
    assert!(!gate.auto_bootstrap);
}

#[test]
fn decoded_messages_are_judged_by_their_values() {
    let mut gate = gate(None);
    let start = FirmwarePrepareUpload {
        update_id: "fw-1".to_string(),
        version: String::new(),
        image_size: 1500,
        image_sha256: "AB".repeat(32),
        requested_chunk_size: 1024,
        chunk_count: 2,
    };
    let status = gate.start_decoded(PREFIX, "fw-1", 100, Some(start));
    assert_eq!(status.status, "in_progress");
    let part = FirmwareChunkUpload {
        update_id: "fw-1".to_string(),
        chunk_index: 1,
        offset: 1024,
        data: vec![3; 476],
        chunk_sha256: "CD".repeat(32),
        final_chunk: true,
    };
    let place = ["+1".to_string()];
    let status = gate.chunk_decoded(PREFIX, "fw-1", &place, 9, Some(part), &"cd".repeat(32));
    assert_eq!(status.message, "Received 476/1500 browser bytes.");
    let ending = FirmwareCommitUpload {
        update_id: "fw-1".to_string(),
        image_sha256: "ab".repeat(32),
    };
    let refused = gate.commit_decoded(PREFIX, "fw-1", 9, Some(ending)).unwrap_err();
    assert_eq!(refused.message, "Firmware upload is incomplete.");
    assert_eq!(check_digest("ab", "AB"), None);
    assert_eq!(
        check_digest("ab", "ac"),
        Some("Reconstructed firmware SHA-256 does not match prepare.")
    );
}

#[test]
fn settings_are_read_and_bounded() {
    let set = |text: &str| Some(text.to_string());
    assert!(env_bool(&set("1")) && env_bool(&set("True")));
    assert!(!env_bool(&set("yes")) && !env_bool(&None));
    assert_eq!(env_u32(&set("7"), 3), 7);
    assert_eq!(env_u32(&set("4294967296"), 3), 3);
    assert_eq!(env_u64(&set("-1"), 9), 9);
    assert_eq!(env_u64(&set("18446744073709551615"), 9), u64::MAX);
    assert_eq!(env_usize(&set("5"), 512, 128, 4096), 128);
    assert_eq!(env_usize(&set("99999"), 512, 128, 4096), 4096);
    assert_eq!(env_usize(&None, 512, 128, 4096), 512);
    assert_eq!(chosen_path(set("  ")), None);
    assert_eq!(chosen_path(set(" a ")), set(" a "));
    assert_eq!(firmware_target(None), "cubs2");
    assert_eq!(firmware_target(set("other")), "other");

    let mut configured = settings(None);
    configured.retries = set("99");
    configured.timeout_ms = set("1");
    configured.chunk_size = set("1000");
    configured.max_image_size = set("0");
    let gate = FirmwareGate::from_settings("cmd/firmware".to_string(), 2500, configured);
    assert_eq!(gate.transfer.retries, 10);
    assert_eq!(gate.transfer.timeout_ms, 100);
    assert_eq!(gate.transfer.chunk_size, 1000);
    assert_eq!(gate.max_image_size, 1);
    assert!(!gate.auto_bootstrap);
}

#[test]
fn defaults_of_the_gate() {
    let gate = gate(None);
    assert_eq!(gate.max_image_size, 8 * 1024 * 1024);
    assert_eq!(gate.transfer.chunk_size, 512);
    assert_eq!(gate.transfer.retries, 3);
    assert_eq!(gate.transfer.timeout_ms, 2500);
    assert_eq!(gate.transfer.target, "cubs2");
    assert_eq!(gate.transfer.board_id, "");
    assert!(gate.regions.is_empty());
}

#[test]
fn statuses_are_published_as_documents() {
    let status = publish_policy_rejection(PREFIX, "fw-1", "say \"no\"").unwrap();
    assert_eq!(status.key, "gcs/v1/status/firmware/fw-1");
    let document: serde_json::Value = serde_json::from_str(&status_document(&status)).unwrap();
    assert_eq!(document.get("updateId").unwrap().as_str(), Some("fw-1"));
    assert_eq!(document.get("status").unwrap().as_str(), Some("rejected"));
    assert_eq!(document.get("phase").unwrap().as_str(), Some("upload"));
    assert_eq!(document.get("progressPct").unwrap().as_u64(), Some(0));
    assert_eq!(document.get("message").unwrap().as_str(), Some("say \"no\""));
    assert!(document.get("receivedBytes").is_none());
    assert_eq!(document_fields(&status).len(), 5);
    assert!(publish_policy_rejection(PREFIX, "../x", "no").is_none());

    let image = image();
    let mut gate = gate(None);
    let outcome = gate.handle_intent("plain", "fw-1/start", &prepare("fw-1", &image, 1024));
    assert_eq!(outcome.statuses[0].key, "plain/status/firmware/fw-1");
    let document: serde_json::Value =
        serde_json::from_str(&status_document(&outcome.statuses[0])).unwrap();
    assert_eq!(document.get("totalBytes").unwrap().as_u64(), Some(2500));
    assert!(document.get("chunkIndex").unwrap().is_null());
}

#[test]
fn transfers_are_reported_without_their_faults() {
    let progress = TransferProgress {
        phase: "complete".to_string(),
        percent: 100,
        message: "done".to_string(),
    };
    assert_eq!(progress_status(PREFIX, "fw-1", &progress).status, "complete");
    let progress = TransferProgress {
        phase: "chunk".to_string(),
        percent: 50,
        message: "half".to_string(),
    };
    let status = progress_status(PREFIX, "fw-1", &progress);
    assert_eq!(status.status, "in_progress");
    assert_eq!(status.percent, 50);
    let status = failure_status(PREFIX, "fw-1");
    assert_eq!(status.status, "failed");
    assert_eq!(status.phase, "error");
    assert_eq!(status.message, "Firmware update transfer failed.");
}

#[test]
fn a_chunk_leaves_other_uploads_alone() {
    let image = image();
    let mut gate = gate(None);
    sole(&mut gate, "fw-1/start", &prepare("fw-1", &image, 1024));
    sole(&mut gate, "fw-2/start", &prepare("fw-2", &image, 1024));
    sole(&mut gate, "fw-2/chunk/1", &chunk("fw-2", &image, 1024, 1));
    sole(&mut gate, "fw-1/chunk/0", &chunk("fw-1", &image, 1024, 0));
    let other = gate.uploads.get("fw-2").unwrap();
    assert_eq!(other.received_bytes, 1024);
    assert!(other.chunks[0].is_none() && other.chunks[1].is_some());
    let first = gate.uploads.get("fw-1").unwrap();
    assert!(first.chunks[0].is_some() && first.chunks[1].is_none());
}

#[test]
fn undecodable_payloads_are_reported_to_the_organizers() {
    let mut gate = gate(None);
    let mut fault = |suffix: &str, payload: &[u8]| {
        let outcome = gate.handle_intent(PREFIX, suffix, payload);
        assert!(outcome.refused.is_none());
        outcome.undecodable
    };
    let set = |text: &str| Some(text.to_string());
    assert_eq!(fault("fw-1/start", &[4, 0, 0, 0]), set("decode FirmwarePrepareRequest"));
    assert_eq!(fault("fw-1/start", &vec![0; 4097]), None);
    assert_eq!(fault("fw-1/chunk/0", &[255; 12]), set("decode FirmwareChunkRequest"));
    assert_eq!(fault("fw-1/chunk/x", &[255; 12]), None);
    assert_eq!(fault("fw-1/chunk/0/0", &[255; 12]), None);
    assert_eq!(fault("fw-1/commit", &[]), set("decode FirmwareCommitRequest"));
    assert_eq!(fault("fw-1/commit", &vec![0; 2049]), None);
    assert_eq!(fault("fw-1/commit", &build_commit_request("fw-1", "x")), None);
    assert_eq!(fault("../x", &[]), None);
}

#[test]
fn authorized_uploads_are_understood() {
    let mut policy = CommandPolicy::new(PolicyConfig::default(), None);
    let mut gate = gate(None);
    for (suffix, size) in [
        ("fw-1/start", 4096),
        ("fw-1/chunk/4294967295", 68 * 1024),
        ("fw-1/commit", 2048),
    ] {
        let payload = vec![255; size];
        let command =
            policy.authorize(&format!("gcs/v1/cmd/firmware/{suffix}"), &payload).unwrap();
        let (_, message) = sole(&mut gate, &command.target, &command.payload);
        assert!(message.ends_with("payload is not a valid Synapse FlatBuffer."), "{message}");
    }
}
