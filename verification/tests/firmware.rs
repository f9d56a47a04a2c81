use electrode::binary64::Binary64;
use electrode::digest::{full_sha256, hex};
use electrode::manifest::{
    bind_parameter_policy, parameter_limits, parse_parameter_policy, ManifestError,
    ParameterManifestFile, ParameterManifestRegion,
};
use electrode::parameters::{
    excise, resolve_parameter_regions, selective_sha256, validate_parameter_only_change,
    OutsideDiff, ParameterPolicy, ParameterRegion, Range,
};
use electrode::tables::{
    accept_chunk_reply, accept_code, accept_commit_reply, accept_info, accept_info_reply,
    accept_prepare_reply, accept_status_reply, build_chunk_request_with_hash,
    build_commit_request, build_info_request, build_prepare_request, build_status_request,
    chunk_upload, commit_upload, decode_firmware_chunk_upload, decode_firmware_commit_upload,
    decode_firmware_prepare_upload, prepare_upload, require_accepted, ChunkFields, CommitFields,
    PrepareFields,
};
use electrode::transfer::{
    begin_transfer, firmware_key, judge_reply, step_after, transfer_request, transfer_step,
    TransferConfig, TransferOutcome, TransferPlan, TransferStage,
};
use flatbuffers::FlatBufferBuilder;
use synapse_fbs::cmd::{
    FirmwareChunkReply, FirmwareChunkReplyArgs, FirmwareCommitReply, FirmwareCommitReplyArgs,
    FirmwareInfoReply, FirmwareInfoReplyArgs, FirmwareInfoRequest, FirmwarePrepareReply,
    FirmwarePrepareReplyArgs, FirmwarePrepareRequest, FirmwareStatusReply,
    FirmwareStatusReplyArgs, FirmwareStatusRequest,
};
use synapse_fbs::types::CommandResultCode;

fn number(value: f64) -> Binary64 {
    Binary64 { bits: value.to_bits() }
}

fn test_baseline() -> Vec<u8> {
    let mut baseline = vec![0u8; 128];
    for (index, value) in [4.25_f64, 4.0, 0.5, 0.5, 0.0, 0.5].into_iter().enumerate() {
        baseline[16 + index * 8..24 + index * 8].copy_from_slice(&value.to_le_bytes());
    }
    baseline
}

fn test_manifest(baseline: &[u8]) -> String {
    format!(
        r#"{{
                "schema":"electrode.autopilot-parameter-policy.v1",
                "target":"cubs2",
                "boardId":"mr_vmu_tropic",
                "baselineSha256":"{}",
                "parameters":[
                    {{"name":"route.crossTrackSteeringDistance","offset":16,"encoding":"float64-le","minimum":0.25,"maximum":50.0}},
                    {{"name":"route.waypointSwitchingDistance","offset":24,"encoding":"float64-le","minimum":0.1,"maximum":50.0}},
                    {{"name":"attitude.rollLimit","offset":32,"encoding":"float64-le","minimum":0.05,"maximum":1.2}},
                    {{"name":"attitude.headingPid.kp","offset":40,"encoding":"float64-le","minimum":0.0,"maximum":10.0}},
                    {{"name":"attitude.headingPid.ki","offset":48,"encoding":"float64-le","minimum":0.0,"maximum":10.0}},
                    {{"name":"attitude.headingPid.kd","offset":56,"encoding":"float64-le","minimum":0.0,"maximum":10.0}}
                ]
            }}"#,
        full_sha256(baseline)
    )
}

fn roll_only_manifest(baseline: &[u8]) -> String {
    format!(
        r#"{{
                "schema":"electrode.autopilot-parameter-policy.v1",
                "target":"cubs2",
                "boardId":"mr_vmu_tropic",
                "baselineSha256":"{}",
                "parameters":[
                    {{"name":"attitude.rollLimit","offset":32,"encoding":"float64-le","minimum":0.05,"maximum":1.2}}
                ]
            }}"#,
        full_sha256(baseline)
    )
}

fn text(value: &serde_json::Value, name: &str) -> String {
    value.get(name).and_then(|field| field.as_str()).unwrap().to_string()
}

/// The values of a manifest document.
fn read_manifest(json: &str) -> ParameterManifestFile {
    let value: serde_json::Value = serde_json::from_str(json).unwrap();
    let parameters = value
        .get("parameters")
        .and_then(|list| list.as_array())
        .unwrap()
        .iter()
        .map(|parameter| ParameterManifestRegion {
            name: text(parameter, "name"),
            offset: parameter.get("offset").and_then(|offset| offset.as_u64()).unwrap(),
            encoding: text(parameter, "encoding"),
            minimum: number(parameter.get("minimum").and_then(|limit| limit.as_f64()).unwrap()),
            maximum: number(parameter.get("maximum").and_then(|limit| limit.as_f64()).unwrap()),
        })
        .collect();
    ParameterManifestFile {
        schema: text(&value, "schema"),
        target: text(&value, "target"),
        board_id: text(&value, "boardId"),
        baseline_sha256: text(&value, "baselineSha256"),
        parameters,
    }
}

fn parse(
    json: &str,
    baseline: &[u8],
    target: &str,
    board_id: &str,
) -> Result<ParameterPolicy, ManifestError> {
    parse_parameter_policy(json, read_manifest(json), baseline, target, board_id)
}

fn test_policy(baseline: &[u8]) -> ParameterPolicy {
    parse(&test_manifest(baseline), baseline, "cubs2", "mr_vmu_tropic").unwrap()
}

fn region(name: &str, offset: usize, length: usize) -> ParameterRegion {
    ParameterRegion {
        name: name.to_string(),
        offset,
        length,
        minimum: number(0.0),
        maximum: number(10.0),
    }
}

#[test]
fn identical_is_allowed() {
    let base = test_baseline();
    let policy = test_policy(&base);
    let result = validate_parameter_only_change(&base, &base, &policy.regions);
    assert!(result.allowed);
    assert_eq!(result.differing_byte_count, 0);
}

#[test]
fn parameter_only_change_is_allowed() {
    let base = test_baseline();
    let policy = test_policy(&base);
    let mut candidate = base.clone();
    candidate[16..24].copy_from_slice(&5.0f64.to_le_bytes());
    let result = validate_parameter_only_change(&candidate, &base, &policy.regions);
    assert!(result.allowed);
    assert!(result.differing_byte_count > 0);
    assert_eq!(
        result.differing_byte_count,
        result.parameter_differing_byte_count
    );
    assert_eq!(result.reason, "Only authorized autopilot parameter values changed.");
    assert_eq!(result.baseline_size, 128);
    assert_eq!(result.candidate_size, 128);
}

#[test]
fn one_outside_change_rejects_the_whole_binary() {
    let base = test_baseline();
    let policy = test_policy(&base);
    let mut candidate = base.clone();
    candidate[16..24].copy_from_slice(&5.0f64.to_le_bytes());
    candidate[80] ^= 1;
    let result = validate_parameter_only_change(&candidate, &base, &policy.regions);
    assert!(!result.allowed);
    assert_eq!(result.outside_parameter_diffs.len(), 1);
    assert_eq!(result.outside_parameter_diffs[0].offset, 80);
}

#[test]
fn length_change_is_an_outside_parameter_change() {
    let base = test_baseline();
    let policy = test_policy(&base);
    let result = validate_parameter_only_change(&base[..63], &base, &policy.regions);
    assert!(!result.allowed);
    assert_eq!(result.outside_parameter_diffs[0].offset, 63);
    assert_eq!(result.outside_parameter_diffs[0].candidate, None);
}

#[test]
fn appended_bytes_are_outside_parameter_changes() {
    let base = test_baseline();
    let policy = test_policy(&base);
    let mut candidate = base.clone();
    candidate.extend_from_slice(&[0u8; 4]);
    let result = validate_parameter_only_change(&candidate, &base, &policy.regions);
    assert!(!result.allowed);
    assert_eq!(result.differing_byte_count, 4);
    assert_eq!(result.outside_parameter_diffs[0].offset, 128);
    assert_eq!(result.outside_parameter_diffs[0].baseline, None);
    assert_eq!(result.outside_parameter_diffs[0].candidate, Some(0));
}

#[test]
fn nonfinite_and_out_of_range_parameter_values_are_rejected() {
    let base = test_baseline();
    let policy = test_policy(&base);
    let mut candidate = base.clone();
    candidate[16..24].copy_from_slice(&f64::NAN.to_le_bytes());
    let result = validate_parameter_only_change(&candidate, &base, &policy.regions);
    assert!(!result.allowed);
    assert_eq!(
        result.invalid_parameters,
        ["route.crossTrackSteeringDistance"]
    );
    assert_eq!(result.reason, "One or more autopilot parameter values are invalid.");

    candidate[16..24].copy_from_slice(&100.0f64.to_le_bytes());
    let result = validate_parameter_only_change(&candidate, &base, &policy.regions);
    assert!(!result.allowed);
}

#[test]
fn selective_hash_is_stable_across_parameter_change() {
    let base = test_baseline();
    let policy = test_policy(&base);
    let mut candidate = base.clone();
    candidate[16..24].copy_from_slice(&5.0f64.to_le_bytes());
    assert_ne!(full_sha256(&base), full_sha256(&candidate));
    assert_eq!(
        selective_sha256(&base, &policy.regions),
        selective_sha256(&candidate, &policy.regions)
    );
}

#[test]
fn selective_hash_is_stable_under_nested_regions() {
    let base = vec![0u8; 32];
    let regions = [region("outer", 0, 24), region("inner", 8, 8)];
    let mut candidate = base.clone();
    candidate[16..24].copy_from_slice(&[7; 8]);
    assert!(validate_parameter_only_change(&candidate, &base, &regions).allowed);
    assert_eq!(
        selective_sha256(&base, &regions),
        selective_sha256(&candidate, &regions)
    );
    assert_eq!(excise(&candidate, &regions), vec![0; 8]);
}

#[test]
fn manifest_is_bound_to_baseline_names_and_ranges() {
    let base = test_baseline();
    let manifest = test_manifest(&base);
    assert!(parse(&manifest, &base, "cubs2", "mr_vmu_tropic").is_ok());
    assert!(parse(&manifest, &[1u8; 128], "cubs2", "mr_vmu_tropic").is_err());
    assert!(parse(
        &manifest.replace("50.0", "500.0"),
        &base,
        "cubs2",
        "mr_vmu_tropic"
    )
    .is_err());
    assert!(parse(&manifest, &base, "other", "mr_vmu_tropic").is_err());
}

#[test]
fn manifest_may_authorize_a_known_nonempty_subset() {
    let base = test_baseline();
    let policy = parse(&roll_only_manifest(&base), &base, "cubs2", "mr_vmu_tropic").unwrap();
    assert_eq!(policy.regions.len(), 1);
    assert_eq!(policy.regions[0].name, "attitude.rollLimit");

    let empty = roll_only_manifest(&base).replace(
        r#"{"name":"attitude.rollLimit","offset":32,"encoding":"float64-le","minimum":0.05,"maximum":1.2}"#,
        "",
    );
    assert!(parse(&empty, &base, "cubs2", "mr_vmu_tropic").is_err());
}

#[test]
fn firmware_upload_tables_round_trip_through_schema_layout() {
    let prepare = build_prepare_request(
        "update-1",
        "",
        "",
        "candidate.bin",
        1025,
        &"a".repeat(64),
        "",
        "{}",
        512,
        3,
    );
    let decoded_prepare = decode_firmware_prepare_upload(&prepare).unwrap();
    assert_eq!(decoded_prepare.update_id, "update-1");
    assert_eq!(decoded_prepare.version, "candidate.bin");
    assert_eq!(decoded_prepare.image_size, 1025);
    assert_eq!(decoded_prepare.image_sha256, "a".repeat(64));
    assert_eq!(decoded_prepare.requested_chunk_size, 512);
    assert_eq!(decoded_prepare.chunk_count, 3);

    let data = b"typed firmware chunk";
    let chunk = build_chunk_request_with_hash("update-1", 2, 1024, data, true);
    let decoded_chunk = decode_firmware_chunk_upload(&chunk).unwrap();
    assert_eq!(decoded_chunk.update_id, "update-1");
    assert_eq!(decoded_chunk.chunk_index, 2);
    assert_eq!(decoded_chunk.offset, 1024);
    assert_eq!(decoded_chunk.data, data);
    assert_eq!(decoded_chunk.chunk_sha256, full_sha256(data));
    assert!(decoded_chunk.final_chunk);

    let commit = build_commit_request("update-1", &"b".repeat(64));
    let decoded_commit = decode_firmware_commit_upload(&commit).unwrap();
    assert_eq!(decoded_commit.update_id, "update-1");
    assert_eq!(decoded_commit.image_sha256, "b".repeat(64));
}

#[test]
fn malformed_firmware_upload_table_is_rejected() {
    assert!(decode_firmware_prepare_upload(&[4, 0, 0, 0]).is_err());
    assert!(decode_firmware_chunk_upload(&[255; 12]).is_err());
    assert!(decode_firmware_commit_upload(&[]).is_err());
}

#[test]
fn firmware_service_keys_use_canonical_schema_names() {
    assert_eq!(
        firmware_key("cmd/firmware", "prepare"),
        "cmd/firmware_prepare"
    );
}

#[test]
fn firmware_keys_drop_trailing_slashes() {
    assert_eq!(firmware_key("cub1/cmd/firmware//", "abort"), "cub1/cmd/firmware_abort");
    assert_eq!(firmware_key("", "info"), "_info");
}

#[test]
fn digests_are_written_in_small_hexadecimal() {
    assert_eq!(hex(&[0x00, 0x0f, 0xa5, 0xff]), "000fa5ff");
    assert_eq!(hex(&[]), "");
    assert_eq!(
        full_sha256(b"abc"),
        "ba7816bf8f01cfea414140de5dae2223b00361a396177a9cb410ff61f20015ad"
    );
    assert_eq!(
        full_sha256(b""),
        "e3b0c44298fc1c149afbf4c8996fb92427ae41e4649b934ca495991b7852b855"
    );
}

#[test]
fn regions_are_resolved_by_their_start() {
    let regions = [
        region("late", 20, 8),
        region("empty", 4, 0),
        region("early", 2, 4),
        region("outside", 30, 3),
        region("overflow", usize::MAX, 8),
        region("tie", 20, 2),
    ];
    assert_eq!(
        resolve_parameter_regions(32, &regions),
        vec![
            Range { start: 2, end: 6 },
            Range { start: 20, end: 28 },
            Range { start: 20, end: 22 },
        ]
    );
}

#[test]
fn bytes_of_regions_are_left_out_of_the_selective_digest() {
    let buffer: Vec<u8> = (0..10).collect();
    let regions = [region("b", 7, 2), region("a", 1, 3)];
    assert_eq!(excise(&buffer, &regions), vec![0, 4, 5, 6, 9]);
    assert_eq!(
        selective_sha256(&buffer, &regions),
        full_sha256(&[0, 4, 5, 6, 9])
    );
    assert_eq!(selective_sha256(&buffer, &[]), full_sha256(&buffer));
    let nested = [region("a", 0, 10), region("b", 2, 2)];
    assert_eq!(excise(&buffer, &nested), Vec::<u8>::new());
    let overlapping = [region("a", 1, 5), region("b", 2, 2), region("c", 4, 4)];
    assert_eq!(excise(&buffer, &overlapping), vec![0, 8, 9]);
    let covered = [region("a", 0, 16), region("b", 4, 4)];
    assert_eq!(
        selective_sha256(&[1u8; 16], &covered),
        "e3b0c44298fc1c149afbf4c8996fb92427ae41e4649b934ca495991b7852b855"
    );
}

#[test]
fn without_regions_only_an_identical_image_passes() {
    let base = test_baseline();
    assert!(validate_parameter_only_change(&base, &base, &[]).allowed);
    let mut candidate = base.clone();
    candidate[16] ^= 1;
    let result = validate_parameter_only_change(&candidate, &base, &[]);
    assert!(!result.allowed);
    assert_eq!(
        result.reason,
        "Binary changes are not limited to authorized autopilot parameters."
    );
    assert_eq!(
        result.outside_parameter_diffs,
        vec![OutsideDiff {
            offset: 16,
            baseline: Some(base[16]),
            candidate: Some(base[16] ^ 1),
        }]
    );
}

#[test]
fn at_most_sixteen_differences_are_listed() {
    let result = validate_parameter_only_change(&[1u8; 40], &[0u8; 40], &[]);
    assert_eq!(result.differing_byte_count, 40);
    assert_eq!(result.parameter_differing_byte_count, 0);
    assert_eq!(result.outside_parameter_diffs.len(), 16);
    assert_eq!(result.outside_parameter_diffs[15].offset, 15);
}

#[test]
fn parameters_that_do_not_fit_are_invalid() {
    let base = [0u8; 16];
    let regions = [region("cut", 12, 8), region("far", usize::MAX, 8)];
    let result = validate_parameter_only_change(&base, &base, &regions);
    assert!(!result.allowed);
    assert_eq!(result.invalid_parameters, ["cut", "far"]);
}

#[test]
fn limits_of_known_parameters() {
    assert_eq!(
        parameter_limits("attitude.rollLimit"),
        Some((number(0.05), number(1.2)))
    );
    assert_eq!(
        parameter_limits("route.waypointSwitchingDistance"),
        Some((number(0.1), number(50.0)))
    );
    assert_eq!(
        parameter_limits("route.crossTrackSteeringDistance"),
        Some((number(0.25), number(50.0)))
    );
    assert_eq!(
        parameter_limits("attitude.headingPid.ki"),
        Some((number(0.0), number(10.0)))
    );
    assert_eq!(parameter_limits("velocity.setpoint"), None);
}

#[test]
fn each_manifest_error_has_its_cause() {
    let base = test_baseline();
    let json = roll_only_manifest(&base);
    let refused = |edit: &dyn Fn(&mut ParameterManifestFile)| {
        let mut manifest = read_manifest(&json);
        edit(&mut manifest);
        parse_parameter_policy(&json, manifest, &base, "cubs2", "mr_vmu_tropic")
            .unwrap_err()
            .message()
    };
    assert_eq!(
        refused(&|m| m.schema.push('x')),
        "unsupported autopilot parameter manifest schema"
    );
    assert_eq!(
        refused(&|m| m.target.push('x')),
        "autopilot parameter manifest target mismatch"
    );
    assert_eq!(
        refused(&|m| m.board_id.push('x')),
        "autopilot parameter manifest board mismatch"
    );
    assert_eq!(
        refused(&|m| m.baseline_sha256 = m.baseline_sha256.to_uppercase()),
        "autopilot parameter manifest baseline hash mismatch"
    );
    assert_eq!(
        refused(&|m| m.parameters.clear()),
        "autopilot parameter manifest must contain one to six parameters"
    );
    assert_eq!(
        refused(&|m| m.parameters[0].name = "velocity.setpoint".to_string()),
        "unknown autopilot parameter velocity.setpoint"
    );
    assert_eq!(
        refused(&|m| {
            let again = ParameterManifestRegion {
                name: "attitude.rollLimit".to_string(),
                offset: 40,
                encoding: "float64-le".to_string(),
                minimum: number(0.05),
                maximum: number(1.2),
            };
            m.parameters.push(again);
        }),
        "duplicate autopilot parameter attitude.rollLimit"
    );
    assert_eq!(
        refused(&|m| m.parameters[0].encoding = "float32-le".to_string()),
        "autopilot parameter metadata mismatch for attitude.rollLimit"
    );
    assert_eq!(
        refused(&|m| m.parameters[0].offset = u64::MAX),
        "autopilot parameter offset overflow"
    );
    assert_eq!(
        refused(&|m| m.parameters[0].offset = 121),
        "autopilot parameter offset is outside the baseline"
    );
    assert_eq!(
        refused(&|m| m.parameters[0].offset = 64),
        "baseline autopilot parameter value is invalid"
    );
    assert_eq!(
        refused(&|m| {
            let next = ParameterManifestRegion {
                name: "attitude.headingPid.kp".to_string(),
                offset: 32,
                encoding: "float64-le".to_string(),
                minimum: number(0.0),
                maximum: number(10.0),
            };
            m.parameters.push(next);
        }),
        "autopilot parameter regions overlap"
    );
    let broken = parse_parameter_policy("{", read_manifest(&json), &base, "cubs2", "");
    assert!(matches!(broken, Err(ManifestError::NotCanonical)));
}

#[test]
fn manifests_are_kept_in_compact_form() {
    let base = test_baseline();
    let json = roll_only_manifest(&base);
    let policy = parse(&json, &base, "cubs2", "").unwrap();
    assert!(!policy.manifest_json.contains('\n'));
    let before: serde_json::Value = serde_json::from_str(&json).unwrap();
    let after: serde_json::Value = serde_json::from_str(&policy.manifest_json).unwrap();
    assert_eq!(before, after);
    assert_eq!(policy.board_id, "mr_vmu_tropic");
    assert_eq!(policy.baseline_sha256, full_sha256(&base));
}

#[test]
fn policies_bind_to_the_digest_they_are_given() {
    let base = test_baseline();
    let mut manifest = read_manifest(&roll_only_manifest(&base));
    manifest.baseline_sha256 = "digest".to_string();
    let policy = bind_parameter_policy(
        Some("{}".to_string()),
        manifest,
        &base,
        "digest",
        "cubs2",
        "mr_vmu_tropic",
    )
    .unwrap();
    assert_eq!(policy.regions[0].offset, 32);
    assert_eq!(policy.regions[0].length, 8);
    assert_eq!(policy.manifest_json, "{}");
}

#[test]
fn absent_fields_of_uploads_are_empty() {
    let prepare = prepare_upload(Some(PrepareFields {
        update_id: None,
        version: Some("v1".to_string()),
        image_size: 7,
        image_sha256: None,
        requested_chunk_size: 3,
        chunk_count: 2,
    }))
    .unwrap();
    assert_eq!(prepare.update_id, "");
    assert_eq!(prepare.version, "v1");
    let chunk = chunk_upload(Some(ChunkFields {
        update_id: None,
        chunk_index: 1,
        offset: 2,
        data: None,
        chunk_sha256: None,
        final_chunk: true,
    }))
    .unwrap();
    assert!(chunk.data.is_empty());
    let commit = commit_upload(Some(CommitFields { update_id: None, image_sha256: None })).unwrap();
    assert_eq!(commit.image_sha256, "");
    assert_eq!(prepare_upload(None).unwrap_err().message, "decode FirmwarePrepareRequest");
    assert_eq!(chunk_upload(None).unwrap_err().message, "decode FirmwareChunkRequest");
    assert_eq!(commit_upload(None).unwrap_err().message, "decode FirmwareCommitRequest");
}

#[test]
fn requests_hold_what_they_are_given() {
    let info = build_info_request("cubs2");
    let table = flatbuffers::root::<FirmwareInfoRequest<'_>>(&info).unwrap();
    assert_eq!(table.target(), Some("cubs2"));
    let status = build_status_request("update-7");
    let table = flatbuffers::root::<FirmwareStatusRequest<'_>>(&status).unwrap();
    assert_eq!(table.update_id(), Some("update-7"));
    let prepare = build_prepare_request("u", "t", "b", "v", 5, "i", "s", "m", 2, 3);
    let table = flatbuffers::root::<FirmwarePrepareRequest<'_>>(&prepare).unwrap();
    assert_eq!(table.target(), Some("t"));
    assert_eq!(table.board_id(), Some("b"));
    assert_eq!(table.selective_sha256(), Some("s"));
    assert_eq!(table.manifest(), Some("m"));
    assert!(table.signature().is_none());
}

fn info_reply(result: CommandResultCode, max_chunk_size: u32) -> Vec<u8> {
    let mut builder = FlatBufferBuilder::new();
    let args = FirmwareInfoReplyArgs { result, max_chunk_size, ..Default::default() };
    let table = FirmwareInfoReply::create(&mut builder, &args);
    builder.finish(table, None);
    builder.finished_data().to_vec()
}

fn prepare_reply(result: CommandResultCode) -> Vec<u8> {
    let mut builder = FlatBufferBuilder::new();
    let args = FirmwarePrepareReplyArgs { result, ..Default::default() };
    let table = FirmwarePrepareReply::create(&mut builder, &args);
    builder.finish(table, None);
    builder.finished_data().to_vec()
}

fn chunk_reply(result: CommandResultCode) -> Vec<u8> {
    let mut builder = FlatBufferBuilder::new();
    let args = FirmwareChunkReplyArgs { result, ..Default::default() };
    let table = FirmwareChunkReply::create(&mut builder, &args);
    builder.finish(table, None);
    builder.finished_data().to_vec()
}

fn commit_reply(result: CommandResultCode) -> Vec<u8> {
    let mut builder = FlatBufferBuilder::new();
    let args = FirmwareCommitReplyArgs { result, ..Default::default() };
    let table = FirmwareCommitReply::create(&mut builder, &args);
    builder.finish(table, None);
    builder.finished_data().to_vec()
}

fn status_reply(result: CommandResultCode) -> Vec<u8> {
    let mut builder = FlatBufferBuilder::new();
    let args = FirmwareStatusReplyArgs { result, ..Default::default() };
    let table = FirmwareStatusReply::create(&mut builder, &args);
    builder.finish(table, None);
    builder.finished_data().to_vec()
}

#[test]
fn accepted_and_running_operations_go_on() {
    assert!(require_accepted(0, "info").is_ok());
    assert!(require_accepted(5, "info").is_ok());
    assert_eq!(
        require_accepted(2, "commit").unwrap_err().message,
        "commit rejected with firmware result code Denied"
    );
    assert_eq!(
        require_accepted(77, "chunk 3").unwrap_err().message,
        "chunk 3 rejected with firmware result code <UNKNOWN 77>"
    );
    assert_eq!(accept_info(Some((5, 900))).unwrap(), 900);
    assert_eq!(
        accept_code(None, "FirmwareChunkReply", "chunk 0").unwrap_err().message,
        "decode FirmwareChunkReply"
    );
}

#[test]
fn replies_are_read_by_their_tables() {
    assert_eq!(accept_info_reply(&info_reply(CommandResultCode::Accepted, 256)).unwrap(), 256);
    assert_eq!(
        accept_info_reply(&info_reply(CommandResultCode::Failed, 256)).unwrap_err().message,
        "info rejected with firmware result code Failed"
    );
    assert_eq!(accept_info_reply(&[]).unwrap_err().message, "decode FirmwareInfoReply");
    assert!(accept_prepare_reply(&prepare_reply(CommandResultCode::InProgress)).is_ok());
    assert_eq!(
        accept_prepare_reply(&prepare_reply(CommandResultCode::Denied)).unwrap_err().message,
        "prepare rejected with firmware result code Denied"
    );
    assert!(accept_chunk_reply(&chunk_reply(CommandResultCode::Accepted), "chunk 4").is_ok());
    assert_eq!(
        accept_chunk_reply(&chunk_reply(CommandResultCode::Cancelled), "chunk 4")
            .unwrap_err()
            .message,
        "chunk 4 rejected with firmware result code Cancelled"
    );
    assert!(accept_commit_reply(&commit_reply(CommandResultCode::Accepted)).is_ok());
    assert_eq!(
        accept_commit_reply(&commit_reply(CommandResultCode::Unsupported)).unwrap_err().message,
        "commit rejected with firmware result code Unsupported"
    );
    assert!(accept_status_reply(&status_reply(CommandResultCode::Accepted)).is_ok());
    assert_eq!(
        accept_status_reply(&status_reply(CommandResultCode::TemporarilyRejected))
            .unwrap_err()
            .message,
        "status rejected with firmware result code TemporarilyRejected"
    );
}

fn transfer_config() -> TransferConfig {
    TransferConfig {
        key_prefix: "cmd/firmware".to_string(),
        target: "cubs2".to_string(),
        board_id: "mr_vmu_tropic".to_string(),
        chunk_size: 512,
        retries: 2,
        timeout_ms: 1000,
    }
}

fn plan_for(image: &[u8]) -> TransferPlan {
    let (plan, progress) =
        begin_transfer(&transfer_config(), "update-1", "v1", image, &[], "{}").unwrap();
    assert_eq!(progress.phase, "connect");
    assert_eq!(progress.percent, 0);
    assert_eq!(progress.message, "Checking firmware update service.");
    plan
}

#[test]
fn an_empty_image_is_not_transferred() {
    let error = begin_transfer(&transfer_config(), "u", "v", &[], &[], "").unwrap_err();
    assert_eq!(error.message, "firmware image is empty");
}

#[test]
fn a_transfer_sends_every_chunk_and_completes() {
    let image: Vec<u8> = (0..700u32).map(|value| (value % 251) as u8).collect();
    let plan = plan_for(&image);
    let mut stage = TransferStage::Info;
    let mut sent = Vec::new();
    let mut keys = Vec::new();
    let mut percents = Vec::new();
    let result = loop {
        let request = transfer_request(&plan, stage);
        keys.push(request.key.clone());
        let reply = match stage {
            TransferStage::Info => info_reply(CommandResultCode::Accepted, 256),
            TransferStage::Prepare { chunk_size } => {
                let prepare = decode_firmware_prepare_upload(&request.payload).unwrap();
                assert_eq!(chunk_size, 256);
                assert_eq!(prepare.image_size, 700);
                assert_eq!(prepare.chunk_count, 3);
                assert_eq!(prepare.requested_chunk_size, 256);
                assert_eq!(prepare.image_sha256, full_sha256(&image));
                prepare_reply(CommandResultCode::Accepted)
            }
            TransferStage::Chunk { index, .. } => {
                let chunk = decode_firmware_chunk_upload(&request.payload).unwrap();
                assert_eq!(chunk.chunk_index as usize, index);
                assert_eq!(chunk.offset as usize, sent.len());
                assert_eq!(chunk.final_chunk, index == 2);
                assert_eq!(chunk.chunk_sha256, full_sha256(&chunk.data));
                sent.extend_from_slice(&chunk.data);
                chunk_reply(CommandResultCode::Accepted)
            }
            TransferStage::Commit { .. } => {
                let commit = decode_firmware_commit_upload(&request.payload).unwrap();
                assert_eq!(commit.image_sha256, full_sha256(&image));
                commit_reply(CommandResultCode::Accepted)
            }
            TransferStage::Status { .. } => status_reply(CommandResultCode::Accepted),
        };
        let step = transfer_step(&plan, stage, Ok(reply));
        percents.extend(step.progress.iter().map(|report| report.percent));
        match step.outcome {
            TransferOutcome::Next(next) => stage = next,
            TransferOutcome::Complete(result) => break result,
            TransferOutcome::Failed(error) => panic!("{}", error.message),
        }
    };
    assert_eq!(sent, image);
    assert_eq!(
        keys,
        [
            "cmd/firmware_info",
            "cmd/firmware_prepare",
            "cmd/firmware_chunk",
            "cmd/firmware_chunk",
            "cmd/firmware_chunk",
            "cmd/firmware_commit",
            "cmd/firmware_status",
        ]
    );
    assert_eq!(percents, [5, 33, 61, 90, 92, 96, 100]);
    assert_eq!(result.image_sha256, full_sha256(&image));
    assert_eq!(result.chunk_count, 3);
}

#[test]
fn a_refused_chunk_is_sent_again_and_then_given_up() {
    let plan = plan_for(&[7; 300]);
    let first = TransferStage::Chunk { chunk_size: 512, index: 0, attempt: 1 };
    let step = transfer_step(&plan, first, Err("no reply".to_string()));
    let second = TransferStage::Chunk { chunk_size: 512, index: 0, attempt: 2 };
    assert_eq!(step.outcome, TransferOutcome::Next(second));
    let step = transfer_step(&plan, second, Ok(chunk_reply(CommandResultCode::Failed)));
    match step.outcome {
        TransferOutcome::Failed(error) => assert_eq!(
            error.message,
            "chunk 0 failed"
        ),
        other => panic!("{other:?}"),
    }
    let step = transfer_step(&plan, TransferStage::Info, Err("no reply".to_string()));
    match step.outcome {
        TransferOutcome::Failed(error) => assert_eq!(error.message, "no reply"),
        other => panic!("{other:?}"),
    }
}

#[test]
fn chunk_sizes_suit_the_receiver() {
    let plan = plan_for(&[7; 300]);
    let agreed = |limit: u32| match step_after(&plan, TransferStage::Info, Ok(limit)).outcome {
        TransferOutcome::Next(TransferStage::Prepare { chunk_size }) => chunk_size,
        other => panic!("{other:?}"),
    };
    assert_eq!(agreed(0), 512);
    assert_eq!(agreed(4096), 512);
    assert_eq!(agreed(200), 200);
    assert_eq!(agreed(64), 128);
}

#[test]
fn progress_messages_count_chunks() {
    let plan = plan_for(&[7; 1300]);
    let stage = TransferStage::Chunk { chunk_size: 512, index: 1, attempt: 1 };
    let step = step_after(&plan, stage, Ok(0));
    assert_eq!(step.progress.len(), 1);
    assert_eq!(step.progress[0].phase, "chunk");
    assert_eq!(step.progress[0].percent, 61);
    assert_eq!(step.progress[0].message, "Chunk 2/3 accepted.");
    assert_eq!(judge_reply(stage, &Ok(chunk_reply(CommandResultCode::Accepted))).unwrap(), 0);
}
