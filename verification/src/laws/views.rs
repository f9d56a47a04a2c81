//! Views: what contracts speak of is what the values hold, field by field.

use crate::autopilot::AutopilotRunStatus;
use crate::bridge::ZenohConfig;
use crate::control::{Control, VehicleRuntime, Wish};
use crate::devices::{device_views, Device};
use crate::discovery::{topic_views, TopicStat};
use crate::gate::{ending_view, part_view, start_view, upload_views};
use crate::json::{field_views, optional_views, Json, JsonField, JsonValue};
use crate::requests::{ParameterFields, TrajectoryFields};
use crate::session::{setting_views, SessionSetting};
use crate::settings::setting;
use crate::simulation::SimulationProfile;
use crate::status::{status_views, FirmwareStatus};
use crate::tables::{
    optional_view, FirmwareChunkUpload, FirmwareCommitUpload, FirmwarePrepareUpload,
};
use crate::text::views;
use crate::transfer::{reply_view, reports, TransferProgress};
use crate::upload::{chunk_view, FirmwareUpload};
use vstd::prelude::*;

verus! {

/// The fields of a simulation profile.
pub proof fn lemma_profile_fields(profile: SimulationProfile)
    ensures
        profile@.backend == profile.backend,
        profile@.mode == profile.mode,
        profile@.vehicle_kind == profile.vehicle_kind,
        profile@.project_path == profile.project_path@,
        profile@.generated_config_path == profile.generated_config_path@,
        profile@.model_path == profile.model_path@,
        profile@.model_editable == profile.model_editable,
        profile@.modelica_lsp_command == profile.modelica_lsp_command@,
        profile@.timing_mode == profile.timing_mode@,
        profile@.simulation_dt == profile.simulation_dt,
        profile@.lockstep_send_rate_hz == profile.lockstep_send_rate_hz,
        profile@.lockstep_receive_rate_hz == profile.lockstep_receive_rate_hz,
        profile@.lockstep_max_step_dt == profile.lockstep_max_step_dt,
        profile@.zenoh_connect == profile.zenoh_connect@,
        profile@.command_input_topic == profile.command_input_topic@,
        profile@.actuator_output_topic == profile.actuator_output_topic@,
        profile@.sensor_output_topic == profile.sensor_output_topic@,
        profile@.telemetry_output_topic == profile.telemetry_output_topic@,
{
}

/// The fields of statuses, and of the messages that a browser uploads an image with.
pub proof fn lemma_upload_fields(
    status: FirmwareStatus,
    start: FirmwarePrepareUpload,
    chunk: FirmwareChunkUpload,
    end: FirmwareCommitUpload,
    upload: FirmwareUpload,
)
    ensures
        status@.key == status.key@,
        status@.update_id == status.update_id@,
        status@.status == status.status@,
        status@.phase == status.phase@,
        status@.percent == status.percent,
        status@.message == status.message@,
        status@.upload == status.upload,
        start@.update_id == start.update_id@,
        start@.version == start.version@,
        start@.image_size == start.image_size,
        start@.image_sha256 == start.image_sha256@,
        start@.requested_chunk_size == start.requested_chunk_size,
        start@.chunk_count == start.chunk_count,
        start_view(Some(start)) == Some(start@),
        start_view(None) is None,
        chunk@.update_id == chunk.update_id@,
        chunk@.chunk_index == chunk.chunk_index,
        chunk@.offset == chunk.offset,
        chunk@.data == chunk.data@,
        chunk@.chunk_sha256 == chunk.chunk_sha256@,
        chunk@.final_chunk == chunk.final_chunk,
        part_view(Some(chunk)) == Some(chunk@),
        part_view(None) is None,
        end@.update_id == end.update_id@,
        end@.image_sha256 == end.image_sha256@,
        ending_view(Some(end)) == Some(end@),
        ending_view(None) is None,
        upload@.expected_size == upload.expected_size,
        upload@.chunk_size == upload.chunk_size,
        upload@.version == upload.version@,
        upload@.image_sha256 == upload.image_sha256@,
        upload@.chunks.len() == upload.chunks@.len(),
        forall|i: int|
            0 <= i < upload.chunks@.len() ==> (#[trigger] upload@.chunks[i]) is Some
                == upload.chunks@[i] is Some,
        forall|i: int|
            0 <= i < upload.chunks@.len() && (#[trigger] upload.chunks@[i]) is Some
                ==> upload@.chunks[i]->0 == (upload.chunks@[i]->0)@,
{
    assert forall|i: int| 0 <= i < upload.chunks@.len() implies #[trigger] upload@.chunks[i]
        == chunk_view(upload.chunks@[i]) by {}
    assert forall|i: int|
        0 <= i < upload.chunks@.len() && (#[trigger] upload.chunks@[i]) is Some implies
        upload@.chunks[i]->0 == (upload.chunks@[i]->0)@ by {
        assert(upload@.chunks[i] == chunk_view(upload.chunks@[i]));
    }
}

/// The fields of parameters, plans, progress reports and replies.
pub proof fn lemma_request_fields(
    parameter: ParameterFields,
    plan: TrajectoryFields,
    progress: TransferProgress,
    payload: Vec<u8>,
    message: String,
)
    ensures
        parameter@.name is Some == parameter.name is Some,
        parameter.name is Some ==> parameter@.name->0 == parameter.name->0@,
        parameter@.kind == parameter.kind,
        parameter@.value == parameter.value,
        parameter@.value_text == parameter.value_text@,
        plan@.total == plan.total,
        plan@.segments is Some == plan.segments is Some,
        plan.segments is Some ==> plan@.segments->0 == (plan.segments->0)@,
        progress@.phase == progress.phase@,
        progress@.percent == progress.percent,
        progress@.message == progress.message@,
        reply_view(Ok(payload)) == Ok::<Seq<u8>, Seq<char>>(payload@),
        reply_view(Err(message)) == Err::<Seq<u8>, Seq<char>>(message@),
{
}

/// The fields of what the station knows of its topics, devices, network and autopilot.
pub proof fn lemma_station_fields(
    topic: TopicStat,
    device: Device,
    config: ZenohConfig,
    status: AutopilotRunStatus,
    doing: VehicleRuntime,
)
    ensures
        topic@.schema == topic.schema@,
        topic@.decodable == topic.decodable,
        topic@.count == topic.count,
        topic@.prev_count == topic.prev_count,
        topic@.last_bytes == topic.last_bytes,
        topic@.recent == topic.recent,
        topic@.last_seen_ms == topic.last_seen_ms,
        device@.kind == device.kind@,
        device@.path == device.path@,
        device@.name == device.name@,
        config@.mode == config.mode@,
        config@.connect == config.connect@,
        config@.listen == optional_view(config.listen),
        config@.ws_listen == optional_view(config.ws_listen),
        config@.keyexpr == config.keyexpr@,
        config@.auto_select_known == config.auto_select_known,
        config@.vehicle_id == config.vehicle_id@,
        status@.running == status.running,
        status@.pid == status.pid,
        status@.started_at_ms == status.started_at_ms,
        status@.message == status.message@,
        status@.binary == status.binary@,
        status@.log_path == status.log_path@,
        status@.frames_out == status.frames_out,
        status@.frames_in == status.frames_in,
        status@.last_exit_at_ms == status.last_exit_at_ms,
        status@.last_exit_code == status.last_exit_code,
        status@.last_exit_signal == status.last_exit_signal,
        status@.last_pid == status.last_pid,
        status@.stop_requested == status.stop_requested,
        doing@.mode == doing.mode@,
        doing@.armed == doing.armed,
{
}

/// The texts that may be there, what a message asks for, and the values of fields.
pub proof fn lemma_plain_views(text: String, keys: Vec<String>, flag: bool, number: u64)
    ensures
        optional_view(Some(text)) == Some(text@),
        optional_view(None) is None,
        setting(Some(text)) == Some(text@),
        setting(None) is None,
        Control::NotControl@ == Wish::NotControl,
        Control::Refresh@ == Wish::Refresh,
        Control::Select(keys)@ == Wish::Select(views(keys@)),
        JsonValue::Null@ == Json::Null,
        JsonValue::Flag(flag)@ == Json::Flag(flag),
        JsonValue::Number(number)@ == Json::Number(number),
        JsonValue::Text(text)@ == Json::Text(text@),
{
}

/// A list is seen item by item.
pub proof fn lemma_listed_views(
    texts: Seq<String>,
    optional: Seq<Option<String>>,
    fields: Seq<JsonField>,
    settings: Seq<SessionSetting>,
    statuses: Seq<FirmwareStatus>,
    devices: Seq<Device>,
    progress: Seq<TransferProgress>,
)
    ensures
        views(texts).len() == texts.len(),
        forall|i: int| 0 <= i < texts.len() ==> #[trigger] views(texts)[i] == texts[i]@,
        optional_views(optional).len() == optional.len(),
        forall|i: int|
            0 <= i < optional.len() ==> #[trigger] optional_views(optional)[i] == optional_view(
                optional[i],
            ),
        field_views(fields).len() == fields.len(),
        forall|i: int|
            0 <= i < fields.len() ==> #[trigger] field_views(fields)[i] == (
                fields[i].name@,
                fields[i].value@,
            ),
        setting_views(settings).len() == settings.len(),
        forall|i: int|
            0 <= i < settings.len() ==> #[trigger] setting_views(settings)[i] == (
                settings[i].key@,
                settings[i].value@,
            ),
        status_views(statuses).len() == statuses.len(),
        forall|i: int|
            0 <= i < statuses.len() ==> #[trigger] status_views(statuses)[i] == statuses[i]@,
        device_views(devices).len() == devices.len(),
        forall|i: int|
            0 <= i < devices.len() ==> #[trigger] device_views(devices)[i] == devices[i]@,
        reports(progress).len() == progress.len(),
        forall|i: int| 0 <= i < progress.len() ==> #[trigger] reports(progress)[i] == progress[i]@,
{
}

/// A map is seen value by value.
pub proof fn lemma_mapped_views(
    uploads: Map<Seq<char>, FirmwareUpload>,
    topics: Map<Seq<char>, TopicStat>,
    key: Seq<char>,
)
    ensures
        upload_views(uploads).dom().contains(key) == uploads.dom().contains(key),
        uploads.dom().contains(key) ==> upload_views(uploads)[key] == uploads[key]@,
        topic_views(topics).dom().contains(key) == topics.dom().contains(key),
        topics.dom().contains(key) ==> topic_views(topics)[key] == topics[key]@,
{
}

} // verus!
