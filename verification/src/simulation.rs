//! The profile of the browser simulation, and which model files it may touch.

use crate::binary64::Binary64;
use crate::manifest::{FIFTY, ZERO};
use crate::sim_bridge::PRIVATE_MOCAP_TOPIC;
use crate::text::{
    begins_with, blank, contains, ends_with, finishes_with, has_part, is_blank, pieces, split,
    starts_with, text_bytes, trimmed, trimmed_end, views,
};
use vstd::prelude::*;

verus! {

/// 0.002
pub const TWO_THOUSANDTHS: u64 = 0x3f60_624d_d2f1_a9fc;

/// 240.0
pub const TWO_HUNDRED_FORTY: u64 = 0x406e_0000_0000_0000;

/// The directory of the models that come with the ground station.
pub const DEFAULT_PROJECT: &'static str = "models";

/// The model that comes with the ground station.
pub const DEFAULT_MODEL: &'static str = "FixedWingTrueSILFull.mo";

/// What simulates.
#[derive(Debug, Clone, Copy, PartialEq, Eq, Structural)]
pub enum SimulationBackend {
    Rumoca,
}

/// Who commands the simulated vehicle.
#[derive(Debug, Clone, Copy, PartialEq, Eq, Structural)]
pub enum SimulationMode {
    WithAutopilot,
    DirectCommands,
}

/// What is simulated.
#[derive(Debug, Clone, Copy, PartialEq, Eq, Structural)]
pub enum SimulationVehicleKind {
    FixedWing,
    Quadrotor,
}

/// How the browser simulates.
#[derive(Debug, Clone)]
pub struct SimulationProfile {
    pub backend: SimulationBackend,
    pub mode: SimulationMode,
    pub vehicle_kind: SimulationVehicleKind,
    /// The directory that holds the editable model.
    pub project_path: String,
    /// Always empty; older profiles name a file here.
    pub generated_config_path: String,
    pub model_path: String,
    pub model_editable: bool,
    pub modelica_lsp_command: String,
    pub timing_mode: String,
    pub simulation_dt: Binary64,
    pub lockstep_send_rate_hz: Binary64,
    pub lockstep_receive_rate_hz: Binary64,
    pub lockstep_max_step_dt: Binary64,
    pub zenoh_connect: String,
    pub command_input_topic: String,
    pub actuator_output_topic: String,
    pub sensor_output_topic: String,
    pub telemetry_output_topic: String,
}

/// How the browser simulates.
pub ghost struct Profile {
    pub backend: SimulationBackend,
    pub mode: SimulationMode,
    pub vehicle_kind: SimulationVehicleKind,
    pub project_path: Seq<char>,
    pub generated_config_path: Seq<char>,
    pub model_path: Seq<char>,
    pub model_editable: bool,
    pub modelica_lsp_command: Seq<char>,
    pub timing_mode: Seq<char>,
    pub simulation_dt: Binary64,
    pub lockstep_send_rate_hz: Binary64,
    pub lockstep_receive_rate_hz: Binary64,
    pub lockstep_max_step_dt: Binary64,
    pub zenoh_connect: Seq<char>,
    pub command_input_topic: Seq<char>,
    pub actuator_output_topic: Seq<char>,
    pub sensor_output_topic: Seq<char>,
    pub telemetry_output_topic: Seq<char>,
}

/// Why a model file may not be touched.
#[derive(Debug, Clone, Copy, PartialEq, Eq, Structural)]
pub enum ModelError {
    EditingDisabled,
    NotAModel,
    OutsideProject,
}

impl View for SimulationProfile {
    type V = Profile;

    open spec fn view(&self) -> Profile {
        Profile {
            backend: self.backend,
            mode: self.mode,
            vehicle_kind: self.vehicle_kind,
            project_path: self.project_path@,
            generated_config_path: self.generated_config_path@,
            model_path: self.model_path@,
            model_editable: self.model_editable,
            modelica_lsp_command: self.modelica_lsp_command@,
            timing_mode: self.timing_mode@,
            simulation_dt: self.simulation_dt,
            lockstep_send_rate_hz: self.lockstep_send_rate_hz,
            lockstep_receive_rate_hz: self.lockstep_receive_rate_hz,
            lockstep_max_step_dt: self.lockstep_max_step_dt,
            zenoh_connect: self.zenoh_connect@,
            command_input_topic: self.command_input_topic@,
            actuator_output_topic: self.actuator_output_topic@,
            sensor_output_topic: self.sensor_output_topic@,
            telemetry_output_topic: self.telemetry_output_topic@,
        }
    }
}

impl ModelError {
    /// The sentence that describes the error.
    pub open spec fn text(self) -> Seq<char> {
        match self {
            ModelError::EditingDisabled =>
                "model editing is disabled for this simulation profile"@,
            ModelError::NotAModel => "simulation model must be a .mo or .mo.in file"@,
            ModelError::OutsideProject =>
                "model file must live inside the Electrode models directory"@,
        }
    }

    /// The sentence that describes the error.
    pub fn message(&self) -> (text: String)
        ensures
            text@ == self.text(),
    {
        match self {
            ModelError::EditingDisabled =>
                "model editing is disabled for this simulation profile".to_owned(),
            ModelError::NotAModel => "simulation model must be a .mo or .mo.in file".to_owned(),
            ModelError::OutsideProject =>
                "model file must live inside the Electrode models directory".to_owned(),
        }
    }
}

// ---------------------------------------------------------------------------------------------
// Paths
// ---------------------------------------------------------------------------------------------

/// The segment at `index` of a path counts: it is not empty, and a dot counts only at the start.
pub open spec fn counts(segment: Seq<char>, index: int) -> bool {
    segment.len() > 0 && (segment != "."@ || index == 0)
}

/// The segments of a path that count, of the first `count`.
pub open spec fn counted(segments: Seq<Seq<char>>, count: int) -> Seq<Seq<char>>
    decreases count,
{
    if count <= 0 {
        Seq::empty()
    } else {
        let before = counted(segments, count - 1);
        if counts(segments[count - 1], count - 1) {
            before.push(segments[count - 1])
        } else {
            before
        }
    }
}

/// The components of a path; an absolute path starts with a slash.
pub open spec fn components(path: Seq<char>) -> Seq<Seq<char>> {
    let segments = pieces(path, '/');
    let relative = counted(segments, segments.len() as int);
    if begins_with(path, "/"@) {
        seq!["/"@] + relative
    } else {
        relative
    }
}

/// The last component of a path, unless it stands for a directory by its place.
pub open spec fn file_name(path: Seq<char>) -> Option<Seq<char>> {
    let parts = components(path);
    if parts.len() == 0 || parts.last() == "/"@ || parts.last() == "."@ || parts.last() == ".."@ {
        None
    } else {
        Some(parts.last())
    }
}

/// The path leads through the base: its first components are those of the base.
pub open spec fn lies_under(path: Seq<char>, base: Seq<char>) -> bool {
    let parts = components(path);
    let wanted = components(base);
    wanted.len() <= parts.len() && parts.take(wanted.len() as int) == wanted
}

fn path_components(path: &str) -> (parts: Vec<String>)
    ensures
        views(parts@) == components(path@),
{
    let segments = split(path, '/');
    let mut parts: Vec<String> = Vec::new();
    if starts_with(path, "/") {
        parts.push("/".to_owned());
    }
    let ghost root = views(parts@);
    assert(root =~= if begins_with(path@, "/"@) { seq!["/"@] } else { Seq::empty() });
    assert(root + Seq::<Seq<char>>::empty() =~= root);
    for index in 0..segments.len()
        invariant
            views(segments@) == pieces(path@, '/'),
            views(parts@) == root + counted(pieces(path@, '/'), index as int),
    {
        let ghost before = parts@;
        let segment = segments[index].as_str();
        assert(pieces(path@, '/')[index as int] == segments@[index as int]@);
        if text_bytes(segment) > 0 && (*segment != *"." || index == 0) {
            parts.push(segment.to_owned());
            assert(views(parts@) =~= views(before).push(segment@));
            assert(views(parts@) =~= root + counted(pieces(path@, '/'), index + 1));
        }
    }
    assert(views(segments@).len() == segments@.len());
    assert(views(parts@) =~= components(path@));
    parts
}

fn last_component(path: &str) -> (name: Option<String>)
    ensures
        name is Some == file_name(path@) is Some,
        name is Some ==> name->0@ == file_name(path@)->0,
{
    let parts = path_components(path);
    if parts.len() == 0 {
        return None;
    }
    let last = parts[parts.len() - 1].as_str();
    assert(views(parts@).last() == parts@[parts@.len() - 1]@);
    if *last == *"/" || *last == *"." || *last == *".." {
        None
    } else {
        Some(last.to_owned())
    }
}

/// Whether the path leads through the base.
pub fn path_starts_with(path: &str, base: &str) -> (result: bool)
    ensures
        result == lies_under(path@, base@),
{
    let parts = path_components(path);
    let wanted = path_components(base);
    assert(views(parts@).len() == parts@.len());
    assert(views(wanted@).len() == wanted@.len());
    if wanted.len() > parts.len() {
        return false;
    }
    for index in 0..wanted.len()
        invariant
            wanted@.len() <= parts@.len(),
            views(parts@) == components(path@),
            views(wanted@) == components(base@),
            forall|i: int| 0 <= i < index ==> (#[trigger] views(wanted@)[i]) == views(parts@)[i],
    {
        assert(views(wanted@)[index as int] == wanted@[index as int]@);
        assert(views(parts@)[index as int] == parts@[index as int]@);
        if *wanted[index].as_str() != *parts[index].as_str() {
            assert(components(path@).take(wanted@.len() as int)[index as int] != components(
                base@,
            )[index as int]);
            return false;
        }
    }
    assert(components(path@).take(wanted@.len() as int) =~= components(base@));
    true
}

/// The path leads through a directory of generated files.
pub open spec fn is_generated_path(path: Seq<char>) -> bool {
    components(path).contains(".electrode"@) || components(path).contains(".rumoca"@)
}

/// Whether the path leads through a directory of generated files.
pub fn model_path_needs_reset(path: &str) -> (result: bool)
    ensures
        result == is_generated_path(path@),
{
    let parts = path_components(path);
    for index in 0..parts.len()
        invariant
            views(parts@) == components(path@),
            forall|i: int|
                0 <= i < index ==> (#[trigger] views(parts@)[i]) != ".electrode"@ && views(
                    parts@,
                )[i] != ".rumoca"@,
    {
        assert(views(parts@)[index as int] == parts@[index as int]@);
        let part = parts[index].as_str();
        if *part == *".electrode" || *part == *".rumoca" {
            assert(components(path@)[index as int] == part@);
            return true;
        }
    }
    assert(views(parts@).len() == parts@.len());
    false
}

/// Whether the path leads into an installation outside the ground station.
pub fn is_old_external_rumoca_path(path: &str) -> (result: bool)
    ensures
        result == has_part(path@, "/rumoca/"@),
{
    contains(path, "/rumoca/")
}

/// The model path names the project directory once more.
pub open spec fn repeats_project(project_path: Seq<char>, model_path: Seq<char>) -> bool {
    file_name(project_path) is Some && lies_under(model_path, file_name(project_path)->0)
}

/// Whether the model path names the project directory once more.
pub fn path_repeats_project_dir(project_path: &str, model_path: &str) -> (result: bool)
    ensures
        result == repeats_project(project_path@, model_path@),
{
    match last_component(project_path) {
        Some(project) => path_starts_with(model_path, project.as_str()),
        None => false,
    }
}

// ---------------------------------------------------------------------------------------------
// Defaults and repairs
// ---------------------------------------------------------------------------------------------

/// The profile where nothing else was chosen.
pub open spec fn default_profile() -> Profile {
    Profile {
        backend: SimulationBackend::Rumoca,
        mode: SimulationMode::WithAutopilot,
        vehicle_kind: SimulationVehicleKind::FixedWing,
        project_path: DEFAULT_PROJECT@,
        generated_config_path: Seq::empty(),
        model_path: DEFAULT_MODEL@,
        model_editable: true,
        modelica_lsp_command: "modelica-language-server"@,
        timing_mode: "realtime"@,
        simulation_dt: Binary64 { bits: TWO_THOUSANDTHS },
        lockstep_send_rate_hz: Binary64 { bits: TWO_HUNDRED_FORTY },
        lockstep_receive_rate_hz: Binary64 { bits: FIFTY },
        lockstep_max_step_dt: Binary64 { bits: TWO_THOUSANDTHS },
        zenoh_connect: "udp/127.0.0.1:7447"@,
        command_input_topic: "synapse/motor_output"@,
        actuator_output_topic: "synapse/motor_output"@,
        sensor_output_topic: "synapse/v1/sim/sensors"@,
        telemetry_output_topic: PRIVATE_MOCAP_TOPIC@,
    }
}

/// The text, or a default in place of a blank one.
pub open spec fn unless_blank(text: Seq<char>, default: Seq<char>) -> Seq<char> {
    if is_blank(text) {
        default
    } else {
        text
    }
}

/// Zero or less.
pub open spec fn not_positive(value: Binary64) -> bool {
    value.below(Binary64 { bits: ZERO }) || value.equals(Binary64 { bits: ZERO })
}

/// The value, or a default in place of one that is zero or less.
pub open spec fn if_positive(value: Binary64, default: Binary64) -> Binary64 {
    if not_positive(value) {
        default
    } else {
        value
    }
}

/// A command topic that older profiles name.
pub open spec fn is_old_command_topic(topic: Seq<char>) -> bool {
    ||| topic == "synapse/flight_snapshot"@
    ||| topic == "synapse/manual_control"@
    ||| topic == "synapse/radio_control"@
    ||| topic == "synapse/control_output"@
    ||| topic == "synapse/v1/topic/radio_control"@
    ||| topic == "synapse/v1/topic/manual_control_command"@
    ||| topic == "synapse/v1/topic/pwm_signal_outputs"@
    ||| topic == "rc"@
    ||| topic == "manual"@
    ||| topic == "pwm"@
}

/// An actuator topic that older profiles name.
pub open spec fn is_old_actuator_topic(topic: Seq<char>) -> bool {
    ||| topic == "synapse/control_output"@
    ||| topic == "synapse/v1/topic/pwm_signal_outputs"@
    ||| topic == "pwm"@
}

/// A sensor topic that older profiles name.
pub open spec fn is_old_sensor_topic(topic: Seq<char>) -> bool {
    topic == "synapse/sim/sensors"@
}

/// A telemetry topic that older profiles name.
pub open spec fn is_old_telemetry_topic(topic: Seq<char>) -> bool {
    ||| topic == "synapse/sim/telemetry"@
    ||| topic == "synapse/sim_input"@
    ||| topic == "synapse/mocap/frame"@
    ||| topic == "synapse/mocap/rigid_body/cub1/pose"@
    ||| topic == "synapse/v1/topic/mocap_frame"@
    ||| topic == "synapse/v1/sil/sim_input"@
    ||| topic == "qualisys/mocap"@
    ||| topic == "mocap"@
}

/// The project directory of a repaired profile.
pub open spec fn repaired_project(project_path: Seq<char>) -> Seq<char> {
    if is_blank(project_path) || has_part(project_path, "/rumoca/"@) {
        DEFAULT_PROJECT@
    } else {
        project_path
    }
}

/// The model of a repaired profile with the given project directory.
pub open spec fn repaired_model(project_path: Seq<char>, model_path: Seq<char>) -> Seq<char> {
    if is_blank(model_path) || is_generated_path(model_path) || has_part(model_path, "/rumoca/"@)
        || repeats_project(project_path, model_path) {
        DEFAULT_MODEL@
    } else {
        model_path
    }
}

/// The profile with everything replaced that is missing or out of date.
pub open spec fn repaired(profile: Profile) -> Profile {
    let defaults = default_profile();
    let project_path = repaired_project(profile.project_path);
    Profile {
        project_path,
        generated_config_path: Seq::empty(),
        model_path: repaired_model(project_path, profile.model_path),
        modelica_lsp_command: unless_blank(
            profile.modelica_lsp_command,
            defaults.modelica_lsp_command,
        ),
        timing_mode: unless_blank(profile.timing_mode, defaults.timing_mode),
        simulation_dt: if_positive(profile.simulation_dt, defaults.simulation_dt),
        lockstep_send_rate_hz: if_positive(
            profile.lockstep_send_rate_hz,
            defaults.lockstep_send_rate_hz,
        ),
        lockstep_receive_rate_hz: if_positive(
            profile.lockstep_receive_rate_hz,
            defaults.lockstep_receive_rate_hz,
        ),
        lockstep_max_step_dt: if_positive(
            profile.lockstep_max_step_dt,
            defaults.lockstep_max_step_dt,
        ),
        zenoh_connect: unless_blank(profile.zenoh_connect, defaults.zenoh_connect),
        command_input_topic: if is_blank(profile.command_input_topic) || is_old_command_topic(
            profile.command_input_topic,
        ) {
            defaults.command_input_topic
        } else {
            profile.command_input_topic
        },
        actuator_output_topic: if is_blank(profile.actuator_output_topic) || is_old_actuator_topic(
            profile.actuator_output_topic,
        ) {
            defaults.actuator_output_topic
        } else {
            profile.actuator_output_topic
        },
        sensor_output_topic: if is_blank(profile.sensor_output_topic) || is_old_sensor_topic(
            profile.sensor_output_topic,
        ) {
            defaults.sensor_output_topic
        } else {
            profile.sensor_output_topic
        },
        telemetry_output_topic: if is_blank(profile.telemetry_output_topic)
            || is_old_telemetry_topic(profile.telemetry_output_topic) {
            defaults.telemetry_output_topic
        } else {
            profile.telemetry_output_topic
        },
        ..profile
    }
}

impl Default for SimulationProfile {
    fn default() -> (profile: Self)
        ensures
            profile@ == default_profile(),
    {
        let empty = String::new();
        assert(empty@ =~= Seq::empty());
        SimulationProfile {
            backend: SimulationBackend::Rumoca,
            mode: SimulationMode::WithAutopilot,
            vehicle_kind: SimulationVehicleKind::FixedWing,
            project_path: DEFAULT_PROJECT.to_owned(),
            generated_config_path: empty,
            model_path: DEFAULT_MODEL.to_owned(),
            model_editable: true,
            modelica_lsp_command: "modelica-language-server".to_owned(),
            timing_mode: "realtime".to_owned(),
            simulation_dt: Binary64 { bits: TWO_THOUSANDTHS },
            lockstep_send_rate_hz: Binary64 { bits: TWO_HUNDRED_FORTY },
            lockstep_receive_rate_hz: Binary64 { bits: FIFTY },
            lockstep_max_step_dt: Binary64 { bits: TWO_THOUSANDTHS },
            zenoh_connect: "udp/127.0.0.1:7447".to_owned(),
            command_input_topic: "synapse/motor_output".to_owned(),
            actuator_output_topic: "synapse/motor_output".to_owned(),
            sensor_output_topic: "synapse/v1/sim/sensors".to_owned(),
            telemetry_output_topic: PRIVATE_MOCAP_TOPIC.to_owned(),
        }
    }
}

fn nonpositive(value: &Binary64) -> (result: bool)
    ensures
        result == not_positive(*value),
{
    let zero = Binary64 { bits: ZERO };
    value.is_below(&zero) || value.is_equal(&zero)
}

fn old_command_topic(topic: &str) -> (result: bool)
    ensures
        result == is_old_command_topic(topic@),
{
    *topic == *"synapse/flight_snapshot" || *topic == *"synapse/manual_control" || *topic
        == *"synapse/radio_control" || *topic == *"synapse/control_output" || *topic
        == *"synapse/v1/topic/radio_control" || *topic
        == *"synapse/v1/topic/manual_control_command" || *topic
        == *"synapse/v1/topic/pwm_signal_outputs" || *topic == *"rc" || *topic == *"manual"
        || *topic == *"pwm"
}

fn old_actuator_topic(topic: &str) -> (result: bool)
    ensures
        result == is_old_actuator_topic(topic@),
{
    *topic == *"synapse/control_output" || *topic == *"synapse/v1/topic/pwm_signal_outputs"
        || *topic == *"pwm"
}

fn old_telemetry_topic(topic: &str) -> (result: bool)
    ensures
        result == is_old_telemetry_topic(topic@),
{
    *topic == *"synapse/sim/telemetry" || *topic == *"synapse/sim_input" || *topic
        == *"synapse/mocap/frame" || *topic == *"synapse/mocap/rigid_body/cub1/pose" || *topic
        == *"synapse/v1/topic/mocap_frame" || *topic == *"synapse/v1/sil/sim_input" || *topic
        == *"qualisys/mocap" || *topic == *"mocap"
}

fn kept_unless(text: &String, replaced: bool, default: &str) -> (result: String)
    ensures
        result@ == if replaced {
            default@
        } else {
            text@
        },
{
    if replaced {
        default.to_owned()
    } else {
        text.clone()
    }
}

fn text_or(text: &String, default: &str) -> (result: String)
    ensures
        result@ == unless_blank(text@, default@),
{
    kept_unless(text, blank(text.as_str()), default)
}

fn positive_or(value: Binary64, default: u64) -> (result: Binary64)
    ensures
        result == if_positive(value, Binary64 { bits: default }),
{
    if nonpositive(&value) {
        Binary64 { bits: default }
    } else {
        value
    }
}

fn repair_project(project_path: &String) -> (result: String)
    ensures
        result@ == repaired_project(project_path@),
{
    let path = project_path.as_str();
    kept_unless(project_path, blank(path) || is_old_external_rumoca_path(path), DEFAULT_PROJECT)
}

fn repair_model(project_path: &str, model_path: &String) -> (result: String)
    ensures
        result@ == repaired_model(project_path@, model_path@),
{
    let path = model_path.as_str();
    let replaced = blank(path) || model_path_needs_reset(path) || is_old_external_rumoca_path(path)
        || path_repeats_project_dir(project_path, path);
    kept_unless(model_path, replaced, DEFAULT_MODEL)
}

impl SimulationProfile {
    /// The profile with everything replaced that is missing or out of date.
    pub fn normalized(self) -> (profile: Self)
        ensures
            profile@ == repaired(self@),
    {
        let project_path = repair_project(&self.project_path);
        let model_path = repair_model(project_path.as_str(), &self.model_path);
        let generated_config_path = String::new();
        assert(generated_config_path@ =~= Seq::empty());
        let command = self.command_input_topic.as_str();
        let actuator = self.actuator_output_topic.as_str();
        let sensor = self.sensor_output_topic.as_str();
        let telemetry = self.telemetry_output_topic.as_str();
        let command_input_topic = kept_unless(
            &self.command_input_topic,
            blank(command) || old_command_topic(command),
            "synapse/motor_output",
        );
        let actuator_output_topic = kept_unless(
            &self.actuator_output_topic,
            blank(actuator) || old_actuator_topic(actuator),
            "synapse/motor_output",
        );
        let sensor_output_topic = kept_unless(
            &self.sensor_output_topic,
            blank(sensor) || *sensor == *"synapse/sim/sensors",
            "synapse/v1/sim/sensors",
        );
        let telemetry_output_topic = kept_unless(
            &self.telemetry_output_topic,
            blank(telemetry) || old_telemetry_topic(telemetry),
            PRIVATE_MOCAP_TOPIC,
        );
        SimulationProfile {
            backend: self.backend,
            mode: self.mode,
            vehicle_kind: self.vehicle_kind,
            project_path,
            generated_config_path,
            model_path,
            model_editable: self.model_editable,
            modelica_lsp_command: text_or(&self.modelica_lsp_command, "modelica-language-server"),
            timing_mode: text_or(&self.timing_mode, "realtime"),
            simulation_dt: positive_or(self.simulation_dt, TWO_THOUSANDTHS),
            lockstep_send_rate_hz: positive_or(self.lockstep_send_rate_hz, TWO_HUNDRED_FORTY),
            lockstep_receive_rate_hz: positive_or(self.lockstep_receive_rate_hz, FIFTY),
            lockstep_max_step_dt: positive_or(self.lockstep_max_step_dt, TWO_THOUSANDTHS),
            zenoh_connect: text_or(&self.zenoh_connect, "udp/127.0.0.1:7447"),
            command_input_topic,
            actuator_output_topic,
            sensor_output_topic,
            telemetry_output_topic,
        }
    }

    /// Replaces everything that is missing or out of date.
    pub fn normalize(&mut self)
        ensures
            final(self)@ == repaired(old(self)@),
    {
        let profile = SimulationProfile {
            backend: self.backend,
            mode: self.mode,
            vehicle_kind: self.vehicle_kind,
            project_path: self.project_path.clone(),
            generated_config_path: self.generated_config_path.clone(),
            model_path: self.model_path.clone(),
            model_editable: self.model_editable,
            modelica_lsp_command: self.modelica_lsp_command.clone(),
            timing_mode: self.timing_mode.clone(),
            simulation_dt: self.simulation_dt,
            lockstep_send_rate_hz: self.lockstep_send_rate_hz,
            lockstep_receive_rate_hz: self.lockstep_receive_rate_hz,
            lockstep_max_step_dt: self.lockstep_max_step_dt,
            zenoh_connect: self.zenoh_connect.clone(),
            command_input_topic: self.command_input_topic.clone(),
            actuator_output_topic: self.actuator_output_topic.clone(),
            sensor_output_topic: self.sensor_output_topic.clone(),
            telemetry_output_topic: self.telemetry_output_topic.clone(),
        };
        *self = profile.normalized();
    }

    /// The profile read from a file, or the default one where nothing could be read; repaired
    /// either way.
    pub fn loaded(read: Option<SimulationProfile>) -> (profile: Self)
        ensures
            profile@ == repaired(
                match read {
                    Some(profile) => profile@,
                    None => default_profile(),
                },
            ),
    {
        match read {
            Some(profile) => profile.normalized(),
            None => SimulationProfile::default().normalized(),
        }
    }

    /// Whether the model may be edited.
    pub fn may_save(&self) -> (result: Result<(), ModelError>)
        ensures
            result == if self.model_editable {
                Ok::<(), ModelError>(())
            } else {
                Err::<(), ModelError>(ModelError::EditingDisabled)
            },
    {
        if self.model_editable {
            Ok(())
        } else {
            Err(ModelError::EditingDisabled)
        }
    }
}

/// The path names a model file.
pub open spec fn names_model(path: Seq<char>) -> bool {
    file_name(path) is Some && (finishes_with(file_name(path)->0, ".mo"@) || finishes_with(
        file_name(path)->0,
        ".mo.in"@,
    ))
}

/// Whether the path names a model file.
pub fn check_model_name(path: &str) -> (result: Result<(), ModelError>)
    ensures
        result == if names_model(path@) {
            Ok::<(), ModelError>(())
        } else {
            Err::<(), ModelError>(ModelError::NotAModel)
        },
{
    match last_component(path) {
        Some(name) => if ends_with(name.as_str(), ".mo") || ends_with(name.as_str(), ".mo.in") {
            Ok(())
        } else {
            Err(ModelError::NotAModel)
        },
        None => Err(ModelError::NotAModel),
    }
}

/// Whether a model file lies inside the project. Both paths are absolute and free of links.
pub fn check_model_place(candidate: &str, project: &str) -> (result: Result<(), ModelError>)
    ensures
        result == if lies_under(candidate@, project@) {
            Ok::<(), ModelError>(())
        } else {
            Err::<(), ModelError>(ModelError::OutsideProject)
        },
{
    if path_starts_with(candidate, project) {
        Ok(())
    } else {
        Err(ModelError::OutsideProject)
    }
}

/// A repaired profile needs no repair.
pub proof fn lemma_repair_is_final(profile: Profile)
    ensures
        repaired(repaired(profile)) == repaired(profile),
{
}

/// The default profile needs no repair.
pub proof fn lemma_default_needs_no_repair()
    ensures
        repaired(default_profile()) == default_profile(),
{
    reveal_strlit("models");
    reveal_strlit("/rumoca/");
    assert(!has_part(DEFAULT_PROJECT@, "/rumoca/"@)) by {
        assert(DEFAULT_PROJECT@.len() < "/rumoca/"@.len());
    }
    reveal_strlit("modelica-language-server");
    reveal_strlit("realtime");
    reveal_strlit("udp/127.0.0.1:7447");
    reveal_strlit("synapse/motor_output");
    reveal_strlit("synapse/v1/sim/sensors");
    reveal_strlit("electrode/sim/rumoca/mocap_frame");
    lemma_default_topics();
    assert(!is_blank(DEFAULT_PROJECT@)) by {
        lemma_not_blank(DEFAULT_PROJECT@);
    }
    lemma_not_blank(default_profile().modelica_lsp_command);
    lemma_not_blank(default_profile().timing_mode);
    lemma_not_blank(default_profile().zenoh_connect);
    lemma_not_blank(default_profile().command_input_topic);
    lemma_not_blank(default_profile().sensor_output_topic);
    lemma_not_blank(default_profile().telemetry_output_topic);
}

proof fn lemma_default_topics()
    ensures
        repaired_model(DEFAULT_PROJECT@, DEFAULT_MODEL@) == DEFAULT_MODEL@,
{
}

proof fn lemma_not_blank(text: Seq<char>)
    requires
        text.len() > 0,
        !crate::text::is_whitespace(text[0]),
    ensures
        !is_blank(text),
    decreases text.len(),
{
    if crate::text::is_whitespace(text.last()) {
        let shorter = text.drop_last();
        assert(shorter[0] == text[0]);
        lemma_not_blank(shorter);
        assert(trimmed(shorter) == trimmed_end(shorter));
    }
}

} // verus!
