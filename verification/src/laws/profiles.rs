//! The simulation profile: what a repair keeps and what it replaces, and which model files may be
//! touched.

use crate::binary64::{lemma_scaled_magnitude_grows, scaled_magnitude, Binary64};
use crate::laws::texts::{
    all_space, lemma_first_piece, lemma_linked_lists, lemma_one_piece, lemma_pieces_make_the_text,
    lemma_pieces_of_both, lemma_trimmed_text, linked,
};
use crate::simulation::{
    components, counted, counts, default_profile, file_name, is_generated_path, lies_under,
    names_model, not_positive, repaired, repeats_project, ModelError, Profile, SimulationBackend,
    SimulationMode, SimulationVehicleKind,
};
use crate::text::{begins_with, finishes_with, has_part, pieces};
use vstd::prelude::*;

verus! {

// ---------------------------------------------------------------------------------------------
// Paths
// ---------------------------------------------------------------------------------------------

/// The name of a file or directory: a segment of a path that does not stand for a directory by its
/// place.
pub open spec fn proper_name(name: Seq<char>) -> bool {
    name.len() > 0 && !name.contains('/') && name != "."@ && name != ".."@
}

proof fn lemma_counted(segments: Seq<Seq<char>>, count: int, wanted: Seq<char>)
    requires
        0 <= count <= segments.len(),
    ensures
        counted(segments, count).contains(wanted) <==> exists|i: int|
            0 <= i < count && #[trigger] segments[i] == wanted && wanted.len() > 0 && (wanted
                != "."@ || i == 0),
    decreases count,
{
    if count > 0 {
        lemma_counted(segments, count - 1, wanted);
        let before = counted(segments, count - 1);
        let last = segments[count - 1];
        let all = counted(segments, count);
        if all.contains(wanted) {
            let k = choose|k: int| 0 <= k < all.len() && all[k] == wanted;
            if counts(last, count - 1) && k == before.len() {
                assert(segments[count - 1] == wanted);
            } else {
                assert(before[k] == wanted);
                assert(before.contains(wanted));
            }
        }
        if exists|i: int|
            0 <= i < count && #[trigger] segments[i] == wanted && wanted.len() > 0 && (wanted
                != "."@ || i == 0) {
            let i = choose|i: int|
                0 <= i < count && #[trigger] segments[i] == wanted && wanted.len() > 0 && (wanted
                    != "."@ || i == 0);
            if i == count - 1 {
                assert(all[before.len() as int] == wanted);
            } else {
                assert(before.contains(wanted));
                let k = choose|k: int| 0 <= k < before.len() && before[k] == wanted;
                assert(all[k] == wanted);
            }
        }
    }
}

proof fn lemma_counted_prefix(segments: Seq<Seq<char>>, more: Seq<Seq<char>>, count: int)
    requires
        0 <= count <= segments.len(),
    ensures
        counted(segments + more, count) == counted(segments, count),
    decreases count,
{
    if count > 0 {
        lemma_counted_prefix(segments, more, count - 1);
    }
}

/// The components of a path are the names between its slashes, empty ones left out, and dots but at
/// the start; an absolute path has a slash of its own.
pub proof fn lemma_components(path: Seq<char>, wanted: Seq<char>)
    ensures
        components(path).contains(wanted) <==> (path.len() > 0 && path[0] == '/' && wanted
            == "/"@) || exists|i: int|
            0 <= i < pieces(path, '/').len() && #[trigger] pieces(path, '/')[i] == wanted
                && wanted.len() > 0 && (wanted != "."@ || i == 0),
        path.len() > 0 && path[0] == '/' ==> components(path)[0] == "/"@,
{
    let segments = pieces(path, '/');
    let relative = counted(segments, segments.len() as int);
    lemma_counted(segments, segments.len() as int, wanted);
    reveal_strlit("/");
    if begins_with(path, "/"@) {
        assert(path.take(1)[0] == "/"@[0]);
        assert(components(path) =~= seq!["/"@] + relative);
        if components(path).contains(wanted) {
            let k = choose|k: int| 0 <= k < components(path).len() && components(path)[k] == wanted;
            if k > 0 {
                assert(relative[k - 1] == wanted);
                assert(relative.contains(wanted));
            }
        }
        if relative.contains(wanted) {
            let k = choose|k: int| 0 <= k < relative.len() && relative[k] == wanted;
            assert(components(path)[k + 1] == wanted);
        }
        assert(components(path)[0] == "/"@);
    } else if path.len() > 0 && path[0] == '/' {
        assert(path.take(1) =~= "/"@);
    }
}

/// A path leads through a directory of generated files exactly when one of the names between its
/// slashes is that directory's.
pub proof fn lemma_generated_paths(path: Seq<char>)
    ensures
        is_generated_path(path) <==> exists|i: int|
            0 <= i < pieces(path, '/').len() && (#[trigger] pieces(path, '/')[i] == ".electrode"@
                || pieces(path, '/')[i] == ".rumoca"@),
{
    reveal_strlit(".electrode");
    reveal_strlit(".rumoca");
    reveal_strlit(".");
    reveal_strlit("/");
    assert(".electrode"@.len() == 10 && ".rumoca"@.len() == 7 && "."@.len() == 1 && "/"@.len()
        == 1);
    lemma_components(path, ".electrode"@);
    lemma_components(path, ".rumoca"@);
}

/// The last name of a path is its file name, and slashes behind it do not matter.
pub proof fn lemma_file_names(head: Seq<char>, name: Seq<char>)
    requires
        proper_name(name),
    ensures
        file_name(name) == Some(name),
        file_name(head.push('/') + name) == Some(name),
        file_name(name.push('/')) == Some(name),
        file_name(head.push('/') + name.push('/')) == Some(name),
{
    let alone = pieces(name, '/');
    lemma_one_piece(name, '/');
    assert(!name.contains('/'));
    reveal_strlit("/");
    if begins_with(name, "/"@) {
        assert(name.take(1)[0] == "/"@[0]);
        assert(name.contains(name[0]));
    }
    assert(counted(alone, 0) =~= Seq::empty());
    assert(counted(alone, 1) =~= seq![name]);
    assert(name != "/"@) by {
        if name == "/"@ {
            assert(name.contains(name[0]));
        }
    }
    lemma_last_counted(head, name);
    lemma_trailing_slash(name);
    lemma_trailing_slash(head.push('/') + name);
    assert(head.push('/') + name.push('/') =~= (head.push('/') + name).push('/'));
}

proof fn lemma_last_counted(head: Seq<char>, name: Seq<char>)
    requires
        proper_name(name),
    ensures
        file_name(head.push('/') + name) == Some(name),
{
    let path = head.push('/') + name;
    lemma_pieces_of_both(head, '/', name);
    lemma_one_piece(name, '/');
    let before = pieces(head, '/');
    let segments = pieces(path, '/');
    assert(segments =~= before.push(name));
    assert(segments[segments.len() - 1] == name);
    let relative = counted(segments, segments.len() as int);
    assert(relative.last() == name);
    assert(components(path).last() == name);
    reveal_strlit("/");
    assert(name != "/"@) by {
        if name == "/"@ {
            assert(name.contains(name[0]));
        }
    }
}

proof fn lemma_trailing_slash(path: Seq<char>)
    requires
        path.len() > 0,
    ensures
        components(path.push('/')) == components(path),
{
    let empty = Seq::<char>::empty();
    assert(path.push('/') =~= path.push('/') + empty);
    lemma_pieces_of_both(path, '/', empty);
    lemma_one_piece(empty, '/');
    let before = pieces(path, '/');
    let segments = pieces(path.push('/'), '/');
    assert(segments =~= before + seq![empty]);
    lemma_counted_prefix(before, seq![empty], before.len() as int);
    assert(!counts(segments[segments.len() - 1], segments.len() - 1));
    assert(counted(segments, segments.len() as int) == counted(before, before.len() as int));
    reveal_strlit("/");
    assert(path.push('/').take(1) =~= path.take(1));
}

/// A path leads through a name exactly when it is that name, or starts with it and a slash.
pub proof fn lemma_paths_through_names(path: Seq<char>, name: Seq<char>)
    requires
        name.len() > 0,
        !name.contains('/'),
    ensures
        lies_under(path, name) <==> path == name || begins_with(path, name.push('/')),
{
    reveal_strlit("/");
    let wanted = components(name);
    lemma_one_piece(name, '/');
    if begins_with(name, "/"@) {
        assert(name.take(1)[0] == "/"@[0]);
        assert(name.contains(name[0]));
    }
    let alone = pieces(name, '/');
    assert(counted(alone, 0) =~= Seq::empty());
    assert(counted(alone, 1) =~= seq![name]);
    assert(wanted == seq![name]);
    lemma_pieces_make_the_text(path, '/');
    let segments = pieces(path, '/');
    let parts = components(path);
    if path.len() > 0 && path[0] == '/' {
        lemma_components(path, "/"@);
        assert(parts.contains("/"@));
        assert(parts[0] == "/"@);
        assert(name != "/"@) by {
            if name == "/"@ {
                assert(name.contains(name[0]));
            }
        }
        assert(parts.take(1)[0] == "/"@);
        if begins_with(path, name.push('/')) {
            assert(path.take(name.len() as int + 1)[0] == name[0]);
            assert(name.contains(name[0]));
        }
        assert(path != name) by {
            if path == name {
                assert(name.contains(name[0]));
            }
        }
    } else if path.len() == 0 {
        lemma_one_piece(path, '/');
        let none = pieces(path, '/');
        assert(counted(none, 0) =~= Seq::empty());
        assert(counted(none, 1) =~= Seq::empty());
        assert(!begins_with(path, "/"@));
    } else {
        assert(!begins_with(path, "/"@)) by {
            if begins_with(path, "/"@) {
                assert(path.take(1)[0] == "/"@[0]);
            }
        }
        let first = segments[0];
        if segments.len() == 1 {
            assert(path == first);
        } else {
            assert(path == first.push('/') + linked(segments.drop_first(), '/'));
        }
        assert(first.len() > 0) by {
            if first.len() == 0 && segments.len() > 1 {
                assert(path[0] == '/');
            }
        }
        assert(counted(segments, 0) =~= Seq::empty());
        assert(counted(segments, 1) =~= seq![first]);
        lemma_first_stays(segments, segments.len() as int);
        assert(parts[0] == first);
        assert(parts.take(1) =~= seq![first]);
        if first == name && segments.len() > 1 {
            assert(path.take(name.len() as int + 1) =~= name.push('/'));
        }
        if begins_with(path, name.push('/')) {
            let rest = path.skip(name.len() as int + 1);
            assert(path =~= name.push('/') + rest);
            lemma_first_piece(name, '/', rest);
            assert(first == name);
        }
        if path == name {
            assert(first == name);
        }
    }
}

proof fn lemma_first_stays(segments: Seq<Seq<char>>, count: int)
    requires
        1 <= count <= segments.len(),
        segments[0].len() > 0,
    ensures
        counted(segments, count).len() >= 1,
        counted(segments, count)[0] == segments[0],
    decreases count,
{
    if count > 1 {
        lemma_first_stays(segments, count - 1);
    } else {
        assert(counted(segments, 0) =~= Seq::empty());
    }
}

/// An absolute path without empty names and dots.
pub open spec fn canonical(path: Seq<char>) -> bool {
    let segments = pieces(path, '/');
    &&& segments.len() >= 2
    &&& segments[0].len() == 0
    &&& forall|i: int|
        1 <= i < segments.len() ==> (#[trigger] segments[i]).len() > 0 && segments[i] != "."@
}

proof fn lemma_canonical(path: Seq<char>, count: int)
    requires
        canonical(path),
        1 <= count <= pieces(path, '/').len(),
    ensures
        counted(pieces(path, '/'), count) == pieces(path, '/').subrange(1, count),
    decreases count,
{
    let segments = pieces(path, '/');
    if count > 1 {
        lemma_canonical(path, count - 1);
        assert(segments.subrange(1, count) =~= segments.subrange(1, count - 1).push(
            segments[count - 1],
        ));
    } else {
        assert(counted(segments, 0) =~= Seq::empty());
        assert(segments.subrange(1, 1) =~= Seq::empty());
    }
}

proof fn lemma_canonical_components(path: Seq<char>)
    requires
        canonical(path),
    ensures
        components(path) == seq!["/"@] + pieces(path, '/').skip(1),
        path.len() > 0,
        path[0] == '/',
{
    let segments = pieces(path, '/');
    lemma_canonical(path, segments.len() as int);
    assert(segments.subrange(1, segments.len() as int) =~= segments.skip(1));
    lemma_pieces_make_the_text(path, '/');
    assert(path == segments[0].push('/') + linked(segments.drop_first(), '/'));
    reveal_strlit("/");
    assert(path.take(1) =~= "/"@);
}

/// A canonical path lies inside a canonical directory exactly when it is the directory or starts
/// with it and a slash: a longer name beside the directory does not count.
pub proof fn lemma_paths_inside(path: Seq<char>, directory: Seq<char>)
    requires
        canonical(path),
        canonical(directory),
    ensures
        lies_under(path, directory) <==> path == directory || begins_with(
            path,
            directory.push('/'),
        ),
{
    let parts = pieces(path, '/');
    let wanted = pieces(directory, '/');
    lemma_canonical_components(path);
    lemma_canonical_components(directory);
    lemma_pieces_make_the_text(path, '/');
    lemma_pieces_make_the_text(directory, '/');
    let long = components(path);
    let short = components(directory);
    if lies_under(path, directory) {
        assert forall|i: int| 0 <= i < wanted.len() implies parts[i] == wanted[i] by {
            if i > 0 {
                assert(long.take(short.len() as int)[i] == short[i]);
                assert(long[i] == parts[i]);
                assert(short[i] == wanted[i]);
            } else {
                assert(parts[0] =~= wanted[0]);
            }
        }
        let rest = parts.skip(wanted.len() as int);
        assert(parts =~= wanted + rest);
        if rest.len() > 0 {
            lemma_linked_lists(wanted, '/', rest);
            assert(path.take(directory.len() as int + 1) =~= directory.push('/'));
        } else {
            assert(parts =~= wanted);
        }
    }
    if begins_with(path, directory.push('/')) {
        let rest = path.skip(directory.len() as int + 1);
        assert(path =~= directory.push('/') + rest);
        lemma_pieces_of_both(directory, '/', rest);
        assert(long.take(short.len() as int) =~= short);
    }
    if path == directory {
        assert(long.take(short.len() as int) =~= short);
    }
}

/// A model file is one whose name ends in `.mo` or `.mo.in`, whatever directory it is in.
pub proof fn lemma_model_names(head: Seq<char>, name: Seq<char>)
    requires
        proper_name(name),
    ensures
        names_model(name) <==> finishes_with(name, ".mo"@) || finishes_with(name, ".mo.in"@),
        names_model(head.push('/') + name) <==> finishes_with(name, ".mo"@) || finishes_with(
            name,
            ".mo.in"@,
        ),
{
    lemma_file_names(head, name);
}

// ---------------------------------------------------------------------------------------------
// Repairs
// ---------------------------------------------------------------------------------------------

/// The value is zero, of either sign, or less.
pub open spec fn zero_or_less(value: Binary64) -> bool {
    value.bits == 0 || (value.bits >= 0x8000_0000_0000_0000 && !value.nan())
}

proof fn lemma_zero_or_less(value: Binary64)
    ensures
        zero_or_less(value) == not_positive(value),
{
    let zero = Binary64 { bits: 0 };
    assert(scaled_magnitude(0) == 0);
    if value.magnitude() > 0 {
        lemma_scaled_magnitude_grows(0, value.magnitude());
    }
}

/// The text is kept unless it is blank.
pub open spec fn kept_or(after: Seq<char>, before: Seq<char>, default: Seq<char>) -> bool {
    after == if all_space(before) {
        default
    } else {
        before
    }
}

/// The number is kept unless it is zero or less.
pub open spec fn kept_above_zero(after: Binary64, before: Binary64, default: u64) -> bool {
    after == if zero_or_less(before) {
        Binary64 { bits: default }
    } else {
        before
    }
}

/// The model cannot stay: it is blank, generated, in an old installation, or names the project's
/// directory once more.
pub open spec fn stale_model(project: Seq<char>, model: Seq<char>) -> bool {
    ||| all_space(model)
    ||| exists|i: int|
        0 <= i < pieces(model, '/').len() && (#[trigger] pieces(model, '/')[i] == ".electrode"@
            || pieces(model, '/')[i] == ".rumoca"@)
    ||| has_part(model, "/rumoca/"@)
    ||| file_name(project) is Some && (model == file_name(project)->0 || begins_with(
        model,
        (file_name(project)->0).push('/'),
    ))
}

/// A repair keeps everything that needs none: each text that is not blank, each number above zero,
/// each topic but those that older profiles name, a project directory and a model that are not
/// stale. What it replaces gets the default.
pub proof fn lemma_repairs(before: Profile, after: Profile)
    requires
        after == repaired(before),
    ensures
        after.backend == before.backend,
        after.mode == before.mode,
        after.vehicle_kind == before.vehicle_kind,
        after.model_editable == before.model_editable,
        after.generated_config_path.len() == 0,
        after.project_path == if all_space(before.project_path) || has_part(
            before.project_path,
            "/rumoca/"@,
        ) {
            "models"@
        } else {
            before.project_path
        },
        after.model_path == if stale_model(after.project_path, before.model_path) {
            "FixedWingTrueSILFull.mo"@
        } else {
            before.model_path
        },
        kept_or(
            after.modelica_lsp_command,
            before.modelica_lsp_command,
            "modelica-language-server"@,
        ),
        kept_or(after.timing_mode, before.timing_mode, "realtime"@),
        kept_or(after.zenoh_connect, before.zenoh_connect, "udp/127.0.0.1:7447"@),
        kept_above_zero(after.simulation_dt, before.simulation_dt, 0x3f60_624d_d2f1_a9fc),
        kept_above_zero(
            after.lockstep_send_rate_hz,
            before.lockstep_send_rate_hz,
            0x406e_0000_0000_0000,
        ),
        kept_above_zero(
            after.lockstep_receive_rate_hz,
            before.lockstep_receive_rate_hz,
            0x4049_0000_0000_0000,
        ),
        kept_above_zero(
            after.lockstep_max_step_dt,
            before.lockstep_max_step_dt,
            0x3f60_624d_d2f1_a9fc,
        ),
        after.command_input_topic == if all_space(before.command_input_topic) || seq![
            "synapse/flight_snapshot"@,
            "synapse/manual_control"@,
            "synapse/radio_control"@,
            "synapse/control_output"@,
            "synapse/v1/topic/radio_control"@,
            "synapse/v1/topic/manual_control_command"@,
            "synapse/v1/topic/pwm_signal_outputs"@,
            "rc"@,
            "manual"@,
            "pwm"@,
        ].contains(before.command_input_topic) {
            "synapse/motor_output"@
        } else {
            before.command_input_topic
        },
        after.actuator_output_topic == if all_space(before.actuator_output_topic) || seq![
            "synapse/control_output"@,
            "synapse/v1/topic/pwm_signal_outputs"@,
            "pwm"@,
        ].contains(before.actuator_output_topic) {
            "synapse/motor_output"@
        } else {
            before.actuator_output_topic
        },
        after.sensor_output_topic == if all_space(before.sensor_output_topic)
            || before.sensor_output_topic == "synapse/sim/sensors"@ {
            "synapse/v1/sim/sensors"@
        } else {
            before.sensor_output_topic
        },
        after.telemetry_output_topic == if all_space(before.telemetry_output_topic) || seq![
            "synapse/sim/telemetry"@,
            "synapse/sim_input"@,
            "synapse/mocap/frame"@,
            "synapse/mocap/rigid_body/cub1/pose"@,
            "synapse/v1/topic/mocap_frame"@,
            "synapse/v1/sil/sim_input"@,
            "qualisys/mocap"@,
            "mocap"@,
        ].contains(before.telemetry_output_topic) {
            "electrode/sim/rumoca/mocap_frame"@
        } else {
            before.telemetry_output_topic
        },
{
    lemma_trimmed_text(before.project_path);
    lemma_trimmed_text(before.model_path);
    lemma_trimmed_text(before.modelica_lsp_command);
    lemma_trimmed_text(before.timing_mode);
    lemma_trimmed_text(before.zenoh_connect);
    lemma_trimmed_text(before.command_input_topic);
    lemma_trimmed_text(before.actuator_output_topic);
    lemma_trimmed_text(before.sensor_output_topic);
    lemma_trimmed_text(before.telemetry_output_topic);
    lemma_zero_or_less(before.simulation_dt);
    lemma_zero_or_less(before.lockstep_send_rate_hz);
    lemma_zero_or_less(before.lockstep_receive_rate_hz);
    lemma_zero_or_less(before.lockstep_max_step_dt);
    lemma_old_topics(
        before.command_input_topic,
        before.actuator_output_topic,
        before.telemetry_output_topic,
    );
    lemma_generated_paths(before.model_path);
    lemma_stale_model(after.project_path, before.model_path);
}

proof fn lemma_stale_model(project: Seq<char>, model: Seq<char>)
    ensures
        repeats_project(project, model) <==> file_name(project) is Some && (model == file_name(
            project,
        )->0 || begins_with(model, (file_name(project)->0).push('/'))),
{
    if file_name(project) is Some {
        let name = file_name(project)->0;
        lemma_file_name_is_a_name(project);
        lemma_paths_through_names(model, name);
    }
}

/// A file name is one of the names between the slashes of its path.
pub proof fn lemma_file_name_is_a_name(path: Seq<char>)
    requires
        file_name(path) is Some,
    ensures
        proper_name(file_name(path)->0),
        pieces(path, '/').contains(file_name(path)->0),
{
    let name = file_name(path)->0;
    let parts = components(path);
    assert(parts[parts.len() - 1] == name);
    assert(parts.contains(name));
    lemma_components(path, name);
    lemma_pieces_make_the_text(path, '/');
    let i = choose|i: int|
        0 <= i < pieces(path, '/').len() && #[trigger] pieces(path, '/')[i] == name && name.len()
            > 0 && (name != "."@ || i == 0);
    assert(pieces(path, '/')[i] == name);
}

proof fn lemma_old_topics(command: Seq<char>, actuator: Seq<char>, telemetry: Seq<char>)
    ensures
        seq![
            "synapse/flight_snapshot"@,
            "synapse/manual_control"@,
            "synapse/radio_control"@,
            "synapse/control_output"@,
            "synapse/v1/topic/radio_control"@,
            "synapse/v1/topic/manual_control_command"@,
            "synapse/v1/topic/pwm_signal_outputs"@,
            "rc"@,
            "manual"@,
            "pwm"@,
        ].contains(command) <==> crate::simulation::is_old_command_topic(command),
        seq![
            "synapse/control_output"@,
            "synapse/v1/topic/pwm_signal_outputs"@,
            "pwm"@,
        ].contains(actuator) <==> crate::simulation::is_old_actuator_topic(actuator),
        seq![
            "synapse/sim/telemetry"@,
            "synapse/sim_input"@,
            "synapse/mocap/frame"@,
            "synapse/mocap/rigid_body/cub1/pose"@,
            "synapse/v1/topic/mocap_frame"@,
            "synapse/v1/sil/sim_input"@,
            "qualisys/mocap"@,
            "mocap"@,
        ].contains(telemetry) <==> crate::simulation::is_old_telemetry_topic(telemetry),
{
    let commands = seq![
        "synapse/flight_snapshot"@,
        "synapse/manual_control"@,
        "synapse/radio_control"@,
        "synapse/control_output"@,
        "synapse/v1/topic/radio_control"@,
        "synapse/v1/topic/manual_control_command"@,
        "synapse/v1/topic/pwm_signal_outputs"@,
        "rc"@,
        "manual"@,
        "pwm"@,
    ];
    if crate::simulation::is_old_command_topic(command) {
        assert(commands[0] == command || commands[1] == command || commands[2] == command
            || commands[3] == command || commands[4] == command || commands[5] == command
            || commands[6] == command || commands[7] == command || commands[8] == command
            || commands[9] == command);
    }
    let actuators = seq![
        "synapse/control_output"@,
        "synapse/v1/topic/pwm_signal_outputs"@,
        "pwm"@,
    ];
    if crate::simulation::is_old_actuator_topic(actuator) {
        assert(actuators[0] == actuator || actuators[1] == actuator || actuators[2] == actuator);
    }
    let telemetries = seq![
        "synapse/sim/telemetry"@,
        "synapse/sim_input"@,
        "synapse/mocap/frame"@,
        "synapse/mocap/rigid_body/cub1/pose"@,
        "synapse/v1/topic/mocap_frame"@,
        "synapse/v1/sil/sim_input"@,
        "qualisys/mocap"@,
        "mocap"@,
    ];
    if crate::simulation::is_old_telemetry_topic(telemetry) {
        assert(telemetries[0] == telemetry || telemetries[1] == telemetry || telemetries[2]
            == telemetry || telemetries[3] == telemetry || telemetries[4] == telemetry
            || telemetries[5] == telemetry || telemetries[6] == telemetry || telemetries[7]
            == telemetry);
    }
}

/// The profile where nothing else was chosen: a fixed wing under the autopilot, with the station's
/// own model, which may be edited.
pub proof fn lemma_default_profile()
    ensures
        ({
            let profile = default_profile();
            &&& profile.backend == SimulationBackend::Rumoca
            &&& profile.mode == SimulationMode::WithAutopilot
            &&& profile.vehicle_kind == SimulationVehicleKind::FixedWing
            &&& profile.project_path == "models"@
            &&& profile.model_path == "FixedWingTrueSILFull.mo"@
            &&& profile.generated_config_path.len() == 0
            &&& profile.model_editable
            &&& profile.modelica_lsp_command == "modelica-language-server"@
            &&& profile.timing_mode == "realtime"@
            &&& profile.zenoh_connect == "udp/127.0.0.1:7447"@
            &&& profile.simulation_dt == Binary64 { bits: 0x3f60_624d_d2f1_a9fc }
            &&& profile.lockstep_send_rate_hz == Binary64 { bits: 0x406e_0000_0000_0000 }
            &&& profile.lockstep_receive_rate_hz == Binary64 { bits: 0x4049_0000_0000_0000 }
            &&& profile.lockstep_max_step_dt == Binary64 { bits: 0x3f60_624d_d2f1_a9fc }
            &&& profile.command_input_topic == "synapse/motor_output"@
            &&& profile.actuator_output_topic == "synapse/motor_output"@
            &&& profile.sensor_output_topic == "synapse/v1/sim/sensors"@
            &&& profile.telemetry_output_topic == "electrode/sim/rumoca/mocap_frame"@
        }),
{
}

/// The sentences that describe why a model file may not be touched.
pub proof fn lemma_model_errors()
    ensures
        ModelError::EditingDisabled.text()
            == "model editing is disabled for this simulation profile"@,
        ModelError::NotAModel.text() == "simulation model must be a .mo or .mo.in file"@,
        ModelError::OutsideProject.text()
            == "model file must live inside the Electrode models directory"@,
{
}

/// Nothing but a model file is one: its path has a last name, which ends in `.mo` or `.mo.in`;
/// paths that end in two dots, and the root, have none.
pub proof fn lemma_only_models(path: Seq<char>)
    ensures
        names_model(path) <==> file_name(path) is Some && (finishes_with(
            file_name(path)->0,
            ".mo"@,
        ) || finishes_with(file_name(path)->0, ".mo.in"@)),
        file_name(path.push('/') + ".."@) is None,
        file_name(".."@) is None,
        file_name("/"@) is None,
        file_name(Seq::empty()) is None,
{
    reveal_strlit("..");
    reveal_strlit("/");
    assert(".."@.len() == 2);
    assert(!".."@.contains('/'));
    lemma_one_piece(".."@, '/');
    let dots = pieces(".."@, '/');
    assert(counted(dots, 0) =~= Seq::empty());
    assert(counted(dots, 1) =~= seq![".."@]);
    assert(components(".."@).last() == ".."@);
    let parent = path.push('/') + ".."@;
    lemma_pieces_of_both(path, '/', ".."@);
    let segments = pieces(parent, '/');
    assert(segments =~= pieces(path, '/').push(".."@));
    assert(segments[segments.len() - 1] == ".."@);
    reveal_strlit(".");
    assert("."@.len() == 1);
    assert(counted(segments, segments.len() as int).last() == ".."@);
    assert(components(parent).last() == ".."@);
    let empty = Seq::<char>::empty();
    lemma_one_piece(empty, '/');
    let none = pieces(empty, '/');
    assert(counted(none, 0) =~= Seq::empty());
    assert(counted(none, 1) =~= Seq::empty());
    assert(components(empty) =~= Seq::empty());
    assert("/"@ =~= empty.push('/') + empty);
    lemma_pieces_of_both(empty, '/', empty);
    let root = pieces("/"@, '/');
    assert(root =~= seq![empty, empty]);
    assert(counted(root, 0) =~= Seq::empty());
    assert(counted(root, 1) =~= Seq::empty());
    assert(counted(root, 2) =~= Seq::empty());
    assert("/"@.take(1) =~= "/"@);
    assert(components("/"@) =~= seq!["/"@]);
}

} // verus!
