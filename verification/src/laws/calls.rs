//! Calls: what single calls come to, and how calls that follow each other relate.

use crate::autopilot::{
    remembered, wait_step, AutopilotLink, AutopilotRunStatus, FrameCounts, LifecycleEvent,
    LinkChild, ProcessExit, WaitStep,
};
use crate::clock::{microseconds, milliseconds, milliseconds_shown, Reading};
use crate::control::{AppState, Answer, Connection, Control};
use crate::digest::{full_sha256, sha256_text};
use crate::discovery::TopicRegistry;
use crate::gate::{FirmwareGate, GateOutcome};
use crate::laws::commands::{asks, attempts_of};
use crate::laws::images::{differ_in_regions_only, lemma_validation, within_limits};
use crate::laws::uploads::{
    lemma_candidates, lemma_commits, lemma_started_uploads, lemma_taken_chunks, lemma_upload_keys,
    may_commit, may_install, may_start, may_take, put_together,
};
use crate::listeners::{bind_step, BindStep};
use crate::manifest::{parse_parameter_policy, ManifestError, ParameterManifestFile};
use crate::parameters::{
    validate_parameter_only_change, ParameterPolicy, ParameterRegion, ParameterValidation,
};
use crate::policy::{
    checked_outcome, ledger_after, result_tells, trusted_outcome, AuthorizedCommand, CommandPolicy,
    PolicyError,
};
use crate::sim_bridge::RadioState;
use crate::simulation::{
    check_model_name, check_model_place, lies_under, names_model, repaired, ModelError,
    SimulationProfile,
};
use crate::status::{is_update_id, status_views};
use crate::tables::{
    announcement, build_chunk_request_with_hash, build_commit_request, build_prepare_request,
    chunk_table, commit_table, decode_firmware_chunk_upload, decode_firmware_commit_upload,
    decode_firmware_prepare_upload, ending, part, prepare_table, FirmwareChunkUpload,
    FirmwareCommitUpload, FirmwareError, FirmwarePrepareUpload,
};
use crate::telemetry::{
    header_fault, validate_header, validate_json_frame, MessageHeader, TelemetryEnvelope,
    ValidationError,
};
use crate::text::{decimal_text, lower, pieces, views};
use crate::velocity_budget::{
    is_ledger_name, ledger_csv, ledger_from_csv, lemma_ledger_is_read_back, BudgetState,
    VelocityBudget,
};
use vstd::prelude::*;

verus! {

// ---------------------------------------------------------------------------------------------
// Firmware
// ---------------------------------------------------------------------------------------------

/// A validation allows a candidate exactly when it differs from the baseline inside the regions
/// only, and stores a finite value within the limits of every region.
pub proof fn lemma_validated_candidates(
    candidate: &[u8],
    baseline: &[u8],
    regions: &[ParameterRegion],
    validation: ParameterValidation,
)
    requires
        call_ensures(validate_parameter_only_change, (candidate, baseline, regions), validation),
    ensures
        validation.allowed <==> differ_in_regions_only(candidate@, baseline@, regions@) && forall|
            i: int,
        |
            0 <= i < regions@.len() ==> within_limits(candidate@, #[trigger] regions@[i]),
        views(validation.invalid_parameters@) == regions@.filter(
            |region: ParameterRegion| !within_limits(candidate@, region),
        ).map_values(|region: ParameterRegion| region.name@),
{
    lemma_validation(validation, candidate@, baseline@, regions@);
}

/// A chunk that a browser sends is taken in exactly when it belongs to a started upload and its own
/// digest is that of its data; its data are then stored at its index. Any other is rejected and
/// leaves every upload as it was. No chunk sends anything or touches the baseline.
pub proof fn lemma_sent_chunks(
    gate: &mut FirmwareGate,
    prefix: &str,
    suffix: &str,
    payload: &[u8],
    outcome: GateOutcome,
    update_id: Seq<char>,
    index: nat,
)
    requires
        gate.well_formed(),
        is_update_id(update_id),
        index <= usize::MAX,
        suffix@ == update_id + "/chunk/"@ + decimal_text(index),
        call_ensures(FirmwareGate::handle_intent, (gate, prefix, suffix, payload), outcome),
    ensures
        outcome.transfer is None,
        final(gate).baseline == old(gate).baseline,
        outcome.statuses@.len() == 1,
        ({
            let taken = may_take(
                *old(gate),
                update_id,
                seq![decimal_text(index)],
                payload@.len() as int,
                part(chunk_table(payload@)),
            );
            &&& outcome.statuses@[0].status@ == if taken {
                "in_progress"@
            } else {
                "rejected"@
            }
            &&& !taken ==> final(gate).pending() == old(gate).pending()
            &&& taken ==> final(gate).pending()[update_id].chunks[index as int] == Some(
                part(chunk_table(payload@))->0.data,
            )
        }),
{
    lemma_upload_keys(update_id, index);
    let parts = pieces(suffix@, '/');
    let place = parts.skip(2);
    crate::text::lemma_decimal_is_read_back(index, usize::MAX as nat);
    assert(place =~= seq![decimal_text(index)]) by {
        lemma_chunk_place(update_id, index);
    }
    let told = status_views(outcome.statuses@);
    assert(told.len() == outcome.statuses@.len());
    assert(told[0] == outcome.statuses@[0]@);
    lemma_taken_chunks(
        *old(gate),
        *final(gate),
        told[0],
        prefix@,
        update_id,
        place,
        payload@.len() as int,
        part(chunk_table(payload@)),
    );
}

proof fn lemma_chunk_place(update_id: Seq<char>, index: nat)
    requires
        is_update_id(update_id),
        index <= usize::MAX,
    ensures
        pieces(update_id + "/chunk/"@ + decimal_text(index), '/').skip(2) == seq![
            decimal_text(index),
        ],
{
    reveal_strlit("/chunk/");
    reveal_strlit("chunk");
    let number = decimal_text(index);
    crate::laws::texts::lemma_decimal_notation(index);
    assert(!number.contains('/'));
    assert(!"chunk"@.contains('/'));
    assert forall|i: int| 0 <= i < update_id.len() implies update_id[i] != '/' by {
        assert(crate::status::is_id_char(update_id[i]));
    }
    assert(!update_id.contains('/'));
    assert(update_id + "/chunk/"@ + number =~= update_id.push('/') + ("chunk"@.push('/')
        + number));
    crate::laws::texts::lemma_first_piece(update_id, '/', "chunk"@.push('/') + number);
    crate::laws::texts::lemma_first_piece("chunk"@, '/', number);
    crate::laws::texts::lemma_one_piece(number, '/');
    assert(pieces(update_id + "/chunk/"@ + number, '/').skip(2) =~= seq![number]);
}

/// An announcement that a browser sends starts an upload exactly when it may; otherwise it is
/// rejected and changes nothing. It sends nothing and does not touch the baseline.
pub proof fn lemma_sent_announcements(
    gate: &mut FirmwareGate,
    prefix: &str,
    suffix: &str,
    payload: &[u8],
    outcome: GateOutcome,
    update_id: Seq<char>,
)
    requires
        gate.well_formed(),
        gate.max_image_size < usize::MAX,
        is_update_id(update_id),
        suffix@ == update_id + "/start"@,
        call_ensures(FirmwareGate::handle_intent, (gate, prefix, suffix, payload), outcome),
    ensures
        outcome.transfer is None,
        final(gate).baseline == old(gate).baseline,
        outcome.statuses@.len() == 1,
        ({
            let start = announcement(prepare_table(payload@));
            let begun = may_start(*old(gate), update_id, payload@.len() as int, start);
            &&& outcome.statuses@[0].status@ == if begun {
                "in_progress"@
            } else {
                "rejected"@
            }
            &&& !begun ==> final(gate).pending() == old(gate).pending()
            &&& begun ==> final(gate).pending().dom() == old(gate).pending().dom().insert(
                update_id,
            ) && final(gate).pending()[update_id].expected_size == start->0.image_size
                && final(gate).pending()[update_id].chunks.len() == start->0.chunk_count
        }),
{
    lemma_upload_keys(update_id, 0);
    let told = status_views(outcome.statuses@);
    assert(told.len() == outcome.statuses@.len());
    assert(told[0] == outcome.statuses@[0]@);
    lemma_started_uploads(
        *old(gate),
        *final(gate),
        told[0],
        prefix@,
        update_id,
        payload@.len() as int,
        announcement(prepare_table(payload@)),
    );
}

/// A commit that a browser sends leads to a transfer exactly when the upload is complete, its
/// digests agree, and its image may replace the baseline. The image sent is the one put together,
/// and the baseline stays; otherwise nothing is sent.
pub proof fn lemma_sent_commits(
    gate: &mut FirmwareGate,
    prefix: &str,
    suffix: &str,
    payload: &[u8],
    outcome: GateOutcome,
    update_id: Seq<char>,
)
    requires
        gate.well_formed(),
        is_update_id(update_id),
        suffix@ == update_id + "/commit"@,
        call_ensures(FirmwareGate::handle_intent, (gate, prefix, suffix, payload), outcome),
    ensures
        ({
            let end = ending(commit_table(payload@));
            let upload = old(gate).pending()[update_id];
            &&& outcome.transfer is Some <==> may_commit(
                *old(gate),
                update_id,
                payload@.len() as int,
                end,
            ) && may_install(*old(gate), put_together(upload)) && put_together(upload).len() > 0
            &&& outcome.transfer is Some ==> {
                &&& outcome.transfer->0.image@ == put_together(upload)
                &&& outcome.transfer->0.image_sha256@ == sha256_text(put_together(upload))
                &&& outcome.transfer->0.update_id@ == update_id
                &&& final(gate).baseline == old(gate).baseline
            }
            &&& old(gate).baseline is Some ==> final(gate).baseline == old(gate).baseline
        }),
{
    lemma_upload_keys(update_id, 0);
    let end = ending(commit_table(payload@));
    let upload = old(gate).pending()[update_id];
    lemma_commits(*old(gate), *final(gate), outcome, prefix@, update_id, payload@);
    if may_commit(*old(gate), update_id, payload@.len() as int, end) {
        lemma_candidates(
            *old(gate),
            *final(gate),
            outcome,
            prefix@,
            update_id,
            upload.version,
            put_together(upload),
        );
    }
}

/// What is written into the tables of an upload is read out of them again.
pub proof fn lemma_tables_are_read_back(
    update_id: &str,
    index: usize,
    offset: usize,
    data: &[u8],
    final_chunk: bool,
    chunk_bytes: Vec<u8>,
    chunk: Result<FirmwareChunkUpload, FirmwareError>,
    image_sha256: &str,
    commit_bytes: Vec<u8>,
    commit: Result<FirmwareCommitUpload, FirmwareError>,
)
    requires
        index <= u32::MAX,
        call_ensures(
            build_chunk_request_with_hash,
            (update_id, index, offset, data, final_chunk),
            chunk_bytes,
        ),
        exists|bytes: &[u8]|
            bytes@ == chunk_bytes@ && #[trigger] call_ensures(
                decode_firmware_chunk_upload,
                (bytes,),
                chunk,
            ),
        call_ensures(build_commit_request, (update_id, image_sha256), commit_bytes),
        exists|bytes: &[u8]|
            bytes@ == commit_bytes@ && #[trigger] call_ensures(
                decode_firmware_commit_upload,
                (bytes,),
                commit,
            ),
    ensures
        chunk is Ok,
        chunk->Ok_0.update_id@ == update_id@,
        chunk->Ok_0.chunk_index == index,
        chunk->Ok_0.offset == offset,
        chunk->Ok_0.data@ == data@,
        chunk->Ok_0.chunk_sha256@ == sha256_text(data@),
        chunk->Ok_0.final_chunk == final_chunk,
        commit is Ok,
        commit->Ok_0.update_id@ == update_id@,
        commit->Ok_0.image_sha256@ == image_sha256@,
{
}

/// What is written into an announcement is read out of it again.
pub proof fn lemma_announcements_are_read_back(
    update_id: &str,
    target: &str,
    board_id: &str,
    version: &str,
    image_size: usize,
    image_sha256: &str,
    selective_sha256: &str,
    manifest: &str,
    chunk_size: usize,
    chunk_count: usize,
    bytes: Vec<u8>,
    start: Result<FirmwarePrepareUpload, FirmwareError>,
)
    requires
        chunk_size <= u32::MAX,
        chunk_count <= u32::MAX,
        call_ensures(
            build_prepare_request,
            (
                update_id,
                target,
                board_id,
                version,
                image_size,
                image_sha256,
                selective_sha256,
                manifest,
                chunk_size,
                chunk_count,
            ),
            bytes,
        ),
        exists|read: &[u8]|
            read@ == bytes@ && #[trigger] call_ensures(
                decode_firmware_prepare_upload,
                (read,),
                start,
            ),
    ensures
        start is Ok,
        start->Ok_0.update_id@ == update_id@,
        start->Ok_0.version@ == version@,
        start->Ok_0.image_size == image_size,
        start->Ok_0.image_sha256@ == image_sha256@,
        start->Ok_0.requested_chunk_size == chunk_size,
        start->Ok_0.chunk_count == chunk_count,
{
}

// ---------------------------------------------------------------------------------------------
// Commands
// ---------------------------------------------------------------------------------------------

/// A checked request is judged by the policy, which keeps its settings and limits; its ledger is
/// then the one after the request.
pub proof fn lemma_checked_calls(
    policy: &mut CommandPolicy,
    key: &str,
    payload: &[u8],
    result: Result<AuthorizedCommand, PolicyError>,
)
    requires
        call_ensures(CommandPolicy::authorize, (policy, key, payload), result),
    ensures
        result_tells(result, checked_outcome(*old(policy), key@, payload@)),
        final(policy).velocity_budget.used@ == ledger_after(*old(policy), key@, payload@),
        final(policy).velocity_budget.limit == old(policy).velocity_budget.limit,
        final(policy).config == old(policy).config,
        final(policy).parameter_limits == old(policy).parameter_limits,
{
}

/// A request of the trusted website is judged by its key alone.
pub proof fn lemma_trusted_calls(
    policy: &CommandPolicy,
    key: &str,
    payload: &[u8],
    other_payload: &[u8],
    result: Result<AuthorizedCommand, PolicyError>,
    other: Result<AuthorizedCommand, PolicyError>,
)
    requires
        call_ensures(CommandPolicy::authorize_trusted, (policy, key, payload), result),
        call_ensures(CommandPolicy::authorize_trusted, (policy, key, other_payload), other),
        payload@.len() == other_payload@.len(),
    ensures
        result_tells(result, trusted_outcome(policy.config, key@, payload@)),
        result is Ok <==> other is Ok,
        result is Ok ==> {
            &&& result->Ok_0.payload@ == payload@
            &&& result->Ok_0.delivery == other->Ok_0.delivery
            &&& result->Ok_0.target@ == other->Ok_0.target@
            &&& result->Ok_0.status_leaf@ == other->Ok_0.status_leaf@
        },
{
}

/// A refund after an accepted velocity leaves every team where it stood before.
pub proof fn lemma_refunds_undo_velocities(
    sending: &mut CommandPolicy,
    refunding: &mut CommandPolicy,
    key: &str,
    payload: &[u8],
    result: Result<AuthorizedCommand, PolicyError>,
    credential_id: &str,
    state: BudgetState,
    team: Seq<char>,
)
    requires
        sending.well_formed(),
        asks(sending.config, key@, "velocity"@),
        call_ensures(CommandPolicy::authorize, (sending, key, payload), result),
        result is Ok,
        *refunding == *final(sending),
        result->Ok_0.velocity_credential_id is Some,
        credential_id@ == result->Ok_0.velocity_credential_id->0@,
        call_ensures(CommandPolicy::refund_velocity, (refunding, credential_id), state),
    ensures
        attempts_of(final(refunding).velocity_budget.used@, team) == attempts_of(
            old(sending).velocity_budget.used@,
            team,
        ),
{
    crate::laws::commands::lemma_intents(old(sending).config, key@, "velocity"@);
    let (sender, body) = crate::policy::velocity_request(
        old(sending).config,
        payload@,
    )->Ok_0;
    let named = vstd::utf8::decode_utf8(payload@.subrange(5, 5 + payload@[4] as int));
    assert(sender == lower(named));
    crate::text::lemma_lower_idempotent(named);
}

/// An attempt is granted exactly while the team has one left; it is then one more used, and no
/// other team is touched. A refund takes it back.
pub proof fn lemma_attempts(
    taking: &mut VelocityBudget,
    giving: &mut VelocityBudget,
    team: &str,
    result: Result<BudgetState, String>,
    state: BudgetState,
    other: Seq<char>,
)
    requires
        taking.well_formed(),
        call_ensures(VelocityBudget::consume, (taking, team), result),
        *giving == *final(taking),
        call_ensures(VelocityBudget::refund, (giving, team), state),
    ensures
        result is Ok <==> attempts_of(old(taking).used@, lower(team@)) < old(taking).limit,
        result is Ok ==> attempts_of(final(taking).used@, lower(team@)) == attempts_of(
            old(taking).used@,
            lower(team@),
        ) + 1,
        result is Err ==> final(taking).used@ == old(taking).used@,
        other != lower(team@) ==> attempts_of(final(taking).used@, other) == attempts_of(
            old(taking).used@,
            other,
        ),
        result is Ok ==> attempts_of(final(giving).used@, other) == attempts_of(
            old(taking).used@,
            other,
        ),
        final(giving).limit == old(taking).limit,
{
}

/// A ledger that is written to its file and read again has every team where it stood.
pub proof fn lemma_written_ledgers_are_read(
    ledger: &VelocityBudget,
    written: String,
    read: &str,
    again: VelocityBudget,
)
    requires
        ledger.well_formed(),
        forall|team: Seq<char>| #[trigger]
            ledger.used@.dom().contains(team) ==> is_ledger_name(team),
        call_ensures(ledger_csv, (ledger,), written),
        read@ == written@,
        call_ensures(ledger_from_csv, (read, ledger.limit), again),
    ensures
        again.used@ == ledger.used@,
        again.limit == ledger.limit,
{
    lemma_ledger_is_read_back(*ledger);
}

// ---------------------------------------------------------------------------------------------
// Browsers and topics
// ---------------------------------------------------------------------------------------------

/// A command's number is taken only if it is higher than every number taken before, so never twice;
/// a number that is not taken changes nothing.
pub proof fn lemma_numbers_are_taken_once(
    first: &mut AppState,
    second: &mut AppState,
    sequence: u64,
    later: u64,
    taken: bool,
    again: bool,
)
    requires
        call_ensures(AppState::accept_command_sequence, (first, sequence), taken),
        *second == *final(first),
        call_ensures(AppState::accept_command_sequence, (second, later), again),
    ensures
        taken <==> sequence > old(first).command_sequence,
        taken ==> final(first).command_sequence == sequence,
        !taken ==> *final(first) == *old(first) || final(first).command_sequence == old(
            first,
        ).command_sequence,
        later <= sequence && taken ==> !again,
        final(first).runtime == old(first).runtime,
{
}

/// Messages that cannot be parsed are counted, and each is answered with the next number; others
/// leave the count alone.
pub proof fn lemma_unparsed_messages(
    connection: &mut Connection,
    control: Control,
    fault: Option<String>,
    now_ms: u64,
    answer: Answer,
)
    requires
        connection.unparsed < u64::MAX,
        call_ensures(Connection::answer, (connection, control, fault, now_ms), answer),
    ensures
        answer is Refused <==> control is NotControl && fault is Some,
        answer is Command <==> control is NotControl && fault is None,
        answer is Catalog <==> control is Refresh,
        answer is Select <==> control is Select,
        answer is Refused ==> {
            &&& final(connection).unparsed == old(connection).unparsed + 1
            &&& answer->Refused_0.sequence == old(connection).unparsed + 1
            &&& answer->Refused_0.command_id@ == "parse-error-"@ + decimal_text(
                (old(connection).unparsed + 1) as nat,
            )
            &&& answer->Refused_0.status@ == "rejected"@
            &&& answer->Refused_0.reason@ == fault->0@
            &&& answer->Refused_0.received_at_ms == now_ms
        },
        !(answer is Refused) ==> final(connection).unparsed == old(connection).unparsed,
        answer is Select ==> views(answer->Select_0@) == views(control->Select_0@),
{
}

/// A key is forwarded after a selection exactly when it was selected, and a sample of it then gets
/// the header of the next frame; a sample of any other key gets none. Frames are numbered one after
/// the other.
pub proof fn lemma_forwarded_samples(
    selecting: &mut TopicRegistry,
    taking: &mut TopicRegistry,
    keys: Vec<String>,
    key: &str,
    schema: &str,
    message_type: &str,
    size: usize,
    now_ms: u64,
    header: Option<MessageHeader>,
)
    requires
        selecting.well_formed(),
        call_ensures(TopicRegistry::set_selection, (selecting, keys), ()),
        *taking == *final(selecting),
        taking.known().dom().contains(key@),
        now_ms * 1_000_000 <= u64::MAX,
        taking.sequence < u64::MAX,
        call_ensures(
            TopicRegistry::take_sample,
            (taking, key, schema, message_type, size, now_ms),
            header,
        ),
    ensures
        header is Some <==> views(keys@).contains(key@),
        header is Some ==> header->0.sequence == old(taking).sequence && header->0.stream_id@
            == key@ && header->0.message_type@ == message_type@ && final(taking).sequence == old(
            taking,
        ).sequence + 1,
        header is None ==> final(taking).sequence == old(taking).sequence,
        final(taking).known().dom() == old(taking).known().dom(),
        final(taking).known()[key@].last_bytes == size,
{
    assert(final(taking).known().dom() =~= old(taking).known().dom());
    assert(crate::discovery::keys_in(views(keys@)).contains(key@) <==> views(keys@).contains(
        key@,
    ));
}

/// A frame is judged by its header as the header is, and one that cannot be parsed is refused with
/// its parser's words.
pub proof fn lemma_judged_frames(
    envelope: TelemetryEnvelope<u64>,
    message: String,
    now_ns: u64,
    judged: Result<(), ValidationError>,
    taken: Result<(), String>,
    unparsed: Result<(), String>,
)
    requires
        call_ensures(validate_header, (&envelope.header, now_ns), judged),
        call_ensures(validate_json_frame, (Ok(envelope), now_ns), taken),
        call_ensures(
            validate_json_frame,
            (Err::<TelemetryEnvelope<u64>, String>(message), now_ns),
            unparsed,
        ),
    ensures
        judged is Ok <==> header_fault(envelope.header, now_ns) is None,
        taken is Ok <==> judged is Ok,
        taken is Err ==> taken->Err_0@ == judged->Err_0.text(),
        unparsed is Err && unparsed->Err_0@ == message@,
{
}

// ---------------------------------------------------------------------------------------------
// The plant and the autopilot
// ---------------------------------------------------------------------------------------------

/// After a manual message that is invalid or has the kill switch thrown, the plant keeps the
/// failsafe signal whatever the autopilot puts out; otherwise it gets the signal of the one who
/// steers.
pub proof fn lemma_plant_signals(
    manual: &mut RadioState,
    auto: &mut RadioState,
    payload: &[u8],
    pwm_payload: Vec<u8>,
    shown: Option<Vec<u8>>,
    bytes: &[u8],
    published: Option<Vec<u8>>,
)
    requires
        payload@.len() == 40,
        call_ensures(
            RadioState::handle_public_manual_sample,
            (manual, payload, pwm_payload),
            shown,
        ),
        *auto == *final(manual),
        call_ensures(RadioState::handle_public_pwm_sample, (auto, bytes, true), published),
    ensures
        shown is Some,
        published is Some,
        payload@[35] & 8 == 0 || payload@[35] & 2 != 0 ==> (shown->0)@ == old(
            manual,
        ).failsafe_pwm_payload@ && (published->0)@ == old(manual).failsafe_pwm_payload@,
        payload@[35] & 8 != 0 && payload@[35] & 2 == 0 && payload@[34] == 0 ==> (shown->0)@
            == pwm_payload@ && (published->0)@ == pwm_payload@,
        payload@[35] & 8 != 0 && payload@[35] & 2 == 0 && payload@[34] != 0 ==> (published->0)@
            == bytes@,
{
    crate::laws::station::lemma_steering(payload@[35], payload@[34]);
}

/// Bytes that hold no pulse widths, and manual messages of another size, change nothing and are not
/// handed on.
pub proof fn lemma_ignored_signals(
    manual: &mut RadioState,
    auto: &mut RadioState,
    payload: &[u8],
    pwm_payload: Vec<u8>,
    shown: Option<Vec<u8>>,
    bytes: &[u8],
    published: Option<Vec<u8>>,
)
    requires
        payload@.len() != 40,
        call_ensures(
            RadioState::handle_public_manual_sample,
            (manual, payload, pwm_payload),
            shown,
        ),
        call_ensures(RadioState::handle_public_pwm_sample, (auto, bytes, false), published),
    ensures
        shown is None,
        published is None,
        final(manual).selected() == old(manual).selected(),
        final(auto).selected() == old(auto).selected(),
{
}

/// An autopilot that was started runs until it ends or is stopped; then it is remembered as ended,
/// by its own will or on request, and stays so.
pub proof fn lemma_autopilot_life(
    starting: &mut AutopilotLink,
    stopping: &mut AutopilotLink,
    asking: &mut AutopilotLink,
    child: LinkChild,
    begun: LifecycleEvent,
    frames: FrameCounts,
    now_ms: u128,
    stopped: (AutopilotRunStatus, Option<LifecycleEvent>),
    exit: Option<ProcessExit>,
    asked: (AutopilotRunStatus, Option<LifecycleEvent>),
)
    requires
        call_ensures(AutopilotLink::started, (starting, child), begun),
        *stopping == *final(starting),
        call_ensures(AutopilotLink::stop, (stopping, frames, now_ms), stopped),
        *asking == *final(stopping),
        call_ensures(AutopilotLink::status, (asking, exit, frames, now_ms), asked),
    ensures
        begun.status@.running,
        begun.status@.pid == Some(child.pid),
        begun.event@ == "start"@,
        !stopped.0@.running,
        stopped.0@.stop_requested,
        stopped.0@.last_pid == Some(child.pid),
        stopped.0@.last_exit_at_ms == Some(now_ms),
        stopped.0@.message == "autopilot stopped by operator request"@,
        stopped.1 is Some,
        asked.0@ == stopped.0@,
        asked.1 is None,
        final(asking).child is None,
{
}

/// A process that has ended unasked is told once, with how it ended, and then remembered; while it
/// has not ended, it runs.
pub proof fn lemma_autopilot_ends(
    asking: &mut AutopilotLink,
    again: &mut AutopilotLink,
    exit: Option<ProcessExit>,
    frames: FrameCounts,
    now_ms: u128,
    first: (AutopilotRunStatus, Option<LifecycleEvent>),
    second: (AutopilotRunStatus, Option<LifecycleEvent>),
)
    requires
        asking.child is Some,
        call_ensures(AutopilotLink::status, (asking, exit, frames, now_ms), first),
        *again == *final(asking),
        call_ensures(AutopilotLink::status, (again, None, frames, now_ms), second),
    ensures
        exit is None ==> first.0@.running && second.0@.running && first.1 is None,
        exit is Some ==> {
            &&& !first.0@.running
            &&& !first.0@.stop_requested
            &&& first.0@.last_exit_code == exit->0.code
            &&& first.0@.last_exit_signal == exit->0.signal
            &&& first.0@.message == "autopilot exited with "@ + exit->0.description@
            &&& first.1 is Some
            &&& first.1->0.event@ == "unexpected_exit"@
            &&& second.0@ == first.0@
            &&& second.1 is None
        },
{
}

// ---------------------------------------------------------------------------------------------
// Profiles, waiting and times
// ---------------------------------------------------------------------------------------------

/// A profile that was repaired is not changed by another repair, and one that could not be read is
/// the default one.
pub proof fn lemma_repaired_profiles_stay(
    profile: SimulationProfile,
    once: SimulationProfile,
    twice: SimulationProfile,
    unread: SimulationProfile,
)
    requires
        call_ensures(SimulationProfile::loaded, (Some(profile),), once),
        call_ensures(SimulationProfile::loaded, (Some(once),), twice),
        call_ensures(SimulationProfile::loaded, (None,), unread),
    ensures
        once@ == repaired(profile@),
        twice@ == once@,
        unread@ == crate::simulation::default_profile(),
{
    crate::simulation::lemma_repair_is_final(profile@);
    crate::simulation::lemma_default_needs_no_repair();
}

/// A model file may be touched only if it is one, lies inside the project, and editing is allowed.
pub proof fn lemma_guarded_models(
    profile: &SimulationProfile,
    path: &str,
    project: &str,
    named: Result<(), ModelError>,
    placed: Result<(), ModelError>,
    editable: Result<(), ModelError>,
)
    requires
        call_ensures(check_model_name, (path,), named),
        call_ensures(check_model_place, (path, project), placed),
        call_ensures(SimulationProfile::may_save, (profile,), editable),
    ensures
        named is Ok <==> names_model(path@),
        named is Err ==> named->Err_0 == ModelError::NotAModel,
        placed is Ok <==> lies_under(path@, project@),
        placed is Err ==> placed->Err_0 == ModelError::OutsideProject,
        editable is Ok <==> profile.model_editable,
        editable is Err ==> editable->Err_0 == ModelError::EditingDisabled,
{
}

/// A killed process has two seconds to end, and is looked at every twenty milliseconds.
pub proof fn lemma_waits_for_processes(exited: bool, waited_ms: u64, step: WaitStep)
    requires
        call_ensures(wait_step, (exited, waited_ms), step),
    ensures
        step == if exited {
            WaitStep::Done
        } else if waited_ms < 2000 {
            WaitStep::Sleep(20)
        } else {
            WaitStep::GiveUp
        },
{
}

/// Listeners are given five attempts, with pauses that grow by 400 milliseconds; nothing is waited
/// for once all are bound.
pub proof fn lemma_waits_for_listeners(missing: usize, attempt: u64, step: BindStep)
    requires
        call_ensures(bind_step, (missing, attempt), step),
    ensures
        step is Ready <==> missing == 0,
        step is GiveUp <==> missing > 0 && attempt >= 5,
        step is Retry ==> step->pause_ms == 400 * attempt,
{
}

/// The same reading in milliseconds and in microseconds: a thousand of these make one of those, as
/// long as both can be counted.
pub proof fn lemma_times_agree(reading: Reading, ms: u64, us: u64, shown: Option<u64>)
    requires
        reading.nanoseconds < 1_000_000_000,
        reading.seconds < 0x1000_0000_0000,
        call_ensures(milliseconds, (reading,), ms),
        call_ensures(microseconds, (reading,), us),
        call_ensures(milliseconds_shown, (Some(reading),), shown),
    ensures
        us / 1000 == ms,
        ms / 1000 == reading.seconds,
        shown == Some(ms),
{
    assert((reading.seconds * 1_000_000 + reading.nanoseconds / 1_000) / 1000 == reading.seconds
        * 1_000 + reading.nanoseconds / 1_000_000);
}

/// A digest has sixty-four digits, and equal buffers have equal digests.
pub proof fn lemma_digests_agree(left: &[u8], right: &[u8], one: String, two: String)
    requires
        call_ensures(full_sha256, (left,), one),
        call_ensures(full_sha256, (right,), two),
    ensures
        one@.len() == 64,
        one@ == sha256_text(left@),
        left@ == right@ ==> one@ == two@,
{
}

/// A manifest that authorizes something is for the receiver and the baseline that it was read for.
pub proof fn lemma_bound_manifests(
    json: &str,
    manifest: ParameterManifestFile,
    baseline: &[u8],
    target: &str,
    board_id: &str,
    result: Result<ParameterPolicy, ManifestError>,
)
    requires
        baseline@.len() <= usize::MAX,
        call_ensures(
            parse_parameter_policy,
            (json, manifest, baseline, target, board_id),
            result,
        ),
    ensures
        result is Ok ==> {
            &&& result->Ok_0.target@ == target@
            &&& board_id@.len() > 0 ==> result->Ok_0.board_id@ == board_id@
            &&& result->Ok_0.baseline_sha256@ == sha256_text(baseline@)
            &&& forall|i: int|
                0 <= i < result->Ok_0.regions@.len() ==> within_limits(
                    baseline@,
                    #[trigger] result->Ok_0.regions@[i],
                ) && result->Ok_0.regions@[i].length == 8
        },
{
    if result is Ok {
        crate::manifest::lemma_policy_regions(
            crate::manifest::compact_json(json@),
            manifest,
            baseline@,
            sha256_text(baseline@),
            target@,
            board_id@,
        );
        crate::laws::images::lemma_allowed_images(
            baseline@,
            baseline@,
            result->Ok_0.regions@,
        );
        crate::laws::manifests::lemma_manifests(
            crate::manifest::compact_json(json@),
            manifest,
            baseline@,
            sha256_text(baseline@),
            target@,
            board_id@,
        );
        let regions = manifest.parameters@.map_values(
            |parameter: crate::manifest::ParameterManifestRegion|
                crate::laws::manifests::region_for(parameter),
        );
        crate::parameters::lemma_same_items(result->Ok_0.regions@, regions);
        assert forall|i: int| 0 <= i < result->Ok_0.regions@.len() implies within_limits(
            baseline@,
            #[trigger] result->Ok_0.regions@[i],
        ) && result->Ok_0.regions@[i].length == 8 by {
            assert(regions.contains(result->Ok_0.regions@[i]));
        }
    }
}

} // verus!
