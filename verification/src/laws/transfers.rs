//! Transfers to a vehicle: what each query carries, and which replies let a transfer go on.

use crate::digest::sha256_text;
use crate::laws::texts::{lemma_without_trailing, repeated};
use crate::tables::{
    chunk_reply, chunk_request_bytes, code_text, commit_reply, commit_request_bytes, info_outcome,
    info_reply, info_request_bytes, is_accepted, prepare_reply, prepare_request_bytes,
    rejection_text, reply_message, status_reply, status_request_bytes, ChunkTable, CommitTable,
    FirmwareError, PrepareTable,
};
use crate::text::decimal_text;
use crate::transfer::{
    chunk_count, chunk_end, judged, judgement, lemma_chunk_bounds, lemma_chunk_count, reports,
    step_of, transfer_request, transfer_step, Outcome, Report, TransferOutcome, TransferPlan,
    TransferRequest, TransferStage, TransferStep,
};
use vstd::arithmetic::div_mod::lemma_fundamental_div_mod;
use vstd::prelude::*;

verus! {

/// What came back from a query: a payload, or why there was none.
pub type Reply = Result<Seq<u8>, Seq<char>>;

/// The result code in the reply to a stage's query, if the payload holds such a reply.
pub open spec fn result_code(stage: TransferStage, payload: Seq<u8>) -> Option<u8> {
    match stage {
        TransferStage::Info => match info_reply(payload) {
            Some((code, _)) => Some(code),
            None => None,
        },
        TransferStage::Prepare { .. } => prepare_reply(payload),
        TransferStage::Chunk { .. } => chunk_reply(payload),
        TransferStage::Commit { .. } => commit_reply(payload),
        TransferStage::Status { .. } => status_reply(payload),
    }
}

/// The reply says that the vehicle has accepted the query or is carrying it out.
pub open spec fn accepted(stage: TransferStage, reply: Reply) -> bool {
    match reply {
        Ok(payload) => result_code(stage, payload) == Some(0u8) || result_code(stage, payload)
            == Some(5u8),
        Err(_) => false,
    }
}

/// What came back from a query, as its bytes or as the words of an error.
pub open spec fn came_back(reply: Result<Vec<u8>, String>) -> Reply {
    match reply {
        Ok(payload) => Ok(payload@),
        Err(message) => Err(message@),
    }
}

/// The transfer has failed with the message.
pub open spec fn failed_with(outcome: TransferOutcome, message: Seq<char>) -> bool {
    outcome is Failed && outcome->Failed_0.message@ == message
}

/// Why a reply does not let the transfer go on, where it comes from the given operation and its
/// table has the given name.
pub open spec fn fault(
    stage: TransferStage,
    reply: Reply,
    table: Seq<char>,
    operation: Seq<char>,
) -> Seq<char> {
    match reply {
        Err(message) => message,
        Ok(payload) => match result_code(stage, payload) {
            None => "decode "@ + table,
            Some(code) => operation + " rejected with firmware result code "@ + code_text(code),
        },
    }
}

/// A reply that does not accept its query ends the transfer with an error that names the cause;
/// only a chunk is sent again, as often as there are retries. Nothing is reported.
pub proof fn lemma_refused_queries(
    plan: TransferPlan,
    stage: TransferStage,
    reply: Result<Vec<u8>, String>,
    step: TransferStep,
)
    requires
        plan.reaches(stage),
        call_ensures(transfer_step, (&plan, stage, reply), step),
        !accepted(stage, came_back(reply)),
    ensures
        step.progress@.len() == 0,
        match stage {
            TransferStage::Info => failed_with(
                step.outcome,
                fault(stage, came_back(reply), "FirmwareInfoReply"@, "info"@),
            ),
            TransferStage::Prepare { .. } => failed_with(
                step.outcome,
                fault(stage, came_back(reply), "FirmwarePrepareReply"@, "prepare"@),
            ),
            TransferStage::Chunk { chunk_size, index, attempt } => if attempt < plan.retries {
                step.outcome == TransferOutcome::Next(
                    TransferStage::Chunk { chunk_size, index, attempt: (attempt + 1) as u32 },
                )
            } else {
                failed_with(step.outcome, "chunk "@ + decimal_text(index as nat) + " failed"@)
            },
            TransferStage::Commit { .. } => failed_with(
                step.outcome,
                fault(stage, came_back(reply), "FirmwareCommitReply"@, "commit"@),
            ),
            TransferStage::Status { .. } => failed_with(
                step.outcome,
                fault(stage, came_back(reply), "FirmwareStatusReply"@, "status"@),
            ),
        },
{
    assert(reports(step.progress@).len() == step.progress@.len());
}

/// An accepted query leads to the next one: after the info query the announcement, with a chunk
/// size that suits both sides, then every chunk, the commit, and the status query, after which the
/// transfer is complete.
pub proof fn lemma_accepted_queries(
    plan: TransferPlan,
    stage: TransferStage,
    reply: Result<Vec<u8>, String>,
    step: TransferStep,
)
    requires
        plan.well_formed(),
        plan.reaches(stage),
        call_ensures(transfer_step, (&plan, stage, reply), step),
        accepted(stage, came_back(reply)),
    ensures
        ({
            let length = plan.image@.len();
            match stage {
                TransferStage::Info => {
                    let limit = (info_reply(came_back(reply)->Ok_0)->0).1;
                    &&& step.outcome is Next
                    &&& step.outcome->Next_0 is Prepare
                    &&& ({
                        let agreed = step.outcome->Next_0->Prepare_chunk_size;
                        &&& agreed >= 128
                        &&& plan.chunk_size >= 128 ==> agreed <= plan.chunk_size
                        &&& limit >= 128 ==> agreed <= limit
                        &&& agreed == 128 || agreed == limit || agreed == plan.chunk_size
                        &&& limit == 0 && plan.chunk_size >= 128 ==> agreed == plan.chunk_size
                        &&& limit >= plan.chunk_size >= 128 ==> agreed == plan.chunk_size
                        &&& plan.chunk_size >= limit >= 128 ==> agreed == limit
                    })
                },
                TransferStage::Prepare { chunk_size } => step.outcome == TransferOutcome::Next(
                    TransferStage::Chunk { chunk_size, index: 0, attempt: 1 },
                ),
                TransferStage::Chunk { chunk_size, index, .. } => step.outcome
                    == TransferOutcome::Next(
                    if (index + 1) * chunk_size < length {
                        TransferStage::Chunk {
                            chunk_size,
                            index: (index + 1) as usize,
                            attempt: 1,
                        }
                    } else {
                        TransferStage::Commit { chunk_size }
                    },
                ),
                TransferStage::Commit { chunk_size } => step.outcome == TransferOutcome::Next(
                    TransferStage::Status { chunk_size },
                ),
                TransferStage::Status { chunk_size } => {
                    &&& step.outcome is Complete
                    &&& step.outcome->Complete_0.image_sha256@ == plan.image_sha256@
                    &&& (step.outcome->Complete_0.chunk_count - 1) * chunk_size < length
                    &&& length <= step.outcome->Complete_0.chunk_count * chunk_size
                },
            }
        }),
{
    let length = plan.image@.len() as int;
    match stage {
        TransferStage::Chunk { chunk_size, index, .. } => {
            lemma_places(length, chunk_size as int, index + 1);
        },
        TransferStage::Status { chunk_size } => {
            let count = chunk_count(length, chunk_size as int);
            lemma_chunk_count(length, chunk_size as int);
            lemma_places(length, chunk_size as int, count - 1);
            lemma_places(length, chunk_size as int, count);
        },
        _ => {},
    }
}

proof fn lemma_places(length: int, chunk_size: int, index: int)
    requires
        length > 0,
        chunk_size > 0,
        0 <= index,
    ensures
        index < chunk_count(length, chunk_size) <==> index * chunk_size < length,
{
    let quotient = (length - 1) / chunk_size;
    lemma_fundamental_div_mod(length - 1, chunk_size);
    if index <= quotient {
        lemma_chunk_bounds(length, chunk_size, index);
    } else {
        assert(chunk_size * quotient + chunk_size <= index * chunk_size) by (nonlinear_arith)
            requires
                quotient + 1 <= index,
                chunk_size > 0,
        ;
    }
}

/// What is reported of an accepted query: the phase it ends, and how far the transfer is. Chunks
/// take the progress from five to ninety percent; the commit, the last chunk's report before it,
/// and the end have their own.
pub proof fn lemma_reported_progress(
    plan: TransferPlan,
    stage: TransferStage,
    reply: Result<Vec<u8>, String>,
    step: TransferStep,
)
    requires
        plan.well_formed(),
        plan.reaches(stage),
        call_ensures(transfer_step, (&plan, stage, reply), step),
        accepted(stage, came_back(reply)),
    ensures
        ({
            let length = plan.image@.len() as int;
            let told = reports(step.progress@);
            match stage {
                TransferStage::Info => told.len() == 0,
                TransferStage::Prepare { .. } => told == seq![
                    Report {
                        phase: "prepare"@,
                        percent: 5,
                        message: "Firmware update prepared."@,
                    },
                ],
                TransferStage::Chunk { chunk_size, index, .. } => {
                    &&& told.len() == if (index + 1) * chunk_size < length {
                        1int
                    } else {
                        2
                    }
                    &&& told[0].phase == "chunk"@
                    &&& 5 <= told[0].percent <= 90
                    &&& exists|count: int|
                        (count - 1) * chunk_size < length && length <= #[trigger] (count
                            * chunk_size) && told[0].message == "Chunk "@ + decimal_text(
                            (index + 1) as nat,
                        ) + "/"@ + decimal_text(count as nat) + " accepted."@ && (told[0].percent
                            - 5) * count <= (index + 1) * 85 && (index + 1) * 85 < (
                        told[0].percent - 4) * count
                    &&& told.len() == 2 ==> told[1] == (Report {
                        phase: "commit"@,
                        percent: 92,
                        message: "Finalizing firmware update."@,
                    })
                },
                TransferStage::Commit { .. } => told == seq![
                    Report {
                        phase: "commit"@,
                        percent: 96,
                        message: "Firmware image committed."@,
                    },
                ],
                TransferStage::Status { .. } => told == seq![
                    Report {
                        phase: "complete"@,
                        percent: 100,
                        message: "Firmware update transfer complete."@,
                    },
                ],
            }
        }),
{
    let length = plan.image@.len() as int;
    if let TransferStage::Chunk { chunk_size, index, .. } = stage {
        let size = chunk_size as int;
        let count = chunk_count(length, size);
        lemma_chunk_count(length, size);
        lemma_places(length, size, index + 1);
        lemma_places(length, size, count - 1);
        lemma_places(length, size, count);
        let scaled = (index + 1) * 85;
        lemma_fundamental_div_mod(scaled, count);
        let share = scaled / count;
        assert(0 <= share <= 85) by (nonlinear_arith)
            requires
                share == ((index + 1) * 85) / count,
                0 <= index < count,
        ;
        assert(share * count <= scaled) by (nonlinear_arith)
            requires
                scaled == count * share + scaled % count,
                scaled % count >= 0,
        ;
        assert(scaled < (share + 1) * count) by (nonlinear_arith)
            requires
                scaled == count * share + scaled % count,
                scaled % count < count,
        ;
        let told = reports(step.progress@);
        assert(told[0].percent == 5 + share);
        assert(length <= count * chunk_size);
    }
}

/// Every query stands under the service's key followed by its operation, and carries what it is
/// for: the announcement describes the image and its digests, and a chunk carries the bytes from
/// its index times the chunk size on, as many as there are up to the chunk size, with their digest.
pub proof fn lemma_queries_carry_the_image(
    plan: TransferPlan,
    stage: TransferStage,
    request: TransferRequest,
)
    requires
        plan.well_formed(),
        plan.reaches(stage),
        plan.image@.len() <= u32::MAX,
        plan.chunk_size <= u32::MAX,
        call_ensures(transfer_request, (&plan, stage), request),
    ensures
        exists|service: Seq<char>, slashes: nat|
            {
                &&& plan.key_prefix@ == #[trigger] (service + repeated('/', slashes))
                &&& service.len() > 0 ==> service.last() != '/'
                &&& request.key@ == service + "_"@ + match stage {
                    TransferStage::Info => "info"@,
                    TransferStage::Prepare { .. } => "prepare"@,
                    TransferStage::Chunk { .. } => "chunk"@,
                    TransferStage::Commit { .. } => "commit"@,
                    TransferStage::Status { .. } => "status"@,
                }
            },
        ({
            let image = plan.image@;
            match stage {
                TransferStage::Info => request.payload@ == info_request_bytes(plan.target@),
                TransferStage::Prepare { chunk_size } => exists|count: u32|
                    (count - 1) * chunk_size < image.len() && image.len() <= count * chunk_size
                        && request.payload@ == #[trigger] prepare_request_bytes(
                        (PrepareTable {
                            update_id: Some(plan.update_id@),
                            target: Some(plan.target@),
                            board_id: Some(plan.board_id@),
                            version: Some(plan.version@),
                            image_size: image.len() as u64,
                            image_sha256: Some(plan.image_sha256@),
                            selective_sha256: Some(plan.selective_sha256@),
                            requested_chunk_size: chunk_size as u32,
                            chunk_count: count,
                            signature: None,
                            manifest: Some(plan.trusted_manifest@),
                        }),
                    ),
                TransferStage::Chunk { chunk_size, index, .. } => {
                    let start = index * chunk_size;
                    let end = if start + chunk_size < image.len() {
                        start + chunk_size
                    } else {
                        image.len() as int
                    };
                    &&& start < end
                    &&& request.payload@ == chunk_request_bytes(
                        (ChunkTable {
                            update_id: Some(plan.update_id@),
                            chunk_index: index as u32,
                            offset: start as u64,
                            data: Some(image.subrange(start, end)),
                            chunk_sha256: Some(sha256_text(image.subrange(start, end))),
                            final_chunk: end == image.len(),
                        }),
                    )
                },
                TransferStage::Commit { .. } => request.payload@ == commit_request_bytes(
                    (CommitTable {
                        update_id: Some(plan.update_id@),
                        image_sha256: Some(plan.image_sha256@),
                    }),
                ),
                TransferStage::Status { .. } => request.payload@ == status_request_bytes(
                    plan.update_id@,
                ),
            }
        }),
{
    let length = plan.image@.len() as int;
    lemma_without_trailing(plan.key_prefix@, '/');
    let service = crate::text::without_trailing(plan.key_prefix@, '/');
    let slashes = (plan.key_prefix@.len() - service.len()) as nat;
    assert(plan.key_prefix@ == service + repeated('/', slashes));
    match stage {
        TransferStage::Prepare { chunk_size } => {
            let count = chunk_count(length, chunk_size as int);
            lemma_chunk_count(length, chunk_size as int);
            lemma_places(length, chunk_size as int, count - 1);
            lemma_places(length, chunk_size as int, count);
            assert((count as u32 - 1) * chunk_size < length);
            assert(length <= count as u32 * chunk_size);
        },
        TransferStage::Chunk { chunk_size, index, .. } => {
            lemma_chunk_bounds(length, chunk_size as int, index as int);
            lemma_chunk_count(length, chunk_size as int);
            lemma_places(length, chunk_size as int, index + 1);
            let start = index * chunk_size;
            let end = chunk_end(length, chunk_size as int, index as int);
            assert(end == if start + chunk_size < length { start + chunk_size } else { length });
        },
        _ => {},
    }
}

/// A reply is taken exactly when it could be read and its code says that the operation was accepted
/// or is being carried out; an info reply then gives the largest chunk size. What is said otherwise
/// names the table or the operation and its code.
pub proof fn lemma_replies(
    code: Option<u8>,
    largest: u32,
    table: Seq<char>,
    operation: Seq<char>,
)
    ensures
        reply_message(code, table, operation) is None <==> code == Some(0u8) || code == Some(5u8),
        code is None ==> reply_message(code, table, operation) == Some("decode "@ + table),
        code is Some && code->0 != 0 && code->0 != 5 ==> reply_message(code, table, operation)
            == Some(operation + " rejected with firmware result code "@ + code_text(code->0)),
        is_accepted(code->0) <==> code->0 == 0 || code->0 == 5,
        rejection_text(code->0, operation) == operation + " rejected with firmware result code "@
            + code_text(code->0),
        info_outcome(None) == Err::<u32, Seq<char>>("decode "@ + "FirmwareInfoReply"@),
        code is Some ==> info_outcome(Some((code->0, largest))) == if code->0 == 0 || code->0
            == 5 {
            Ok::<u32, Seq<char>>(largest)
        } else {
            Err("info"@ + " rejected with firmware result code "@ + code_text(code->0))
        },
{
}

// ---------------------------------------------------------------------------------------------
// Whole transfers
// ---------------------------------------------------------------------------------------------

/// The stages of a transfer with what came back from their queries, each stage the one that the
/// reply before it led to.
pub open spec fn is_run(plan: TransferPlan, history: Seq<(TransferStage, Reply)>) -> bool {
    &&& history.len() > 0
    &&& history[0].0 == TransferStage::Info
    &&& forall|i: int|
        0 <= i < history.len() - 1 ==> step_of(
            plan,
            (#[trigger] history[i]).0,
            judged(history[i].0, history[i].1),
        ).1 == Outcome::Next(history[i + 1].0)
}

/// The query at this place of the transfer was accepted.
pub open spec fn granted(history: Seq<(TransferStage, Reply)>, at: int) -> bool {
    accepted(history[at].0, history[at].1)
}

/// An info query was accepted before the place.
pub open spec fn info_granted(history: Seq<(TransferStage, Reply)>, before: int) -> bool {
    exists|i: int| 0 <= i < before && #[trigger] granted(history, i) && history[i].0 is Info
}

/// An announcement was accepted before the place.
pub open spec fn prepare_granted(history: Seq<(TransferStage, Reply)>, before: int) -> bool {
    exists|i: int| 0 <= i < before && #[trigger] granted(history, i) && history[i].0 is Prepare
}

/// The chunk with the given index was accepted before the place.
pub open spec fn chunk_granted(
    history: Seq<(TransferStage, Reply)>,
    before: int,
    chunk_size: usize,
    index: int,
) -> bool {
    exists|i: int|
        0 <= i < before && #[trigger] granted(history, i) && history[i].0 is Chunk
            && history[i].0->Chunk_chunk_size == chunk_size && history[i].0->Chunk_index == index
}

/// A commit was accepted before the place.
pub open spec fn commit_granted(history: Seq<(TransferStage, Reply)>, before: int) -> bool {
    exists|i: int| 0 <= i < before && #[trigger] granted(history, i) && history[i].0 is Commit
}

proof fn lemma_granted_later(history: Seq<(TransferStage, Reply)>, chunk_size: usize, at: int)
    ensures
        info_granted(history, at) ==> info_granted(history, at + 1),
        prepare_granted(history, at) ==> prepare_granted(history, at + 1),
        commit_granted(history, at) ==> commit_granted(history, at + 1),
        forall|index: int| #[trigger]
            chunk_granted(history, at, chunk_size, index) ==> chunk_granted(
                history,
                at + 1,
                chunk_size,
                index,
            ),
{
}

proof fn lemma_so_far(plan: TransferPlan, history: Seq<(TransferStage, Reply)>, at: int)
    requires
        plan.well_formed(),
        is_run(plan, history),
        0 <= at < history.len(),
    ensures
        plan.reaches(history[at].0),
        ({
            let length = plan.image@.len();
            match history[at].0 {
                TransferStage::Info => true,
                TransferStage::Prepare { .. } => info_granted(history, at),
                TransferStage::Chunk { chunk_size, index, .. } => {
                    &&& info_granted(history, at)
                    &&& prepare_granted(history, at)
                    &&& forall|i: int|
                        0 <= i < index ==> #[trigger] chunk_granted(history, at, chunk_size, i)
                },
                TransferStage::Commit { chunk_size } => {
                    &&& info_granted(history, at)
                    &&& prepare_granted(history, at)
                    &&& forall|i: int|
                        0 <= i && i * chunk_size < length ==> #[trigger] chunk_granted(
                            history,
                            at,
                            chunk_size,
                            i,
                        )
                },
                TransferStage::Status { chunk_size } => {
                    &&& info_granted(history, at)
                    &&& prepare_granted(history, at)
                    &&& commit_granted(history, at)
                    &&& forall|i: int|
                        0 <= i && i * chunk_size < length ==> #[trigger] chunk_granted(
                            history,
                            at,
                            chunk_size,
                            i,
                        )
                },
            }
        }),
    decreases at,
{
    let length = plan.image@.len() as int;
    if at > 0 {
        let before = at - 1;
        lemma_so_far(plan, history, before);
        let (stage, reply) = history[before];
        crate::transfer::lemma_transfer_ends(plan, stage, judged(stage, reply));
        assert(step_of(plan, stage, judged(stage, reply)).1 == Outcome::Next(history[at].0));
        if accepted(stage, reply) {
            assert(granted(history, before));
        }
        match stage {
            TransferStage::Chunk { chunk_size, index, .. } => {
                lemma_granted_later(history, chunk_size, before);
                lemma_places(length, chunk_size as int, index + 1);
                if accepted(stage, reply) {
                    assert(chunk_granted(history, at, chunk_size, index as int));
                    assert forall|i: int| 0 <= i <= index implies #[trigger] chunk_granted(
                        history,
                        at,
                        chunk_size,
                        i,
                    ) by {
                        if i < index {
                            assert(chunk_granted(history, before, chunk_size, i));
                        }
                    }
                    if index + 1 == chunk_count(length, chunk_size as int) {
                        assert forall|i: int|
                            0 <= i && i * chunk_size < length implies #[trigger] chunk_granted(
                            history,
                            at,
                            chunk_size,
                            i,
                        ) by {
                            lemma_places(length, chunk_size as int, i);
                        }
                    }
                } else {
                    assert forall|i: int| 0 <= i < index implies #[trigger] chunk_granted(
                        history,
                        at,
                        chunk_size,
                        i,
                    ) by {
                        assert(chunk_granted(history, before, chunk_size, i));
                    }
                }
            },
            TransferStage::Commit { chunk_size } => {
                lemma_granted_later(history, chunk_size, before);
                assert(commit_granted(history, at));
                assert forall|i: int|
                    0 <= i && i * chunk_size < length implies #[trigger] chunk_granted(
                    history,
                    at,
                    chunk_size,
                    i,
                ) by {
                    assert(chunk_granted(history, before, chunk_size, i));
                }
            },
            TransferStage::Info => {
                assert(info_granted(history, at));
            },
            TransferStage::Prepare { chunk_size } => {
                lemma_granted_later(history, chunk_size, before);
                assert(prepare_granted(history, at));
            },
            TransferStage::Status { .. } => {},
        }
    }
}

/// A transfer that is complete had its info query, its announcement, every chunk, its commit and
/// its status query accepted by the vehicle.
pub proof fn lemma_complete_transfers_were_accepted(
    plan: TransferPlan,
    history: Seq<(TransferStage, Reply)>,
)
    requires
        plan.well_formed(),
        is_run(plan, history),
        step_of(
            plan,
            history.last().0,
            judged(history.last().0, history.last().1),
        ).1 is Complete,
    ensures
        history.last().0 is Status,
        accepted(history.last().0, history.last().1),
        info_granted(history, history.len() as int),
        prepare_granted(history, history.len() as int),
        commit_granted(history, history.len() as int),
        forall|index: int|
            0 <= index && index * history.last().0->Status_chunk_size < plan.image@.len()
                ==> #[trigger] chunk_granted(
                history,
                history.len() as int,
                history.last().0->Status_chunk_size,
                index,
            ),
        step_of(
            plan,
            history.last().0,
            judged(history.last().0, history.last().1),
        ).1->image_sha256 == plan.image_sha256@,
{
    let at = history.len() - 1;
    lemma_so_far(plan, history, at);
    let (stage, reply) = history[at];
    assert(stage is Status);
    let chunk_size = stage->Status_chunk_size;
    lemma_granted_later(history, chunk_size, at);
    assert forall|index: int|
        0 <= index && index * chunk_size < plan.image@.len() implies #[trigger] chunk_granted(
        history,
        history.len() as int,
        chunk_size,
        index,
    ) by {
        assert(chunk_granted(history, at, chunk_size, index));
    }
}

/// A judged reply is taken for what it is.
pub proof fn lemma_judged_replies(largest: u32, error: FirmwareError)
    ensures
        judgement(Ok(largest)) == Ok::<u32, Seq<char>>(largest),
        judgement(Err(error)) == Err::<u32, Seq<char>>(error.message@),
{
}

} // verus!
