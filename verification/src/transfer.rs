//! The transfer of a firmware image to a vehicle: which query comes next, and what its reply means.

use crate::digest::{full_sha256, sha256_text, DIGEST_TEXT};
use crate::parameters::{excised, selective_sha256, ParameterRegion};
use crate::tables::{
    accept_chunk_reply, accept_commit_reply, accept_info_reply, accept_prepare_reply,
    accept_status_reply, build_chunk_request_with_hash, build_commit_request, build_info_request,
    build_prepare_request, build_status_request, chunk_fields, chunk_reply, chunk_request_bytes,
    commit_reply, commit_request_bytes, info_reply, info_request_bytes, prepare_fields,
    prepare_reply, prepare_request_bytes, reply_message, status_reply, status_request_bytes,
    CommitTable, FirmwareError, TABLE_CAPACITY,
};
use crate::text::{byte_length, decimal, decimal_text, drop_trailing, joined, without_trailing};
use vstd::arithmetic::div_mod::lemma_fundamental_div_mod;
use vstd::prelude::*;
use vstd::slice::{slice_subrange, slice_to_vec};

verus! {

/// How images are sent to a vehicle.
#[derive(Clone, Debug)]
pub struct TransferConfig {
    pub key_prefix: String,
    pub target: String,
    pub board_id: String,
    pub chunk_size: usize,
    pub retries: u32,
    pub timeout_ms: u64,
}

/// What a finished transfer carried.
#[derive(Clone, Debug, PartialEq, Eq)]
pub struct TransferResult {
    pub image_sha256: String,
    pub chunk_count: usize,
}

/// One image on its way to a vehicle.
#[derive(Debug)]
pub struct TransferPlan {
    pub key_prefix: String,
    pub target: String,
    pub board_id: String,
    pub chunk_size: usize,
    pub retries: u32,
    pub update_id: String,
    pub version: String,
    pub image: Vec<u8>,
    pub image_sha256: String,
    pub selective_sha256: String,
    pub trusted_manifest: String,
}

/// The query that a transfer is at.
#[derive(Clone, Copy, Debug, PartialEq, Eq, Structural)]
pub enum TransferStage {
    Info,
    Prepare { chunk_size: usize },
    Chunk { chunk_size: usize, index: usize, attempt: u32 },
    Commit { chunk_size: usize },
    Status { chunk_size: usize },
}

/// A query to the vehicle.
#[derive(Debug, PartialEq, Eq)]
pub struct TransferRequest {
    pub key: String,
    pub payload: Vec<u8>,
}

/// What a watcher of the transfer is told.
#[derive(Debug, PartialEq, Eq)]
pub struct TransferProgress {
    pub phase: String,
    pub percent: u8,
    pub message: String,
}

/// Where a reply leaves the transfer.
#[derive(Debug, PartialEq, Eq)]
pub enum TransferOutcome {
    Next(TransferStage),
    Complete(TransferResult),
    Failed(FirmwareError),
}

/// What follows from a reply.
#[derive(Debug, PartialEq, Eq)]
pub struct TransferStep {
    pub progress: Vec<TransferProgress>,
    pub outcome: TransferOutcome,
}

/// The texts and numbers of a progress report.
pub ghost struct Report {
    pub phase: Seq<char>,
    pub percent: u8,
    pub message: Seq<char>,
}

/// The texts and numbers of an outcome.
pub ghost enum Outcome {
    Next(TransferStage),
    Complete { image_sha256: Seq<char>, chunk_count: int },
    Failed(Seq<char>),
}

/// The smallest chunk that is sent.
pub const SMALLEST_CHUNK: usize = 128;

impl View for TransferProgress {
    type V = Report;

    open spec fn view(&self) -> Report {
        Report { phase: self.phase@, percent: self.percent, message: self.message@ }
    }
}

impl View for TransferOutcome {
    type V = Outcome;

    open spec fn view(&self) -> Outcome {
        match *self {
            TransferOutcome::Next(stage) => Outcome::Next(stage),
            TransferOutcome::Complete(result) => Outcome::Complete {
                image_sha256: result.image_sha256@,
                chunk_count: result.chunk_count as int,
            },
            TransferOutcome::Failed(error) => Outcome::Failed(error.message@),
        }
    }
}

/// The reports of a list.
pub open spec fn reports(progress: Seq<TransferProgress>) -> Seq<Report> {
    progress.map_values(|item: TransferProgress| item@)
}

/// The key of one operation of the firmware service.
pub open spec fn service_key(prefix: Seq<char>, operation: Seq<char>) -> Seq<char> {
    without_trailing(prefix, '/') + "_"@ + operation
}

/// The key of one operation of the firmware service.
pub fn firmware_key(prefix: &str, operation: &str) -> (key: String)
    ensures
        key@ == service_key(prefix@, operation@),
{
    let service = drop_trailing(prefix, '/');
    joined(joined(service.as_str(), "_").as_str(), operation)
}

/// The larger of the configured chunk size and the smallest one.
pub open spec fn chunk_ceiling(configured: int) -> int {
    if configured < SMALLEST_CHUNK {
        SMALLEST_CHUNK as int
    } else {
        configured
    }
}

/// The chunk size that suits the receiver; `receiver_max` is zero where it names no limit.
pub open spec fn agreed_chunk_size(configured: int, receiver_max: int) -> int {
    if 0 < receiver_max < configured {
        chunk_ceiling(receiver_max)
    } else {
        chunk_ceiling(configured)
    }
}

/// The number of chunks that an image of `length` bytes takes.
pub open spec fn chunk_count(length: int, chunk_size: int) -> int {
    (length - 1) / chunk_size + 1
}

/// Where the chunk with the given index ends.
pub open spec fn chunk_end(length: int, chunk_size: int, index: int) -> int {
    if (index + 1) * chunk_size <= length {
        (index + 1) * chunk_size
    } else {
        length
    }
}

/// The bytes of the chunk with the given index.
pub open spec fn chunk_data(image: Seq<u8>, chunk_size: int, index: int) -> Seq<u8> {
    image.subrange(index * chunk_size, chunk_end(image.len() as int, chunk_size, index))
}

/// The progress that goes with an accepted chunk.
pub open spec fn chunk_percent(index: int, count: int) -> int {
    let percent = 5 + ((index + 1) * 85) / count;
    if percent < 90 {
        percent
    } else {
        90
    }
}

/// How often one chunk is sent at most.
pub open spec fn attempts(retries: int) -> int {
    if retries < 1 {
        1
    } else {
        retries
    }
}

impl TransferPlan {
    /// The image is not empty, and every table of the transfer can be written.
    pub open spec fn well_formed(self) -> bool {
        &&& 0 < self.image@.len() <= usize::MAX
        &&& byte_length(self.image_sha256@) == DIGEST_TEXT
        &&& byte_length(self.selective_sha256@) == DIGEST_TEXT
        &&& fits_tables(
            self.update_id@,
            self.target@,
            self.board_id@,
            self.version@,
            self.trusted_manifest@,
            self.chunk_size as int,
            self.image@.len() as int,
        )
    }

    /// The stage can be reached in this transfer.
    pub open spec fn reaches(self, stage: TransferStage) -> bool {
        let length = self.image@.len() as int;
        match stage {
            TransferStage::Info => true,
            TransferStage::Prepare { chunk_size }
            | TransferStage::Commit { chunk_size }
            | TransferStage::Status { chunk_size } => self.suits(chunk_size as int),
            TransferStage::Chunk { chunk_size, index, attempt } => {
                &&& self.suits(chunk_size as int)
                &&& index < chunk_count(length, chunk_size as int)
                &&& 1 <= attempt <= attempts(self.retries as int)
            },
        }
    }

    /// The chunk size is one that can be agreed on.
    pub open spec fn suits(self, chunk_size: int) -> bool {
        SMALLEST_CHUNK <= chunk_size <= chunk_ceiling(self.chunk_size as int)
    }
}

/// Every table of a transfer with these texts and sizes can be written.
pub open spec fn fits_tables(
    update_id: Seq<char>,
    target: Seq<char>,
    board_id: Seq<char>,
    version: Seq<char>,
    trusted_manifest: Seq<char>,
    chunk_size: int,
    length: int,
) -> bool {
    &&& byte_length(update_id) + byte_length(target) + byte_length(board_id) + byte_length(version)
        + byte_length(trusted_manifest) + 2 * DIGEST_TEXT <= TABLE_CAPACITY
    &&& byte_length(update_id) + DIGEST_TEXT + if chunk_ceiling(chunk_size) < length {
        chunk_ceiling(chunk_size)
    } else {
        length
    } <= TABLE_CAPACITY
}

/// What `begin_transfer` reports before the first query.
pub open spec fn connect_report() -> Report {
    Report { phase: "connect"@, percent: 0, message: "Checking firmware update service."@ }
}

fn report(phase: &str, percent: u8, message: String) -> (progress: TransferProgress)
    ensures
        progress@ == (Report { phase: phase@, percent, message: message@ }),
{
    TransferProgress { phase: phase.to_owned(), percent, message }
}

/// Plans the transfer of an already validated image. The first stage is `TransferStage::Info`.
pub fn begin_transfer(
    config: &TransferConfig,
    update_id: &str,
    version: &str,
    image: &[u8],
    regions: &[ParameterRegion],
    trusted_manifest: &str,
) -> (result: Result<(TransferPlan, TransferProgress), FirmwareError>)
    requires
        fits_tables(
            update_id@,
            config.target@,
            config.board_id@,
            version@,
            trusted_manifest@,
            config.chunk_size as int,
            image@.len() as int,
        ),
    ensures
        result is Err == (image@.len() == 0),
        result is Err ==> result->Err_0.message@ == "firmware image is empty"@,
        result is Ok ==> {
            let plan = result->Ok_0.0;
            &&& plan.well_formed()
            &&& plan.key_prefix@ == config.key_prefix@
            &&& plan.target@ == config.target@
            &&& plan.board_id@ == config.board_id@
            &&& plan.chunk_size == config.chunk_size
            &&& plan.retries == config.retries
            &&& plan.update_id@ == update_id@
            &&& plan.version@ == version@
            &&& plan.image@ == image@
            &&& plan.image_sha256@ == sha256_text(image@)
            &&& plan.selective_sha256@ == sha256_text(excised(image@, regions@))
            &&& plan.trusted_manifest@ == trusted_manifest@
            &&& result->Ok_0.1@ == connect_report()
        },
{
    let length: usize = image.len();
    if length == 0 {
        return Err(FirmwareError { message: "firmware image is empty".to_owned() });
    }
    let plan = TransferPlan {
        key_prefix: config.key_prefix.clone(),
        target: config.target.clone(),
        board_id: config.board_id.clone(),
        chunk_size: config.chunk_size,
        retries: config.retries,
        update_id: update_id.to_owned(),
        version: version.to_owned(),
        image: slice_to_vec(image),
        image_sha256: full_sha256(image),
        selective_sha256: selective_sha256(image, regions),
        trusted_manifest: trusted_manifest.to_owned(),
    };
    let progress = report("connect", 0, "Checking firmware update service.".to_owned());
    Ok((plan, progress))
}

/// The key of the query that a stage stands for.
pub open spec fn request_key(plan: TransferPlan, stage: TransferStage) -> Seq<char> {
    service_key(
        plan.key_prefix@,
        match stage {
            TransferStage::Info => "info"@,
            TransferStage::Prepare { .. } => "prepare"@,
            TransferStage::Chunk { .. } => "chunk"@,
            TransferStage::Commit { .. } => "commit"@,
            TransferStage::Status { .. } => "status"@,
        },
    )
}

/// The payload of the query that a stage stands for.
pub open spec fn request_payload(plan: TransferPlan, stage: TransferStage) -> Seq<u8> {
    let length = plan.image@.len() as int;
    match stage {
        TransferStage::Info => info_request_bytes(plan.target@),
        TransferStage::Prepare { chunk_size } => prepare_request_bytes(
            prepare_fields(
                plan.update_id@,
                plan.target@,
                plan.board_id@,
                plan.version@,
                length,
                plan.image_sha256@,
                plan.selective_sha256@,
                plan.trusted_manifest@,
                chunk_size as int,
                chunk_count(length, chunk_size as int),
            ),
        ),
        TransferStage::Chunk { chunk_size, index, attempt } => chunk_request_bytes(
            chunk_fields(
                plan.update_id@,
                index as int,
                index * chunk_size,
                chunk_data(plan.image@, chunk_size as int, index as int),
                index + 1 == chunk_count(length, chunk_size as int),
            ),
        ),
        TransferStage::Commit { chunk_size } => commit_request_bytes(
            (CommitTable {
                update_id: Some(plan.update_id@),
                image_sha256: Some(plan.image_sha256@),
            }),
        ),
        TransferStage::Status { chunk_size } => status_request_bytes(plan.update_id@),
    }
}

pub(crate) proof fn lemma_chunk_bounds(length: int, chunk_size: int, index: int)
    requires
        length > 0,
        chunk_size > 0,
        0 <= index < chunk_count(length, chunk_size),
    ensures
        0 <= index * chunk_size < length,
        index * chunk_size < chunk_end(length, chunk_size, index) <= length,
        chunk_end(length, chunk_size, index) <= index * chunk_size + chunk_size,
        (index + 1) * chunk_size == index * chunk_size + chunk_size,
        index + 1 == chunk_count(length, chunk_size) ==> chunk_end(length, chunk_size, index)
            == length,
        index + 1 < chunk_count(length, chunk_size) ==> (index + 1) * chunk_size < length,
        1 <= chunk_count(length, chunk_size) <= length,
{
    let quotient = (length - 1) / chunk_size;
    lemma_fundamental_div_mod(length - 1, chunk_size);
    assert(index * chunk_size <= quotient * chunk_size) by (nonlinear_arith)
        requires
            index <= quotient,
            chunk_size > 0,
    ;
    assert(quotient * chunk_size == chunk_size * quotient) by (nonlinear_arith);
    assert((index + 1) * chunk_size == index * chunk_size + chunk_size) by (nonlinear_arith);
    assert(0 <= index * chunk_size) by (nonlinear_arith)
        requires
            0 <= index,
            chunk_size > 0,
    ;
    assert(quotient <= quotient * chunk_size) by (nonlinear_arith)
        requires
            0 <= index <= quotient,
            chunk_size > 0,
    ;
    if index + 1 < chunk_count(length, chunk_size) {
        assert((index + 1) * chunk_size <= quotient * chunk_size) by (nonlinear_arith)
            requires
                index + 1 <= quotient,
                chunk_size > 0,
        ;
    }
}

pub(crate) fn count_chunks(length: usize, chunk_size: usize) -> (count: usize)
    requires
        length > 0,
        chunk_size > 0,
    ensures
        count == chunk_count(length as int, chunk_size as int),
        1 <= count <= length,
{
    proof {
        lemma_fundamental_div_mod(length - 1, chunk_size as int);
        let quotient = (length - 1) / chunk_size as int;
        assert(0 <= quotient <= length - 1) by (nonlinear_arith)
            requires
                chunk_size > 0,
                length > 0,
                quotient == (length - 1) / chunk_size as int,
        ;
    }
    (length - 1) / chunk_size + 1
}

/// The query that the stage stands for.
pub fn transfer_request(plan: &TransferPlan, stage: TransferStage) -> (request: TransferRequest)
    requires
        plan.well_formed(),
        plan.reaches(stage),
    ensures
        request.key@ == request_key(*plan, stage),
        request.payload@ == request_payload(*plan, stage),
{
    let prefix = plan.key_prefix.as_str();
    let length: usize = plan.image.len();
    match stage {
        TransferStage::Info => TransferRequest {
            key: firmware_key(prefix, "info"),
            payload: build_info_request(plan.target.as_str()),
        },
        TransferStage::Prepare { chunk_size } => TransferRequest {
            key: firmware_key(prefix, "prepare"),
            payload: build_prepare_request(
                plan.update_id.as_str(),
                plan.target.as_str(),
                plan.board_id.as_str(),
                plan.version.as_str(),
                length,
                plan.image_sha256.as_str(),
                plan.selective_sha256.as_str(),
                plan.trusted_manifest.as_str(),
                chunk_size,
                count_chunks(length, chunk_size),
            ),
        },
        TransferStage::Chunk { chunk_size, index, attempt } => {
            proof {
                lemma_chunk_bounds(length as int, chunk_size as int, index as int);
            }
            let count: usize = count_chunks(length, chunk_size);
            let offset: usize = index * chunk_size;
            let end: usize = if chunk_size <= length - offset {
                offset + chunk_size
            } else {
                length
            };
            TransferRequest {
                key: firmware_key(prefix, "chunk"),
                payload: build_chunk_request_with_hash(
                    plan.update_id.as_str(),
                    index,
                    offset,
                    slice_subrange(plan.image.as_slice(), offset, end),
                    index + 1 == count,
                ),
            }
        },
        TransferStage::Commit { chunk_size } => TransferRequest {
            key: firmware_key(prefix, "commit"),
            payload: build_commit_request(plan.update_id.as_str(), plan.image_sha256.as_str()),
        },
        TransferStage::Status { chunk_size } => TransferRequest {
            key: firmware_key(prefix, "status"),
            payload: build_status_request(plan.update_id.as_str()),
        },
    }
}

/// What came back from a query: a payload, or why there was none.
pub open spec fn reply_view(reply: Result<Vec<u8>, String>) -> Result<Seq<u8>, Seq<char>> {
    match reply {
        Ok(payload) => Ok(payload@),
        Err(message) => Err(message@),
    }
}

/// The code of a reply, without what else it holds.
pub open spec fn only_code(reply: Option<(u8, u32)>) -> Option<u8> {
    match reply {
        Some((code, _)) => Some(code),
        None => None,
    }
}

/// What the reply to a stage's query comes to: why it does not let the transfer go on, or the
/// largest chunk size that an info reply names; zero for the others.
pub open spec fn judged(stage: TransferStage, reply: Result<Seq<u8>, Seq<char>>) -> Result<
    u32,
    Seq<char>,
> {
    match reply {
        Err(message) => Err(message),
        Ok(payload) => {
            let fault = match stage {
                TransferStage::Info => reply_message(
                    only_code(info_reply(payload)),
                    "FirmwareInfoReply"@,
                    "info"@,
                ),
                TransferStage::Prepare { .. } => reply_message(
                    prepare_reply(payload),
                    "FirmwarePrepareReply"@,
                    "prepare"@,
                ),
                TransferStage::Chunk { index, .. } => reply_message(
                    chunk_reply(payload),
                    "FirmwareChunkReply"@,
                    "chunk "@ + decimal_text(index as nat),
                ),
                TransferStage::Commit { .. } => reply_message(
                    commit_reply(payload),
                    "FirmwareCommitReply"@,
                    "commit"@,
                ),
                TransferStage::Status { .. } => reply_message(
                    status_reply(payload),
                    "FirmwareStatusReply"@,
                    "status"@,
                ),
            };
            match fault {
                Some(message) => Err(message),
                None => Ok(
                    if stage is Info {
                        (info_reply(payload)->0).1
                    } else {
                        0
                    },
                ),
            }
        },
    }
}

/// The report on an accepted chunk.
pub open spec fn chunk_report(index: int, count: int) -> Report {
    Report {
        phase: "chunk"@,
        percent: chunk_percent(index, count) as u8,
        message: "Chunk "@ + decimal_text((index + 1) as nat) + "/"@ + decimal_text(count as nat)
            + " accepted."@,
    }
}

/// The report before the commit query.
pub open spec fn finalizing_report() -> Report {
    Report { phase: "commit"@, percent: 92, message: "Finalizing firmware update."@ }
}

/// What a judged reply reports and where it leaves the transfer.
pub open spec fn step_of(
    plan: TransferPlan,
    stage: TransferStage,
    judged: Result<u32, Seq<char>>,
) -> (Seq<Report>, Outcome) {
    match judged {
        Err(fault) => match stage {
            TransferStage::Chunk { chunk_size, index, attempt } => if attempt < attempts(
                plan.retries as int,
            ) {
                (
                    Seq::empty(),
                    Outcome::Next(
                        TransferStage::Chunk { chunk_size, index, attempt: (attempt + 1) as u32 },
                    ),
                )
            } else {
                (
                    Seq::empty(),
                    Outcome::Failed("chunk "@ + decimal_text(index as nat) + " failed"@),
                )
            },
            _ => (Seq::empty(), Outcome::Failed(fault)),
        },
        Ok(receiver_max) => accepted_step(plan, stage, receiver_max),
    }
}

/// What an accepted reply reports and where it leaves the transfer.
pub open spec fn accepted_step(
    plan: TransferPlan,
    stage: TransferStage,
    receiver_max: u32,
) -> (Seq<Report>, Outcome) {
    let length = plan.image@.len() as int;
    match stage {
        TransferStage::Info => (
            Seq::empty(),
            Outcome::Next(
                TransferStage::Prepare {
                    chunk_size: agreed_chunk_size(
                        plan.chunk_size as int,
                        receiver_max as int,
                    ) as usize,
                },
            ),
        ),
        TransferStage::Prepare { chunk_size } => (
            seq![
                Report {
                    phase: "prepare"@,
                    percent: 5,
                    message: "Firmware update prepared."@,
                },
            ],
            Outcome::Next(TransferStage::Chunk { chunk_size, index: 0, attempt: 1 }),
        ),
        TransferStage::Chunk { chunk_size, index, attempt } => {
            let count = chunk_count(length, chunk_size as int);
            if index + 1 < count {
                (
                    seq![chunk_report(index as int, count)],
                    Outcome::Next(
                        TransferStage::Chunk {
                            chunk_size,
                            index: (index + 1) as usize,
                            attempt: 1,
                        },
                    ),
                )
            } else {
                (
                    seq![chunk_report(index as int, count), finalizing_report()],
                    Outcome::Next(TransferStage::Commit { chunk_size }),
                )
            }
        },
        TransferStage::Commit { chunk_size } => (
            seq![
                Report {
                    phase: "commit"@,
                    percent: 96,
                    message: "Firmware image committed."@,
                },
            ],
            Outcome::Next(TransferStage::Status { chunk_size }),
        ),
        TransferStage::Status { chunk_size } => (
            seq![
                Report {
                    phase: "complete"@,
                    percent: 100,
                    message: "Firmware update transfer complete."@,
                },
            ],
            Outcome::Complete {
                image_sha256: plan.image_sha256@,
                chunk_count: chunk_count(length, chunk_size as int),
            },
        ),
    }
}

fn chunk_operation(index: usize) -> (operation: String)
    ensures
        operation@ == "chunk "@ + decimal_text(index as nat),
{
    joined("chunk ", decimal(index as u64).as_str())
}

/// What the reply to a stage's query comes to.
pub fn judge_reply(stage: TransferStage, reply: &Result<Vec<u8>, String>) -> (result: Result<
    u32,
    FirmwareError,
>)
    ensures
        match judged(stage, reply_view(*reply)) {
            Ok(receiver_max) => result == Ok::<u32, FirmwareError>(receiver_max),
            Err(message) => result is Err && result->Err_0.message@ == message,
        },
{
    let payload = match reply {
        Ok(payload) => payload.as_slice(),
        Err(message) => return Err(FirmwareError { message: message.clone() }),
    };
    let accepted = match stage {
        TransferStage::Info => return accept_info_reply(payload),
        TransferStage::Prepare { .. } => accept_prepare_reply(payload),
        TransferStage::Chunk { index, .. } => accept_chunk_reply(
            payload,
            chunk_operation(index).as_str(),
        ),
        TransferStage::Commit { .. } => accept_commit_reply(payload),
        TransferStage::Status { .. } => accept_status_reply(payload),
    };
    match accepted {
        Ok(_) => Ok(0),
        Err(error) => Err(error),
    }
}

/// What a judged reply holds.
pub open spec fn judgement(result: Result<u32, FirmwareError>) -> Result<u32, Seq<char>> {
    match result {
        Ok(receiver_max) => Ok(receiver_max),
        Err(error) => Err(error.message@),
    }
}

fn chunk_message(index: usize, count: usize) -> (message: String)
    requires
        index < usize::MAX,
    ensures
        message@ == "Chunk "@ + decimal_text((index + 1) as nat) + "/"@ + decimal_text(
            count as nat,
        ) + " accepted."@,
{
    let start = joined("Chunk ", decimal((index + 1) as u64).as_str());
    let middle = joined(start.as_str(), "/");
    let end = joined(middle.as_str(), decimal(count as u64).as_str());
    joined(end.as_str(), " accepted.")
}

fn percent_of(index: usize, count: usize) -> (percent: u8)
    requires
        index < count,
    ensures
        percent == chunk_percent(index as int, count as int),
{
    let percent: u128 = 5 + ((index as u128 + 1) * 85) / count as u128;
    if percent < 90 {
        percent as u8
    } else {
        90
    }
}

fn one_report(progress: TransferProgress) -> (list: Vec<TransferProgress>)
    ensures
        list@ == seq![progress],
        reports(list@) == seq![progress@],
{
    let mut list: Vec<TransferProgress> = Vec::new();
    list.push(progress);
    assert(reports(list@) =~= seq![progress@]);
    list
}

fn no_report() -> (list: Vec<TransferProgress>)
    ensures
        reports(list@) == Seq::<Report>::empty(),
{
    let list: Vec<TransferProgress> = Vec::new();
    assert(reports(list@) =~= Seq::<Report>::empty());
    list
}

/// Takes the reply to the stage's query.
pub fn transfer_step(
    plan: &TransferPlan,
    stage: TransferStage,
    reply: Result<Vec<u8>, String>,
) -> (step: TransferStep)
    requires
        plan.well_formed(),
        plan.reaches(stage),
    ensures
        (reports(step.progress@), step.outcome@) == step_of(
            *plan,
            stage,
            judged(stage, reply_view(reply)),
        ),
        step.outcome matches TransferOutcome::Next(next) ==> plan.reaches(next),
{
    step_after(plan, stage, judge_reply(stage, &reply))
}

/// Takes the reply to the stage's query, once it is judged.
pub fn step_after(
    plan: &TransferPlan,
    stage: TransferStage,
    judged: Result<u32, FirmwareError>,
) -> (step: TransferStep)
    requires
        plan.well_formed(),
        plan.reaches(stage),
    ensures
        (reports(step.progress@), step.outcome@) == step_of(*plan, stage, judgement(judged)),
        step.outcome matches TransferOutcome::Next(next) ==> plan.reaches(next),
{
    let receiver_max: u32 = match judged {
        Ok(receiver_max) => receiver_max,
        Err(error) => return failed_step(plan, stage, error),
    };
    let length: usize = plan.image.len();
    match stage {
        TransferStage::Info => {
            let limit: usize = receiver_max as usize;
            let wanted: usize = if limit > 0 && limit < plan.chunk_size {
                limit
            } else {
                plan.chunk_size
            };
            let chunk_size: usize = if wanted < SMALLEST_CHUNK {
                SMALLEST_CHUNK
            } else {
                wanted
            };
            TransferStep {
                progress: no_report(),
                outcome: TransferOutcome::Next(TransferStage::Prepare { chunk_size }),
            }
        },
        TransferStage::Prepare { chunk_size } => {
            proof {
                lemma_chunk_bounds(length as int, chunk_size as int, 0);
            }
            TransferStep {
                progress: one_report(
                    report("prepare", 5, "Firmware update prepared.".to_owned()),
                ),
                outcome: TransferOutcome::Next(
                    TransferStage::Chunk { chunk_size, index: 0, attempt: 1 },
                ),
            }
        },
        TransferStage::Chunk { chunk_size, index, attempt } => {
            let count: usize = count_chunks(length, chunk_size);
            let accepted = report(
                "chunk",
                percent_of(index, count),
                chunk_message(index, count),
            );
            let mut progress = one_report(accepted);
            if index + 1 < count {
                TransferStep {
                    progress,
                    outcome: TransferOutcome::Next(
                        TransferStage::Chunk { chunk_size, index: index + 1, attempt: 1 },
                    ),
                }
            } else {
                progress.push(report("commit", 92, "Finalizing firmware update.".to_owned()));
                assert(reports(progress@) =~= seq![
                    chunk_report(index as int, count as int),
                    finalizing_report(),
                ]);
                TransferStep {
                    progress,
                    outcome: TransferOutcome::Next(TransferStage::Commit { chunk_size }),
                }
            }
        },
        TransferStage::Commit { chunk_size } => TransferStep {
            progress: one_report(report("commit", 96, "Firmware image committed.".to_owned())),
            outcome: TransferOutcome::Next(TransferStage::Status { chunk_size }),
        },
        TransferStage::Status { chunk_size } => TransferStep {
            progress: one_report(
                report("complete", 100, "Firmware update transfer complete.".to_owned()),
            ),
            outcome: TransferOutcome::Complete(
                TransferResult {
                    image_sha256: plan.image_sha256.clone(),
                    chunk_count: count_chunks(length, chunk_size),
                },
            ),
        },
    }
}

fn failed_step(
    plan: &TransferPlan,
    stage: TransferStage,
    error: FirmwareError,
) -> (step: TransferStep)
    requires
        plan.well_formed(),
        plan.reaches(stage),
    ensures
        (reports(step.progress@), step.outcome@) == step_of(*plan, stage, Err(error.message@)),
        step.outcome matches TransferOutcome::Next(next) ==> plan.reaches(next),
{
    let outcome = match stage {
        TransferStage::Chunk { chunk_size, index, attempt } => if attempt < plan.retries {
            TransferOutcome::Next(
                TransferStage::Chunk { chunk_size, index, attempt: attempt + 1 },
            )
        } else {
            TransferOutcome::Failed(
                FirmwareError { message: joined(chunk_operation(index).as_str(), " failed") },
            )
        },
        _ => TransferOutcome::Failed(error),
    };
    TransferStep { progress: no_report(), outcome }
}

/// The first `count` chunks, one after the other.
pub open spec fn joined_chunks(image: Seq<u8>, chunk_size: int, count: int) -> Seq<u8>
    decreases count,
{
    if count <= 0 {
        Seq::empty()
    } else {
        joined_chunks(image, chunk_size, count - 1) + chunk_data(image, chunk_size, count - 1)
    }
}

proof fn lemma_joined_chunks(image: Seq<u8>, chunk_size: int, count: int)
    requires
        image.len() > 0,
        chunk_size > 0,
        0 <= count <= chunk_count(image.len() as int, chunk_size),
    ensures
        joined_chunks(image, chunk_size, count) == image.take(
            if count == 0 { 0 } else { chunk_end(image.len() as int, chunk_size, count - 1) },
        ),
    decreases count,
{
    if count > 0 {
        let length = image.len() as int;
        lemma_joined_chunks(image, chunk_size, count - 1);
        lemma_chunk_bounds(length, chunk_size, count - 1);
        if count > 1 {
            lemma_chunk_bounds(length, chunk_size, count - 2);
        }
        assert(joined_chunks(image, chunk_size, count) =~= image.take(
            chunk_end(length, chunk_size, count - 1),
        ));
    } else {
        assert(image.take(0) =~= Seq::empty());
    }
}

/// The chunks of a transfer, put one after the other, are the image; none of them is empty or
/// larger than the chunk size, and each starts at its index times the chunk size.
pub proof fn lemma_chunks_make_the_image(image: Seq<u8>, chunk_size: int)
    requires
        image.len() > 0,
        chunk_size > 0,
    ensures
        joined_chunks(image, chunk_size, chunk_count(image.len() as int, chunk_size)) == image,
        forall|index: int|
            0 <= index < chunk_count(image.len() as int, chunk_size) ==> 0 < (
            #[trigger] chunk_data(image, chunk_size, index)).len() <= chunk_size,
{
    let length = image.len() as int;
    let count = chunk_count(length, chunk_size);
    lemma_fundamental_div_mod(length - 1, chunk_size);
    assert(0 <= (length - 1) / chunk_size) by (nonlinear_arith)
        requires
            length > 0,
            chunk_size > 0,
    ;
    lemma_joined_chunks(image, chunk_size, count);
    lemma_chunk_bounds(length, chunk_size, count - 1);
    assert(image.take(length) =~= image);
    assert forall|index: int| 0 <= index < count implies 0 < (#[trigger] chunk_data(
        image,
        chunk_size,
        index,
    )).len() <= chunk_size by {
        lemma_chunk_bounds(length, chunk_size, index);
    }
}

/// The progress of accepted chunks starts above that of the announcement, never falls, and stays
/// below that of the commit.
pub proof fn lemma_chunk_percent_grows(earlier: int, later: int, count: int)
    requires
        0 <= earlier <= later < count,
    ensures
        5 <= chunk_percent(earlier, count) <= chunk_percent(later, count) <= 90,
        chunk_percent(count - 1, count) == 90,
{
    assert(0 <= ((earlier + 1) * 85) / count <= ((later + 1) * 85) / count) by (nonlinear_arith)
        requires
            0 <= earlier <= later < count,
    ;
    assert(((count - 1 + 1) * 85) / count == 85) by (nonlinear_arith)
        requires
            count > 0,
    ;
}

/// The queries that a transfer at this stage makes at most.
pub open spec fn queries_left(plan: TransferPlan, stage: TransferStage) -> int {
    let length = plan.image@.len() as int;
    let tries = attempts(plan.retries as int);
    match stage {
        TransferStage::Info => 4 + length * tries,
        TransferStage::Prepare { chunk_size } => 3 + chunk_count(length, chunk_size as int) * tries,
        TransferStage::Chunk { chunk_size, index, attempt } => 2 + (chunk_count(
            length,
            chunk_size as int,
        ) - index) * tries - (attempt - 1),
        TransferStage::Commit { .. } => 2,
        TransferStage::Status { .. } => 1,
    }
}

/// Whatever the vehicle replies, a transfer ends: each reply that does not end it leaves fewer
/// queries to make, and at least one.
pub proof fn lemma_transfer_ends(
    plan: TransferPlan,
    stage: TransferStage,
    judged: Result<u32, Seq<char>>,
)
    requires
        plan.well_formed(),
        plan.reaches(stage),
    ensures
        step_of(plan, stage, judged).1 matches Outcome::Next(next) ==> {
            &&& plan.reaches(next)
            &&& 0 < queries_left(plan, next) < queries_left(plan, stage)
        },
{
    let length = plan.image@.len() as int;
    let tries = attempts(plan.retries as int);
    if let Outcome::Next(next) = step_of(plan, stage, judged).1 {
        match (stage, next) {
            (TransferStage::Info, TransferStage::Prepare { chunk_size }) => {
                let count = chunk_count(length, chunk_size as int);
                lemma_chunk_count(length, chunk_size as int);
                lemma_product(1, count, tries);
                lemma_product(count, length, tries);
            },
            (TransferStage::Prepare { chunk_size }, TransferStage::Chunk { index, .. }) => {
                let count = chunk_count(length, chunk_size as int);
                lemma_chunk_count(length, chunk_size as int);
                lemma_product(1, count, tries);
                assert((count - index) * tries == count * tries);
            },
            (
                TransferStage::Chunk { chunk_size, index, .. },
                TransferStage::Chunk { index: next_index, .. },
            ) => {
                let count = chunk_count(length, chunk_size as int);
                lemma_product(1, count - next_index, tries);
                if next_index == index + 1 {
                    assert((count - index) * tries == (count - next_index) * tries + tries)
                        by (nonlinear_arith)
                        requires
                            next_index == index + 1,
                    ;
                }
            },
            (TransferStage::Chunk { chunk_size, index, .. }, TransferStage::Commit { .. }) => {
                let count = chunk_count(length, chunk_size as int);
                lemma_product(1, count - index, tries);
            },
            _ => {},
        }
    }
}

proof fn lemma_product(small: int, large: int, factor: int)
    requires
        small <= large,
        0 <= factor,
    ensures
        small * factor <= large * factor,
{
    assert(small * factor <= large * factor) by (nonlinear_arith)
        requires
            small <= large,
            0 <= factor,
    ;
}

/// Where a transfer stands after the given judged replies.
pub open spec fn run(
    plan: TransferPlan,
    stage: TransferStage,
    replies: Seq<Result<u32, Seq<char>>>,
) -> Outcome
    decreases replies.len(),
{
    if replies.len() == 0 {
        Outcome::Next(stage)
    } else {
        match step_of(plan, stage, replies[0]).1 {
            Outcome::Next(next) => run(plan, next, replies.drop_first()),
            ended => ended,
        }
    }
}

proof fn lemma_accepted_chunks(
    plan: TransferPlan,
    chunk_size: usize,
    index: usize,
    replies: Seq<Result<u32, Seq<char>>>,
)
    requires
        plan.well_formed(),
        plan.reaches(TransferStage::Chunk { chunk_size, index, attempt: 1 }),
        replies.len() == chunk_count(plan.image@.len() as int, chunk_size as int) - index + 2,
        forall|i: int| 0 <= i < replies.len() ==> (#[trigger] replies[i]) is Ok,
    ensures
        run(plan, TransferStage::Chunk { chunk_size, index, attempt: 1 }, replies) == (
        Outcome::Complete {
            image_sha256: plan.image_sha256@,
            chunk_count: chunk_count(plan.image@.len() as int, chunk_size as int),
        }),
    decreases replies.len(),
{
    let length = plan.image@.len() as int;
    let count = chunk_count(length, chunk_size as int);
    lemma_chunk_count(length, chunk_size as int);
    let rest = replies.drop_first();
    assert(replies[0] is Ok);
    assert forall|i: int| 0 <= i < rest.len() implies (#[trigger] rest[i]) is Ok by {
        assert(rest[i] == replies[i + 1]);
    }
    if index + 1 < count {
        lemma_accepted_chunks(plan, chunk_size, (index + 1) as usize, rest);
    } else {
        let last = rest.drop_first();
        assert(rest[0] is Ok);
        assert(last[0] == rest[1]);
        assert(last[0] is Ok);
        assert(run(plan, TransferStage::Status { chunk_size }, last) == (Outcome::Complete {
            image_sha256: plan.image_sha256@,
            chunk_count: count,
        }));
        assert(run(plan, TransferStage::Commit { chunk_size }, rest) == run(
            plan,
            TransferStage::Status { chunk_size },
            last,
        ));
    }
}

/// A transfer whose queries are all accepted completes after one query for each chunk and four
/// more, with the digest of the image.
pub proof fn lemma_accepted_transfer_completes(
    plan: TransferPlan,
    replies: Seq<Result<u32, Seq<char>>>,
)
    requires
        plan.well_formed(),
        replies.len() > 0,
        forall|i: int| 0 <= i < replies.len() ==> (#[trigger] replies[i]) is Ok,
        replies.len() == 4 + chunk_count(
            plan.image@.len() as int,
            agreed_chunk_size(plan.chunk_size as int, replies[0]->Ok_0 as int),
        ),
    ensures
        run(plan, TransferStage::Info, replies) == (Outcome::Complete {
            image_sha256: plan.image_sha256@,
            chunk_count: replies.len() - 4,
        }),
{
    let chunk_size = agreed_chunk_size(
        plan.chunk_size as int,
        replies[0]->Ok_0 as int,
    ) as usize;
    let length = plan.image@.len() as int;
    let second = replies.drop_first();
    let third = second.drop_first();
    lemma_chunk_count(length, chunk_size as int);
    assert(replies[0] is Ok);
    assert(second[0] == replies[1]);
    assert(second[0] is Ok);
    assert forall|i: int| 0 <= i < third.len() implies (#[trigger] third[i]) is Ok by {
        assert(third[i] == replies[i + 2]);
    }
    lemma_accepted_chunks(plan, chunk_size, 0, third);
    assert(run(plan, TransferStage::Prepare { chunk_size }, second) == run(
        plan,
        TransferStage::Chunk { chunk_size, index: 0, attempt: 1 },
        third,
    ));
    assert(run(plan, TransferStage::Info, replies) == run(
        plan,
        TransferStage::Prepare { chunk_size },
        second,
    ));
}

pub(crate) proof fn lemma_chunk_count(length: int, chunk_size: int)
    requires
        length > 0,
        chunk_size > 0,
    ensures
        1 <= chunk_count(length, chunk_size) <= length,
{
    let quotient = (length - 1) / chunk_size;
    assert(0 <= quotient <= length - 1) by (nonlinear_arith)
        requires
            chunk_size > 0,
            length > 0,
            quotient == (length - 1) / chunk_size,
    ;
}

} // verus!
