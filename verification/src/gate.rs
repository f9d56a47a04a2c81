//! The firmware gate: what uploads pass before they may go to a vehicle.

use crate::digest::{full_sha256, sha256_text, DIGEST_TEXT};
use crate::parameters::{
    change_allowed, validate_parameter_only_change, validation_reason, ParameterPolicy,
    ParameterRegion, ParameterValidation,
};
use crate::policy::firmware_outcome;
use crate::settings::{
    clamped, env_bool, env_u32, env_u64, env_usize, means_true, number_or, setting,
};
use crate::status::{
    is_sha256_hex, is_update_id, lemma_update_id_bytes, make_status, plain_status,
    safe_version, sanitized_version, status_views, valid_sha256_hex, valid_update_id,
    FirmwareStatus, Status, UploadProgress, UPDATE_ID_BYTES, VERSION_CHARS,
};
use crate::tables::{
    announcement, chunk_table, commit_table, decode_firmware_chunk_upload,
    decode_firmware_commit_upload, decode_firmware_prepare_upload, ending, optional_view, part,
    prepare_table, text_or_empty, Announcement, Ending, FirmwareChunkUpload, FirmwareCommitUpload,
    FirmwarePrepareUpload, Part, TABLE_CAPACITY,
};
use crate::text::{
    byte_length, decimal, decimal_text, equal_ignoring_case, joined, lemma_pieces_nonempty, lower,
    parse_unsigned, parsed_unsigned, pieces, same_ignoring_case, split, to_lower, views,
};
use crate::text_map::TextMap;
use crate::transfer::{
    begin_transfer, chunk_ceiling, chunk_count, connect_report, count_chunks, lemma_chunk_bounds,
    lemma_chunk_count, Report, TransferConfig, TransferPlan, TransferProgress,
};
use crate::upload::{
    assemble, chunk_view, empty_chunks, is_complete, lemma_empty_bytes_in, lemma_received_bytes,
    lemma_with_chunk, new_upload, FirmwareUpload, Upload, UPLOAD_CHUNK_MAX, UPLOAD_CHUNK_MIN,
};
use vstd::prelude::*;

verus! {

/// The uploads that may be under way at once.
pub const MAX_PENDING_UPLOADS: usize = 4;

/// The largest announcement.
pub const MAX_PREPARE_PAYLOAD: usize = 4 * 1024;

/// The largest commit.
pub const MAX_COMMIT_PAYLOAD: usize = 2 * 1024;

/// What a chunk may take besides its data.
pub const MAX_CHUNK_OVERHEAD: usize = 4 * 1024;

/// The largest image where no other limit is set.
pub const DEFAULT_IMAGE_SIZE: usize = 8 * 1024 * 1024;

/// The largest limit on images that can be set.
pub const LARGEST_IMAGE_SIZE: usize = 64 * 1024 * 1024;

/// The state of the firmware gate.
#[derive(Debug)]
pub struct FirmwareGate {
    pub baseline: Option<Vec<u8>>,
    pub regions: Vec<ParameterRegion>,
    pub trusted_manifest: String,
    pub auto_bootstrap: bool,
    pub uploads: TextMap<FirmwareUpload>,
    pub max_image_size: usize,
    pub transfer: TransferConfig,
}

/// What the firmware gate says and starts.
#[derive(Debug)]
pub struct GateOutcome {
    pub statuses: Vec<FirmwareStatus>,
    pub transfer: Option<TransferPlan>,
    /// Why a candidate was refused, in full: for the organizers, not for browsers.
    pub refused: Option<ParameterValidation>,
    /// What the decoder said of a payload that it could not read.
    pub undecodable: Option<String>,
}

/// What a browser is told about its upload, and what the decoder said of a payload that it could
/// not read.
#[derive(Debug)]
pub struct UploadAnswer {
    pub status: FirmwareStatus,
    pub undecodable: Option<String>,
}

/// An image that is ready to be validated.
#[derive(Debug)]
pub struct Candidate {
    pub version: String,
    pub image: Vec<u8>,
}

/// The uploads under way.
pub open spec fn upload_views(uploads: Map<Seq<char>, FirmwareUpload>) -> Map<Seq<char>, Upload> {
    uploads.map_values(|upload: FirmwareUpload| upload@)
}

impl FirmwareGate {
    /// The uploads are consistent and few, and every transfer that is started can be written.
    pub open spec fn well_formed(self) -> bool {
        &&& self.uploads.well_formed()
        &&& self.uploads.entries@.len() <= MAX_PENDING_UPLOADS
        &&& forall|id: Seq<char>| #[trigger]
            self.uploads@.dom().contains(id) ==> self.uploads@[id].well_formed()
                && self.uploads@[id].expected_size <= self.max_image_size
        &&& UPDATE_ID_BYTES + byte_length(self.transfer.target@) + byte_length(
            self.transfer.board_id@,
        ) + VERSION_CHARS + byte_length(self.trusted_manifest@) + 2 * DIGEST_TEXT <= TABLE_CAPACITY
        &&& UPDATE_ID_BYTES + DIGEST_TEXT + chunk_ceiling(self.transfer.chunk_size as int)
            <= TABLE_CAPACITY
    }

    /// The uploads under way.
    pub open spec fn pending(self) -> Map<Seq<char>, Upload> {
        upload_views(self.uploads@)
    }

    /// Everything but the uploads and the baseline.
    pub open spec fn same_settings(self, other: Self) -> bool {
        &&& self.regions == other.regions
        &&& self.trusted_manifest == other.trusted_manifest
        &&& self.auto_bootstrap == other.auto_bootstrap
        &&& self.max_image_size == other.max_image_size
        &&& self.transfer == other.transfer
    }
}

// ---------------------------------------------------------------------------------------------
// Announcements
// ---------------------------------------------------------------------------------------------

/// The announced size, as far as this host can count.
pub open spec fn announced_size(start: Announcement) -> int {
    if start.image_size > usize::MAX {
        usize::MAX as int
    } else {
        start.image_size as int
    }
}

/// The announcement is for this update, and its sizes and digest are within limits.
pub open spec fn announcement_fits(
    start: Announcement,
    update_id: Seq<char>,
    max_image_size: int,
) -> bool {
    &&& start.update_id == update_id
    &&& 0 < announced_size(start) <= max_image_size
    &&& UPLOAD_CHUNK_MIN <= start.requested_chunk_size <= UPLOAD_CHUNK_MAX
    &&& start.chunk_count == chunk_count(announced_size(start), start.requested_chunk_size as int)
    &&& is_sha256_hex(start.image_sha256)
}

/// Why an announcement is refused. `size` is that of its payload, and `start` what the payload
/// holds, if it could be decoded.
pub open spec fn start_refusal(
    pending: Map<Seq<char>, Upload>,
    max_image_size: int,
    update_id: Seq<char>,
    size: int,
    start: Option<Announcement>,
) -> Option<Seq<char>> {
    if size > MAX_PREPARE_PAYLOAD {
        Some("Firmware prepare payload is too large."@)
    } else {
        match start {
            None => Some("Firmware prepare payload is not a valid Synapse FlatBuffer."@),
            Some(start) => if !announcement_fits(start, update_id, max_image_size) {
                Some("Firmware upload size or chunk metadata is outside GCS limits."@)
            } else if pending.dom().len() >= MAX_PENDING_UPLOADS && !pending.dom().contains(
                update_id,
            ) {
                Some("Too many firmware uploads are pending."@)
            } else {
                None
            },
        }
    }
}

/// The upload that an announcement starts.
pub open spec fn announced_upload(start: Announcement) -> Upload {
    new_upload(
        announced_size(start),
        start.requested_chunk_size as int,
        safe_version(start.version),
        lower(start.image_sha256),
    )
}

/// The status of an upload that is coming in.
pub open spec fn receiving_status(
    intent_prefix: Seq<char>,
    update_id: Seq<char>,
    percent: int,
    message: Seq<char>,
    upload: UploadProgress,
) -> Status {
    Status {
        upload: Some(upload),
        ..plain_status(intent_prefix, update_id, "in_progress"@, "upload"@, percent as u8, message)
    }
}

/// A refusal of something that a browser sent.
pub open spec fn upload_refusal(
    intent_prefix: Seq<char>,
    update_id: Seq<char>,
    message: Seq<char>,
) -> Status {
    plain_status(intent_prefix, update_id, "rejected"@, "upload"@, 0, message)
}

// ---------------------------------------------------------------------------------------------
// Chunks
// ---------------------------------------------------------------------------------------------

/// The part is the one that belongs in this place of the upload. `digest` is that of its data.
pub open spec fn chunk_fits(
    part: Part,
    digest: Seq<char>,
    update_id: Seq<char>,
    upload: Upload,
    index: int,
) -> bool {
    &&& part.update_id == update_id
    &&& part.chunk_index == index
    &&& part.offset == index * upload.chunk_size
    &&& part.data.len() == upload.length_of(index)
    &&& part.final_chunk == (index + 1 == upload.chunks.len())
    &&& is_sha256_hex(part.chunk_sha256)
    &&& same_ignoring_case(digest, part.chunk_sha256)
}

/// The index that what follows the operation in a key starts with.
pub open spec fn place_index(place: Seq<Seq<char>>) -> Option<nat> {
    if place.len() == 0 {
        None
    } else {
        parsed_unsigned(place[0], usize::MAX as nat)
    }
}

/// Why a chunk is refused. `place` is what follows the operation in the key, `size` that of the
/// payload, `part` what the payload holds, if it could be decoded, and `digest` that of its data.
pub open spec fn chunk_refusal(
    pending: Map<Seq<char>, Upload>,
    update_id: Seq<char>,
    place: Seq<Seq<char>>,
    size: int,
    part: Option<Part>,
    digest: Seq<char>,
) -> Option<Seq<char>> {
    match place_index(place) {
        None => Some("Firmware chunk index is invalid."@),
        Some(index) => if place.len() > 1 || size > UPLOAD_CHUNK_MAX + MAX_CHUNK_OVERHEAD {
            Some("Firmware chunk key or payload is invalid."@)
        } else {
            match part {
                None => Some("Firmware chunk payload is not a valid Synapse FlatBuffer."@),
                Some(part) => if !pending.dom().contains(update_id) {
                    Some("Firmware upload was not started."@)
                } else if index >= pending[update_id].chunks.len() {
                    Some("Firmware chunk index is out of range."@)
                } else if !chunk_fits(
                    part,
                    digest,
                    update_id,
                    pending[update_id],
                    index as int,
                ) {
                    Some("Firmware chunk metadata or SHA-256 does not match the upload."@)
                } else if pending[update_id].chunks[index as int] is Some
                    && pending[update_id].chunks[index as int]->0 != part.data {
                    Some("A repeated firmware chunk changed its contents."@)
                } else {
                    None
                },
            }
        },
    }
}

/// The progress of an upload that has `received` of `expected` bytes.
pub open spec fn upload_percent(received: int, expected: int) -> int {
    (received * 5) / expected
}

/// What is said of an accepted chunk.
pub open spec fn chunk_accepted_status(
    intent_prefix: Seq<char>,
    update_id: Seq<char>,
    upload: Upload,
    index: int,
) -> Status {
    receiving_status(
        intent_prefix,
        update_id,
        upload_percent(upload.received(), upload.expected_size),
        "Received "@ + decimal_text(upload.received() as nat) + "/"@ + decimal_text(
            upload.expected_size as nat,
        ) + " browser bytes."@,
        UploadProgress {
            received: upload.received() as usize,
            total: upload.expected_size as usize,
            chunk_index: Some(index as usize),
        },
    )
}

// ---------------------------------------------------------------------------------------------
// Commits
// ---------------------------------------------------------------------------------------------

/// The commit is for this update and names the digest that was announced.
pub open spec fn commit_fits(ending: Ending, update_id: Seq<char>, upload: Upload) -> bool {
    &&& ending.update_id == update_id
    &&& is_sha256_hex(ending.image_sha256)
    &&& same_ignoring_case(ending.image_sha256, upload.image_sha256)
}

/// The commit ends the upload, whether or not the image is taken.
pub open spec fn commit_ends_upload(size: int, ending: Option<Ending>) -> bool {
    size <= MAX_COMMIT_PAYLOAD && ending is Some
}

/// Why a commit yields no image. `size` is that of its payload, and `ending` what the payload
/// holds, if it could be decoded.
pub open spec fn commit_refusal(
    pending: Map<Seq<char>, Upload>,
    update_id: Seq<char>,
    size: int,
    ending: Option<Ending>,
) -> Option<Seq<char>> {
    if size > MAX_COMMIT_PAYLOAD {
        Some("Firmware commit payload is too large."@)
    } else {
        match ending {
            None => Some("Firmware commit payload is not a valid Synapse FlatBuffer."@),
            Some(ending) => if !pending.dom().contains(update_id) {
                Some("Firmware upload was not started."@)
            } else if !commit_fits(ending, update_id, pending[update_id]) {
                Some("Firmware commit identifier or SHA-256 does not match prepare."@)
            } else if !pending[update_id].complete() {
                Some("Firmware upload is incomplete."@)
            } else {
                None
            },
        }
    }
}

/// Why an image with the given digest is refused, when another was announced.
pub open spec fn digest_refusal(announced: Seq<char>, digest: Seq<char>) -> Option<Seq<char>> {
    if same_ignoring_case(digest, announced) {
        None
    } else {
        Some("Reconstructed firmware SHA-256 does not match prepare."@)
    }
}

// ---------------------------------------------------------------------------------------------
// Taking uploads in
// ---------------------------------------------------------------------------------------------

fn refuse_upload(intent_prefix: &str, update_id: &str, message: &str) -> (status: FirmwareStatus)
    ensures
        status@ == upload_refusal(intent_prefix@, update_id@, message@),
{
    make_status(intent_prefix, update_id, "rejected", "upload", 0, message, None)
}

/// The announced size, as far as this host can count.
fn host_size(size: u64) -> (result: usize)
    ensures
        result == if size > usize::MAX { usize::MAX as int } else { size as int },
{
    if size > usize::MAX as u64 {
        usize::MAX
    } else {
        size as usize
    }
}

fn start_fits(start: &FirmwarePrepareUpload, update_id: &str, max_image_size: usize) -> (result:
    bool)
    ensures
        result == announcement_fits(start@, update_id@, max_image_size as int),
{
    let image_size: usize = host_size(start.image_size);
    let chunk_size: usize = start.requested_chunk_size as usize;
    *start.update_id.as_str() == *update_id && image_size > 0 && image_size <= max_image_size
        && chunk_size >= UPLOAD_CHUNK_MIN && chunk_size <= UPLOAD_CHUNK_MAX
        && start.chunk_count as usize == count_chunks(image_size, chunk_size) && valid_sha256_hex(
        start.image_sha256.as_str(),
    )
}

/// An announcement, if it could be decoded.
pub open spec fn start_view(start: Option<FirmwarePrepareUpload>) -> Option<Announcement> {
    match start {
        Some(start) => Some(start@),
        None => None,
    }
}

/// A part, if it could be decoded.
pub open spec fn part_view(part: Option<FirmwareChunkUpload>) -> Option<Part> {
    match part {
        Some(part) => Some(part@),
        None => None,
    }
}

/// The end of an upload, if it could be decoded.
pub open spec fn ending_view(ending: Option<FirmwareCommitUpload>) -> Option<Ending> {
    match ending {
        Some(ending) => Some(ending@),
        None => None,
    }
}

/// What the firmware gate does with an announcement.
pub open spec fn start_handled(
    before: FirmwareGate,
    after: FirmwareGate,
    status: Status,
    intent_prefix: Seq<char>,
    update_id: Seq<char>,
    size: int,
    start: Option<Announcement>,
) -> bool {
    match start_refusal(before.pending(), before.max_image_size as int, update_id, size, start) {
        Some(message) => {
            &&& after.pending() == before.pending()
            &&& status == upload_refusal(intent_prefix, update_id, message)
        },
        None => {
            &&& after.pending() == before.pending().insert(update_id, announced_upload(start->0))
            &&& status == receiving_status(
                intent_prefix,
                update_id,
                0,
                "GCS is receiving the browser firmware image."@,
                UploadProgress {
                    received: 0,
                    total: announced_size(start->0) as usize,
                    chunk_index: None,
                },
            )
        },
    }
}

/// What the firmware gate does with a chunk.
pub open spec fn chunk_handled(
    before: FirmwareGate,
    after: FirmwareGate,
    status: Status,
    intent_prefix: Seq<char>,
    update_id: Seq<char>,
    place: Seq<Seq<char>>,
    size: int,
    part: Option<Part>,
    digest: Seq<char>,
) -> bool {
    match chunk_refusal(before.pending(), update_id, place, size, part, digest) {
        Some(message) => {
            &&& after.pending() == before.pending()
            &&& status == upload_refusal(intent_prefix, update_id, message)
        },
        None => {
            let index = place_index(place)->0 as int;
            let upload = before.pending()[update_id].with_chunk(index, part->0.data);
            &&& after.pending() == before.pending().insert(update_id, upload)
            &&& status == chunk_accepted_status(intent_prefix, update_id, upload, index)
        },
    }
}

/// What the decoder says of an announcement, where it is asked and cannot read it.
pub open spec fn start_fault(size: int, start: Option<Announcement>) -> Option<Seq<char>> {
    if size <= MAX_PREPARE_PAYLOAD && start is None {
        Some("decode "@ + "FirmwarePrepareRequest"@)
    } else {
        None
    }
}

/// What the decoder says of a chunk, where it is asked and cannot read it.
pub open spec fn chunk_fault(place: Seq<Seq<char>>, size: int, part: Option<Part>) -> Option<
    Seq<char>,
> {
    if place_index(place) is Some && place.len() == 1 && size <= UPLOAD_CHUNK_MAX
        + MAX_CHUNK_OVERHEAD && part is None {
        Some("decode "@ + "FirmwareChunkRequest"@)
    } else {
        None
    }
}

/// What the decoder says of a commit, where it is asked and cannot read it.
pub open spec fn commit_fault(size: int, ending: Option<Ending>) -> Option<Seq<char>> {
    if size <= MAX_COMMIT_PAYLOAD && ending is None {
        Some("decode "@ + "FirmwareCommitRequest"@)
    } else {
        None
    }
}

/// The digest of a chunk's data; empty where there is no chunk.
pub open spec fn part_digest(part: Option<Part>) -> Seq<char> {
    match part {
        Some(part) => sha256_text(part.data),
        None => Seq::empty(),
    }
}

impl FirmwareGate {
    proof fn lemma_pending(self)
        requires
            self.well_formed(),
        ensures
            self.pending().dom() == self.uploads@.dom(),
            self.pending().dom().len() == self.uploads.entries@.len(),
            self.pending().dom().finite(),
            forall|id: Seq<char>| #[trigger]
                self.uploads@.dom().contains(id) ==> self.pending()[id] == self.uploads@[id]@,
    {
        crate::text_map::lemma_map_of(self.uploads.entries@);
        assert(self.pending().dom() =~= self.uploads@.dom());
    }

    /// Starts a decoded upload, or says why not. `size` is that of the payload.
    pub fn start_decoded(
        &mut self,
        intent_prefix: &str,
        update_id: &str,
        size: usize,
        start: Option<FirmwarePrepareUpload>,
    ) -> (status: FirmwareStatus)
        requires
            old(self).well_formed(),
        ensures
            final(self).well_formed(),
            final(self).same_settings(*old(self)),
            final(self).baseline == old(self).baseline,
            start_handled(
                *old(self),
                *final(self),
                status@,
                intent_prefix@,
                update_id@,
                size as int,
                start_view(start),
            ),
    {
        proof {
            self.lemma_pending();
        }
        if size > MAX_PREPARE_PAYLOAD {
            return refuse_upload(
                intent_prefix,
                update_id,
                "Firmware prepare payload is too large.",
            );
        }
        let start = match start {
            Some(start) => start,
            None => return refuse_upload(
                intent_prefix,
                update_id,
                "Firmware prepare payload is not a valid Synapse FlatBuffer.",
            ),
        };
        if !start_fits(&start, update_id, self.max_image_size) {
            return refuse_upload(
                intent_prefix,
                update_id,
                "Firmware upload size or chunk metadata is outside GCS limits.",
            );
        }
        if self.uploads.len() >= MAX_PENDING_UPLOADS && !self.uploads.contains(update_id) {
            return refuse_upload(
                intent_prefix,
                update_id,
                "Too many firmware uploads are pending.",
            );
        }
        let image_size: usize = host_size(start.image_size);
        let upload = FirmwareUpload {
            expected_size: image_size,
            chunk_size: start.requested_chunk_size as usize,
            version: sanitized_version(start.version.as_str()),
            image_sha256: to_lower(start.image_sha256.as_str()),
            chunks: empty_chunks(start.chunk_count as usize),
            received_bytes: 0,
        };
        proof {
            assert(upload@ == announced_upload(start@));
            lemma_empty_bytes_in(upload@.chunks, upload@.chunks.len() as int);
            assert(upload.well_formed());
        }
        self.uploads.set(update_id, upload);
        proof {
            assert(self.uploads.entries@.len() == self.uploads.keys().len());
            assert(old(self).uploads.entries@.len() == old(self).uploads.keys().len());
            assert(self.pending() =~= old(self).pending().insert(
                update_id@,
                announced_upload(start@),
            ));
        }
        make_status(
            intent_prefix,
            update_id,
            "in_progress",
            "upload",
            0,
            "GCS is receiving the browser firmware image.",
            Some(UploadProgress { received: 0, total: image_size, chunk_index: None }),
        )
    }

    /// Starts an upload, or says why not.
    pub fn start_upload(
        &mut self,
        intent_prefix: &str,
        update_id: &str,
        payload: &[u8],
    ) -> (answer: UploadAnswer)
        requires
            old(self).well_formed(),
        ensures
            final(self).well_formed(),
            final(self).same_settings(*old(self)),
            final(self).baseline == old(self).baseline,
            start_handled(
                *old(self),
                *final(self),
                answer.status@,
                intent_prefix@,
                update_id@,
                payload@.len() as int,
                announcement(prepare_table(payload@)),
            ),
            optional_view(answer.undecodable) == start_fault(
                payload@.len() as int,
                announcement(prepare_table(payload@)),
            ),
    {
        let size: usize = payload.len();
        match decode_firmware_prepare_upload(payload) {
            Ok(start) => UploadAnswer {
                status: self.start_decoded(intent_prefix, update_id, size, Some(start)),
                undecodable: None,
            },
            Err(error) => UploadAnswer {
                status: self.start_decoded(intent_prefix, update_id, size, None),
                undecodable: if size <= MAX_PREPARE_PAYLOAD {
                    Some(error.message)
                } else {
                    None
                },
            },
        }
    }
}

fn same_bytes(left: &Vec<u8>, right: &Vec<u8>) -> (same: bool)
    ensures
        same == (left@ == right@),
{
    if left.len() != right.len() {
        return false;
    }
    for index in 0..left.len()
        invariant
            left@.len() == right@.len(),
            forall|i: int| 0 <= i < index ==> left@[i] == right@[i],
    {
        if left[index] != right[index] {
            return false;
        }
    }
    assert(left@ =~= right@);
    true
}

/// Whether the part belongs in this place of the upload.
fn belongs(
    chunk: &FirmwareChunkUpload,
    digest: &str,
    update_id: &str,
    upload: &FirmwareUpload,
    index: usize,
) -> (result: bool)
    requires
        upload.well_formed(),
        index < upload.chunks@.len(),
    ensures
        result == chunk_fits(chunk@, digest@, update_id@, upload@, index as int),
{
    proof {
        lemma_chunk_bounds(upload@.expected_size, upload@.chunk_size, index as int);
    }
    let offset: usize = index * upload.chunk_size;
    let rest: usize = upload.expected_size - offset;
    let expected_length: usize = if upload.chunk_size < rest {
        upload.chunk_size
    } else {
        rest
    };
    assert(expected_length == upload@.length_of(index as int));
    let expected_final = index + 1 == upload.chunks.len();
    *chunk.update_id.as_str() == *update_id && chunk.chunk_index as usize == index && chunk.offset
        == offset as u64 && chunk.data.len() == expected_length && chunk.final_chunk
        == expected_final && valid_sha256_hex(chunk.chunk_sha256.as_str())
        && equal_ignoring_case(digest, chunk.chunk_sha256.as_str())
}

fn received_message(received: usize, expected: usize) -> (message: String)
    ensures
        message@ == "Received "@ + decimal_text(received as nat) + "/"@ + decimal_text(
            expected as nat,
        ) + " browser bytes."@,
{
    let start = joined("Received ", decimal(received as u64).as_str());
    let middle = joined(start.as_str(), "/");
    let end = joined(middle.as_str(), decimal(expected as u64).as_str());
    joined(end.as_str(), " browser bytes.")
}

fn percent_received(received: usize, expected: usize) -> (percent: u8)
    requires
        received <= expected,
        expected > 0,
    ensures
        percent == upload_percent(received as int, expected as int),
        percent <= 5,
{
    let part: u128 = (received as u128 * 5) / expected as u128;
    assert(0 <= (received * 5) / expected as int <= 5) by (nonlinear_arith)
        requires
            0 <= received <= expected,
            expected > 0,
    ;
    part as u8
}

impl FirmwareGate {
    /// Takes one decoded chunk of an upload in, or says why not. `place` is what follows the
    /// operation in the key, `size` that of the payload, and `digest` that of the chunk's data.
    pub fn chunk_decoded(
        &mut self,
        intent_prefix: &str,
        update_id: &str,
        place: &[String],
        size: usize,
        chunk: Option<FirmwareChunkUpload>,
        digest: &str,
    ) -> (status: FirmwareStatus)
        requires
            old(self).well_formed(),
        ensures
            final(self).well_formed(),
            final(self).same_settings(*old(self)),
            final(self).baseline == old(self).baseline,
            chunk_handled(
                *old(self),
                *final(self),
                status@,
                intent_prefix@,
                update_id@,
                views(place@),
                size as int,
                part_view(chunk),
                digest@,
            ),
    {
        proof {
            self.lemma_pending();
            assert(place@.len() > 0 ==> views(place@)[0] == place@[0]@);
        }
        let parsed: Option<u64> = if place.len() > 0 {
            parse_unsigned(place[0].as_str(), usize::MAX as u64)
        } else {
            None
        };
        let index: usize = match parsed {
            Some(index) => index as usize,
            None => return refuse_upload(
                intent_prefix,
                update_id,
                "Firmware chunk index is invalid.",
            ),
        };
        if place.len() > 1 || size > UPLOAD_CHUNK_MAX + MAX_CHUNK_OVERHEAD {
            return refuse_upload(
                intent_prefix,
                update_id,
                "Firmware chunk key or payload is invalid.",
            );
        }
        let chunk = match chunk {
            Some(chunk) => chunk,
            None => return refuse_upload(
                intent_prefix,
                update_id,
                "Firmware chunk payload is not a valid Synapse FlatBuffer.",
            ),
        };
        let upload = match self.uploads.get(update_id) {
            Some(upload) => upload,
            None => return refuse_upload(
                intent_prefix,
                update_id,
                "Firmware upload was not started.",
            ),
        };
        if index >= upload.chunks.len() {
            return refuse_upload(
                intent_prefix,
                update_id,
                "Firmware chunk index is out of range.",
            );
        }
        if !belongs(&chunk, digest, update_id, upload, index) {
            return refuse_upload(
                intent_prefix,
                update_id,
                "Firmware chunk metadata or SHA-256 does not match the upload.",
            );
        }
        let ghost before = upload@;
        assert(before.chunks[index as int] == chunk_view(upload.chunks@[index as int]));
        let repeated = match &upload.chunks[index] {
            Some(previous) => {
                if !same_bytes(previous, &chunk.data) {
                    return refuse_upload(
                        intent_prefix,
                        update_id,
                        "A repeated firmware chunk changed its contents.",
                    );
                }
                true
            },
            None => false,
        };
        let ghost after = before.with_chunk(index as int, chunk.data@);
        self.store_chunk(update_id, index, chunk.data, repeated);
        proof {
            self.lemma_pending();
            lemma_received_bytes(after);
        }
        let (received, expected): (usize, usize) = match self.uploads.get(update_id) {
            Some(upload) => (upload.received_bytes, upload.expected_size),
            None => (0, 1),
        };
        make_status(
            intent_prefix,
            update_id,
            "in_progress",
            "upload",
            percent_received(received, expected),
            received_message(received, expected).as_str(),
            Some(UploadProgress { received, total: expected, chunk_index: Some(index) }),
        )
    }

    /// Takes one chunk of an upload in, or says why not.
    pub fn receive_chunk(
        &mut self,
        intent_prefix: &str,
        update_id: &str,
        place: &[String],
        payload: &[u8],
    ) -> (answer: UploadAnswer)
        requires
            old(self).well_formed(),
        ensures
            final(self).well_formed(),
            final(self).same_settings(*old(self)),
            final(self).baseline == old(self).baseline,
            chunk_handled(
                *old(self),
                *final(self),
                answer.status@,
                intent_prefix@,
                update_id@,
                views(place@),
                payload@.len() as int,
                part(chunk_table(payload@)),
                part_digest(part(chunk_table(payload@))),
            ),
            optional_view(answer.undecodable) == chunk_fault(
                views(place@),
                payload@.len() as int,
                part(chunk_table(payload@)),
            ),
    {
        let size: usize = payload.len();
        match decode_firmware_chunk_upload(payload) {
            Ok(chunk) => {
                let digest = full_sha256(chunk.data.as_slice());
                UploadAnswer {
                    status: self.chunk_decoded(
                        intent_prefix,
                        update_id,
                        place,
                        size,
                        Some(chunk),
                        digest.as_str(),
                    ),
                    undecodable: None,
                }
            },
            Err(error) => {
                let none = String::new();
                assert(none@ =~= Seq::empty());
                assert(place@.len() > 0 ==> views(place@)[0] == place@[0]@);
                let asked = place.len() == 1 && size <= UPLOAD_CHUNK_MAX + MAX_CHUNK_OVERHEAD
                    && parse_unsigned(place[0].as_str(), usize::MAX as u64).is_some();
                UploadAnswer {
                    status: self.chunk_decoded(
                        intent_prefix,
                        update_id,
                        place,
                        size,
                        None,
                        none.as_str(),
                    ),
                    undecodable: if asked {
                        Some(error.message)
                    } else {
                        None
                    },
                }
            },
        }
    }

    fn store_chunk(&mut self, update_id: &str, index: usize, data: Vec<u8>, repeated: bool)
        requires
            old(self).well_formed(),
            old(self).uploads@.dom().contains(update_id@),
            index < old(self).uploads@[update_id@].chunks@.len(),
            repeated == old(self).uploads@[update_id@].chunks@[index as int] is Some,
            repeated ==> (old(self).uploads@[update_id@].chunks@[index as int]->0)@ == data@,
            data@.len() == old(self).pending()[update_id@].length_of(index as int),
        ensures
            final(self).well_formed(),
            final(self).same_settings(*old(self)),
            final(self).baseline == old(self).baseline,
            final(self).uploads@.dom().contains(update_id@),
            final(self).pending() == old(self).pending().insert(
                update_id@,
                old(self).pending()[update_id@].with_chunk(index as int, data@),
            ),
    {
        proof {
            self.lemma_pending();
        }
        let ghost before = self.uploads@[update_id@];
        let ghost view = before@;
        let ghost after = view.with_chunk(index as int, data@);
        assert(view.chunks[index as int] == chunk_view(before.chunks@[index as int]));
        if repeated {
            assert(after.chunks =~= view.chunks);
            assert(self.pending() =~= old(self).pending().insert(update_id@, after));
            return;
        }
        proof {
            lemma_with_chunk(view, index as int, data@);
            lemma_received_bytes(view);
            lemma_received_bytes(after);
        }
        if let Some(mut upload) = self.uploads.take(update_id) {
            upload.received_bytes = upload.received_bytes + data.len();
            upload.chunks.set(index, Some(data));
            assert(upload@.chunks =~= after.chunks);
            assert(upload@ == after);
            assert(upload.well_formed());
            proof {
                crate::text_map::lemma_map_of(self.uploads.entries@);
                crate::text_map::lemma_map_of(old(self).uploads.entries@);
                assert(self.uploads@.dom() =~= old(self).uploads@.dom().remove(update_id@));
            }
            self.uploads.set(update_id, upload);
            proof {
                crate::text_map::lemma_map_of(self.uploads.entries@);
                assert(self.uploads@.dom() =~= old(self).uploads@.dom());
                assert(self.pending() =~= old(self).pending().insert(update_id@, after));
            }
        }
    }

    /// Ends a decoded upload: what it holds, or why it yields no image. `size` is that of the
    /// payload.
    pub fn commit_decoded(
        &mut self,
        intent_prefix: &str,
        update_id: &str,
        size: usize,
        commit: Option<FirmwareCommitUpload>,
    ) -> (result: Result<FirmwareUpload, FirmwareStatus>)
        requires
            old(self).well_formed(),
        ensures
            final(self).well_formed(),
            final(self).same_settings(*old(self)),
            final(self).baseline == old(self).baseline,
            final(self).pending() == if commit_ends_upload(size as int, ending_view(commit)) {
                old(self).pending().remove(update_id@)
            } else {
                old(self).pending()
            },
            match commit_refusal(
                old(self).pending(),
                update_id@,
                size as int,
                ending_view(commit),
            ) {
                Some(message) => result is Err && result->Err_0@ == upload_refusal(
                    intent_prefix@,
                    update_id@,
                    message,
                ),
                None => result is Ok && result->Ok_0.well_formed() && result->Ok_0@ == old(
                    self,
                ).pending()[update_id@],
            },
    {
        proof {
            self.lemma_pending();
        }
        if size > MAX_COMMIT_PAYLOAD {
            return Err(
                refuse_upload(intent_prefix, update_id, "Firmware commit payload is too large."),
            );
        }
        let commit = match commit {
            Some(commit) => commit,
            None => return Err(
                refuse_upload(
                    intent_prefix,
                    update_id,
                    "Firmware commit payload is not a valid Synapse FlatBuffer.",
                ),
            ),
        };
        let taken = self.uploads.take(update_id);
        proof {
            crate::text_map::lemma_map_of(self.uploads.entries@);
            crate::text_map::lemma_map_of(old(self).uploads.entries@);
            assert(self.uploads@.dom() =~= old(self).uploads@.dom().remove(update_id@));
            assert(self.pending() =~= old(self).pending().remove(update_id@));
        }
        let upload = match taken {
            Some(upload) => upload,
            None => return Err(
                refuse_upload(intent_prefix, update_id, "Firmware upload was not started."),
            ),
        };
        if *commit.update_id.as_str() != *update_id || !valid_sha256_hex(
            commit.image_sha256.as_str(),
        ) || !equal_ignoring_case(commit.image_sha256.as_str(), upload.image_sha256.as_str()) {
            return Err(
                refuse_upload(
                    intent_prefix,
                    update_id,
                    "Firmware commit identifier or SHA-256 does not match prepare.",
                ),
            );
        }
        proof {
            lemma_received_bytes(upload@);
        }
        if upload.received_bytes != upload.expected_size || !is_complete(&upload) {
            return Err(
                refuse_upload(intent_prefix, update_id, "Firmware upload is incomplete."),
            );
        }
        Ok(upload)
    }

    /// Ends an upload: the image that it makes, or why there is none.
    pub fn commit_upload(
        &mut self,
        intent_prefix: &str,
        update_id: &str,
        payload: &[u8],
    ) -> (result: Result<Candidate, UploadAnswer>)
        requires
            old(self).well_formed(),
        ensures
            final(self).well_formed(),
            final(self).same_settings(*old(self)),
            final(self).baseline == old(self).baseline,
            final(self).pending() == pending_after_commit(
                old(self).pending(),
                update_id@,
                payload@,
            ),
            match commit_outcome(old(self).pending(), update_id@, payload@) {
                Err(message) => {
                    &&& result is Err
                    &&& result->Err_0.status@ == upload_refusal(
                        intent_prefix@,
                        update_id@,
                        message,
                    )
                    &&& optional_view(result->Err_0.undecodable) == commit_fault(
                        payload@.len() as int,
                        ending(commit_table(payload@)),
                    )
                },
                Ok(upload) => {
                    &&& result is Ok
                    &&& result->Ok_0.version@ == upload.version
                    &&& byte_length(result->Ok_0.version@) <= VERSION_CHARS
                    &&& result->Ok_0.image@ == upload.image()
                },
            },
    {
        let size: usize = payload.len();
        let (commit, undecodable) = match decode_firmware_commit_upload(payload) {
            Ok(commit) => (Some(commit), None),
            Err(error) => (
                None,
                if size <= MAX_COMMIT_PAYLOAD {
                    Some(error.message)
                } else {
                    None
                },
            ),
        };
        let upload = match self.commit_decoded(intent_prefix, update_id, size, commit) {
            Ok(upload) => upload,
            Err(status) => return Err(UploadAnswer { status, undecodable }),
        };
        let image = assemble(&upload);
        let digest = full_sha256(image.as_slice());
        match check_digest(upload.image_sha256.as_str(), digest.as_str()) {
            Some(message) => Err(
                UploadAnswer {
                    status: refuse_upload(intent_prefix, update_id, message),
                    undecodable: None,
                },
            ),
            None => Ok(Candidate { version: upload.version, image }),
        }
    }
}

/// The uploads under way after a commit.
pub open spec fn pending_after_commit(
    pending: Map<Seq<char>, Upload>,
    update_id: Seq<char>,
    payload: Seq<u8>,
) -> Map<Seq<char>, Upload> {
    if commit_ends_upload(payload.len() as int, ending(commit_table(payload))) {
        pending.remove(update_id)
    } else {
        pending
    }
}

/// The upload whose image a commit yields, or why it yields none.
pub open spec fn commit_outcome(
    pending: Map<Seq<char>, Upload>,
    update_id: Seq<char>,
    payload: Seq<u8>,
) -> Result<Upload, Seq<char>> {
    match commit_refusal(
        pending,
        update_id,
        payload.len() as int,
        ending(commit_table(payload)),
    ) {
        Some(message) => Err(message),
        None => match digest_refusal(
            pending[update_id].image_sha256,
            sha256_text(pending[update_id].image()),
        ) {
            Some(message) => Err(message),
            None => Ok(pending[update_id]),
        },
    }
}

/// Why an image with the given digest is refused, when another was announced.
pub fn check_digest(announced: &str, digest: &str) -> (refusal: Option<&'static str>)
    ensures
        match digest_refusal(announced@, digest@) {
            None => refusal is None,
            Some(message) => refusal is Some && refusal->0@ == message,
        },
{
    if equal_ignoring_case(digest, announced) {
        None
    } else {
        Some("Reconstructed firmware SHA-256 does not match prepare.")
    }
}

// ---------------------------------------------------------------------------------------------
// Validating candidates
// ---------------------------------------------------------------------------------------------

/// What the firmware gate makes of a candidate.
pub ghost enum Verdict {
    Bootstrapped,
    NoBaseline,
    Refused(Seq<char>),
    Accepted,
}

/// The firmware gate's verdict on a candidate image.
pub open spec fn verdict(gate: FirmwareGate, image: Seq<u8>) -> Verdict {
    match gate.baseline {
        None => if gate.auto_bootstrap {
            Verdict::Bootstrapped
        } else {
            Verdict::NoBaseline
        },
        Some(baseline) => if change_allowed(image, baseline@, gate.regions@) {
            Verdict::Accepted
        } else {
            Verdict::Refused(validation_reason(image, baseline@, gate.regions@))
        },
    }
}

/// A refusal of a complete image.
pub open spec fn validation_refusal(
    intent_prefix: Seq<char>,
    update_id: Seq<char>,
    message: Seq<char>,
) -> Status {
    plain_status(intent_prefix, update_id, "rejected"@, "validate"@, 0, message)
}

/// How the progress of a transfer is published.
pub open spec fn transfer_status(
    intent_prefix: Seq<char>,
    update_id: Seq<char>,
    report: Report,
) -> Status {
    plain_status(
        intent_prefix,
        update_id,
        if report.phase == "complete"@ {
            "complete"@
        } else {
            "in_progress"@
        },
        report.phase,
        report.percent,
        report.message,
    )
}

/// How the failure of a transfer is published: without what went wrong.
pub open spec fn transfer_failure(intent_prefix: Seq<char>, update_id: Seq<char>) -> Status {
    plain_status(
        intent_prefix,
        update_id,
        "failed"@,
        "error"@,
        0,
        "Firmware update transfer failed."@,
    )
}

/// The status that goes before a verdict.
pub open spec fn validating_status(intent_prefix: Seq<char>, update_id: Seq<char>) -> Status {
    plain_status(
        intent_prefix,
        update_id,
        "validating"@,
        "validate"@,
        0,
        "Validating candidate against the trusted baseline."@,
    )
}

/// The status that tells a verdict.
pub open spec fn verdict_status(
    gate: FirmwareGate,
    intent_prefix: Seq<char>,
    update_id: Seq<char>,
    image: Seq<u8>,
) -> Status {
    match verdict(gate, image) {
        Verdict::Bootstrapped => plain_status(
            intent_prefix,
            update_id,
            "complete"@,
            "baseline"@,
            100,
            "Firmware image stored as the local baseline; no update was transferred."@,
        ),
        Verdict::NoBaseline => validation_refusal(
            intent_prefix,
            update_id,
            "No trusted firmware baseline is configured."@,
        ),
        Verdict::Refused(reason) => validation_refusal(intent_prefix, update_id, reason),
        Verdict::Accepted => if image.len() == 0 {
            transfer_failure(intent_prefix, update_id)
        } else {
            transfer_status(intent_prefix, update_id, connect_report())
        },
    }
}

/// What is published about a candidate.
pub open spec fn candidate_statuses(
    gate: FirmwareGate,
    intent_prefix: Seq<char>,
    update_id: Seq<char>,
    image: Seq<u8>,
) -> Seq<Status> {
    seq![
        validating_status(intent_prefix, update_id),
        verdict_status(gate, intent_prefix, update_id, image),
    ]
}

/// The plan carries this image of this update, as the firmware gate is configured.
pub open spec fn plan_carries(
    plan: TransferPlan,
    gate: FirmwareGate,
    update_id: Seq<char>,
    version: Seq<char>,
    image: Seq<u8>,
) -> bool {
    &&& plan.well_formed()
    &&& plan.key_prefix@ == gate.transfer.key_prefix@
    &&& plan.target@ == gate.transfer.target@
    &&& plan.board_id@ == gate.transfer.board_id@
    &&& plan.chunk_size == gate.transfer.chunk_size
    &&& plan.retries == gate.transfer.retries
    &&& plan.update_id@ == update_id
    &&& plan.version@ == version
    &&& plan.image@ == image
    &&& plan.image_sha256@ == sha256_text(image)
    &&& plan.selective_sha256@ == sha256_text(crate::parameters::excised(image, gate.regions@))
    &&& plan.trusted_manifest@ == gate.trusted_manifest@
}

/// What the firmware gate does with a candidate.
pub open spec fn candidate_handled(
    before: FirmwareGate,
    after: FirmwareGate,
    outcome: GateOutcome,
    intent_prefix: Seq<char>,
    update_id: Seq<char>,
    version: Seq<char>,
    image: Seq<u8>,
) -> bool {
    &&& status_views(outcome.statuses@) == candidate_statuses(
        before,
        intent_prefix,
        update_id,
        image,
    )
    &&& outcome.undecodable is None
    &&& outcome.refused is Some == verdict(before, image) is Refused
    &&& outcome.refused is Some ==> outcome.refused->0.tells(
        image,
        (before.baseline->0)@,
        before.regions@,
    )
    &&& outcome.transfer is Some == (verdict(before, image) is Accepted && image.len() > 0)
    &&& outcome.transfer is Some ==> plan_carries(
        outcome.transfer->0,
        before,
        update_id,
        version,
        image,
    )
    &&& if verdict(before, image) is Bootstrapped {
        after.baseline is Some && (after.baseline->0)@ == image
    } else {
        after.baseline == before.baseline
    }
}

fn plain(
    intent_prefix: &str,
    update_id: &str,
    status: &str,
    phase: &str,
    percent: u8,
    message: &str,
) -> (result: FirmwareStatus)
    ensures
        result@ == plain_status(
            intent_prefix@,
            update_id@,
            status@,
            phase@,
            percent,
            message@,
        ),
{
    make_status(intent_prefix, update_id, status, phase, percent, message, None)
}

/// How the progress of a transfer is published.
pub fn progress_status(
    intent_prefix: &str,
    update_id: &str,
    progress: &TransferProgress,
) -> (status: FirmwareStatus)
    ensures
        status@ == transfer_status(intent_prefix@, update_id@, progress@),
{
    let status = if *progress.phase.as_str() == *"complete" {
        "complete"
    } else {
        "in_progress"
    };
    make_status(
        intent_prefix,
        update_id,
        status,
        progress.phase.as_str(),
        progress.percent,
        progress.message.as_str(),
        None,
    )
}

/// How the failure of a transfer is published.
pub fn failure_status(intent_prefix: &str, update_id: &str) -> (status: FirmwareStatus)
    ensures
        status@ == transfer_failure(intent_prefix@, update_id@),
{
    make_status(
        intent_prefix,
        update_id,
        "failed",
        "error",
        0,
        "Firmware update transfer failed.",
        None,
    )
}

fn two_statuses(first: FirmwareStatus, second: FirmwareStatus) -> (statuses: Vec<FirmwareStatus>)
    ensures
        status_views(statuses@) == seq![first@, second@],
{
    let mut statuses: Vec<FirmwareStatus> = Vec::new();
    statuses.push(first);
    statuses.push(second);
    assert(status_views(statuses@) =~= seq![first@, second@]);
    statuses
}

fn without_transfer(statuses: Vec<FirmwareStatus>) -> (outcome: GateOutcome)
    ensures
        outcome == (GateOutcome { statuses, transfer: None, refused: None, undecodable: None }),
{
    GateOutcome { statuses, transfer: None, refused: None, undecodable: None }
}

fn one_status(status: FirmwareStatus) -> (statuses: Vec<FirmwareStatus>)
    ensures
        status_views(statuses@) == seq![status@],
{
    let mut statuses: Vec<FirmwareStatus> = Vec::new();
    statuses.push(status);
    assert(status_views(statuses@) =~= seq![status@]);
    statuses
}

impl FirmwareGate {
    /// Validates a complete image against the trusted baseline, and plans its transfer where it may
    /// be installed.
    pub fn handle_candidate(
        &mut self,
        intent_prefix: &str,
        update_id: &str,
        version: &str,
        image: Vec<u8>,
    ) -> (outcome: GateOutcome)
        requires
            old(self).well_formed(),
            is_update_id(update_id@),
            byte_length(version@) <= VERSION_CHARS,
        ensures
            final(self).well_formed(),
            final(self).same_settings(*old(self)),
            final(self).uploads == old(self).uploads,
            candidate_handled(
                *old(self),
                *final(self),
                outcome,
                intent_prefix@,
                update_id@,
                version@,
                image@,
            ),
    {
        let validating = plain(
            intent_prefix,
            update_id,
            "validating",
            "validate",
            0,
            "Validating candidate against the trusted baseline.",
        );
        if self.baseline.is_none() {
            if self.auto_bootstrap {
                self.baseline = Some(image);
                let stored = plain(
                    intent_prefix,
                    update_id,
                    "complete",
                    "baseline",
                    100,
                    "Firmware image stored as the local baseline; no update was transferred.",
                );
                return without_transfer(two_statuses(validating, stored));
            }
            let refused = plain(
                intent_prefix,
                update_id,
                "rejected",
                "validate",
                0,
                "No trusted firmware baseline is configured.",
            );
            return without_transfer(two_statuses(validating, refused));
        }
        let baseline: &[u8] = match &self.baseline {
            Some(baseline) => baseline.as_slice(),
            None => &[],
        };
        let validation = validate_parameter_only_change(
            image.as_slice(),
            baseline,
            self.regions.as_slice(),
        );
        if !validation.allowed {
            let refused = plain(
                intent_prefix,
                update_id,
                "rejected",
                "validate",
                0,
                validation.reason.as_str(),
            );
            return GateOutcome {
                statuses: two_statuses(validating, refused),
                transfer: None,
                refused: Some(validation),
                undecodable: None,
            };
        }
        proof {
            lemma_update_id_bytes(update_id@);
        }
        match begin_transfer(
            &self.transfer,
            update_id,
            version,
            image.as_slice(),
            self.regions.as_slice(),
            self.trusted_manifest.as_str(),
        ) {
            Ok((plan, progress)) => GateOutcome {
                statuses: two_statuses(
                    validating,
                    progress_status(intent_prefix, update_id, &progress),
                ),
                transfer: Some(plan),
                refused: None,
                undecodable: None,
            },
            Err(_) => without_transfer(
                two_statuses(validating, failure_status(intent_prefix, update_id)),
            ),
        }
    }
}

// ---------------------------------------------------------------------------------------------
// Intents
// ---------------------------------------------------------------------------------------------

/// What a browser asks for.
pub ghost enum Intent {
    Invalid,
    Incomplete,
    Start,
    Chunk(Seq<Seq<char>>),
    Commit,
    Unknown,
}

/// What the segments of a key ask for; the first is the update's identifier.
pub open spec fn intent_of(segments: Seq<Seq<char>>) -> Intent {
    if !is_update_id(segments[0]) {
        Intent::Invalid
    } else if segments.len() == 1 {
        Intent::Incomplete
    } else if segments[1] == "start"@ && segments.len() == 2 {
        Intent::Start
    } else if segments[1] == "chunk"@ {
        Intent::Chunk(segments.skip(2))
    } else if segments[1] == "commit"@ && segments.len() == 2 {
        Intent::Commit
    } else {
        Intent::Unknown
    }
}

/// The firmware gate stays as it is and publishes one refusal.
pub open spec fn refused_with(
    before: FirmwareGate,
    after: FirmwareGate,
    outcome: GateOutcome,
    status: Status,
) -> bool {
    &&& after.pending() == before.pending()
    &&& after.baseline == before.baseline
    &&& only_status(outcome, status, None)
}

/// The firmware gate publishes one status and starts nothing; `undecodable` is what the decoder
/// said.
pub open spec fn only_status(
    outcome: GateOutcome,
    status: Status,
    undecodable: Option<Seq<char>>,
) -> bool {
    &&& outcome.transfer is None
    &&& outcome.refused is None
    &&& status_views(outcome.statuses@) == seq![status]
    &&& optional_view(outcome.undecodable) == undecodable
}

/// The one status that the firmware gate publishes.
pub open spec fn sole_status(outcome: GateOutcome) -> Status {
    status_views(outcome.statuses@)[0]
}

/// What the firmware gate does with a commit.
pub open spec fn commit_handled(
    before: FirmwareGate,
    after: FirmwareGate,
    outcome: GateOutcome,
    intent_prefix: Seq<char>,
    update_id: Seq<char>,
    payload: Seq<u8>,
) -> bool {
    &&& after.pending() == pending_after_commit(before.pending(), update_id, payload)
    &&& match commit_outcome(before.pending(), update_id, payload) {
        Err(message) => {
            &&& after.baseline == before.baseline
            &&& only_status(
                outcome,
                upload_refusal(intent_prefix, update_id, message),
                commit_fault(payload.len() as int, ending(commit_table(payload))),
            )
        },
        Ok(upload) => candidate_handled(
            before,
            after,
            outcome,
            intent_prefix,
            update_id,
            upload.version,
            upload.image(),
        ),
    }
}

fn only(answer: UploadAnswer) -> (outcome: GateOutcome)
    ensures
        only_status(outcome, answer.status@, optional_view(answer.undecodable)),
{
    GateOutcome {
        statuses: one_status(answer.status),
        transfer: None,
        refused: None,
        undecodable: answer.undecodable,
    }
}

fn only_refusal(intent_prefix: &str, update_id: &str, message: &str) -> (outcome: GateOutcome)
    ensures
        only_status(outcome, upload_refusal(intent_prefix@, update_id@, message@), None),
{
    only(
        UploadAnswer {
            status: refuse_upload(intent_prefix, update_id, message),
            undecodable: None,
        },
    )
}

impl FirmwareGate {
    /// Takes what a browser sent under its firmware key. `suffix` is the part of the key that
    /// follows the firmware intent.
    pub fn handle_intent(
        &mut self,
        intent_prefix: &str,
        suffix: &str,
        payload: &[u8],
    ) -> (outcome: GateOutcome)
        requires
            old(self).well_formed(),
        ensures
            final(self).well_formed(),
            final(self).same_settings(*old(self)),
            ({
                let update_id = pieces(suffix@, '/')[0];
                match intent_of(pieces(suffix@, '/')) {
                    Intent::Invalid => {
                        &&& final(self).pending() == old(self).pending()
                        &&& final(self).baseline == old(self).baseline
                        &&& outcome.transfer is None
                        &&& outcome.refused is None
                        &&& outcome.undecodable is None
                        &&& outcome.statuses@.len() == 0
                    },
                    Intent::Incomplete => refused_with(
                        *old(self),
                        *final(self),
                        outcome,
                        upload_refusal(
                            intent_prefix@,
                            update_id,
                            "Firmware uploads require prepare, chunk, and commit intents."@,
                        ),
                    ),
                    Intent::Start => {
                        &&& final(self).baseline == old(self).baseline
                        &&& only_status(
                            outcome,
                            sole_status(outcome),
                            start_fault(
                                payload@.len() as int,
                                announcement(prepare_table(payload@)),
                            ),
                        )
                        &&& start_handled(
                            *old(self),
                            *final(self),
                            sole_status(outcome),
                            intent_prefix@,
                            update_id,
                            payload@.len() as int,
                            announcement(prepare_table(payload@)),
                        )
                    },
                    Intent::Chunk(place) => {
                        &&& final(self).baseline == old(self).baseline
                        &&& only_status(
                            outcome,
                            sole_status(outcome),
                            chunk_fault(
                                place,
                                payload@.len() as int,
                                part(chunk_table(payload@)),
                            ),
                        )
                        &&& chunk_handled(
                            *old(self),
                            *final(self),
                            sole_status(outcome),
                            intent_prefix@,
                            update_id,
                            place,
                            payload@.len() as int,
                            part(chunk_table(payload@)),
                            part_digest(part(chunk_table(payload@))),
                        )
                    },
                    Intent::Commit => commit_handled(
                        *old(self),
                        *final(self),
                        outcome,
                        intent_prefix@,
                        update_id,
                        payload@,
                    ),
                    Intent::Unknown => refused_with(
                        *old(self),
                        *final(self),
                        outcome,
                        upload_refusal(
                            intent_prefix@,
                            update_id,
                            "Unknown firmware upload operation."@,
                        ),
                    ),
                }
            }),
    {
        let parts = split(suffix, '/');
        proof {
            lemma_pieces_nonempty(suffix@, '/');
            assert(views(parts@).len() == parts@.len());
            assert(views(parts@)[0] == parts@[0]@);
            assert(parts@.len() > 1 ==> views(parts@)[1] == parts@[1]@);
        }
        let update_id = parts[0].as_str();
        if !valid_update_id(update_id) {
            return without_transfer(Vec::new());
        }
        if parts.len() == 1 {
            return only_refusal(
                intent_prefix,
                update_id,
                "Firmware uploads require prepare, chunk, and commit intents.",
            );
        }
        let operation = parts[1].as_str();
        if *operation == *"start" && parts.len() == 2 {
            return only(self.start_upload(intent_prefix, update_id, payload));
        }
        if *operation == *"chunk" {
            let place = vstd::slice::slice_subrange(parts.as_slice(), 2, parts.len());
            assert(views(place@) =~= views(parts@).skip(2));
            proof {
                reveal_strlit("chunk");
                reveal_strlit("start");
                assert("chunk"@[0] != "start"@[0]);
                assert(place@.len() > 0 ==> views(place@)[0] == place@[0]@);
            }
            return only(self.receive_chunk(intent_prefix, update_id, place, payload));
        }
        if *operation == *"commit" && parts.len() == 2 {
            proof {
                reveal_strlit("commit");
                reveal_strlit("start");
                assert("commit"@[0] != "start"@[0]);
            }
            return match self.commit_upload(intent_prefix, update_id, payload) {
                Ok(candidate) => self.handle_candidate(
                    intent_prefix,
                    update_id,
                    candidate.version.as_str(),
                    candidate.image,
                ),
                Err(answer) => only(answer),
            };
        }
        only_refusal(intent_prefix, update_id, "Unknown firmware upload operation.")
    }
}

// ---------------------------------------------------------------------------------------------
// Configuration
// ---------------------------------------------------------------------------------------------

/// What a gate is configured with: the files that were read, and the values of its variables.
#[derive(Debug)]
pub struct GateSettings {
    pub baseline: Option<Vec<u8>>,
    pub policy: Option<ParameterPolicy>,
    pub auto_bootstrap: Option<String>,
    pub max_image_size: Option<String>,
    pub target: Option<String>,
    pub board_id: Option<String>,
    pub chunk_size: Option<String>,
    pub retries: Option<String>,
    pub timeout_ms: Option<String>,
}

/// The receiver that images are meant for.
pub open spec fn target_setting(value: Option<Seq<char>>) -> Seq<char> {
    match value {
        Some(target) => target,
        None => "cubs2"@,
    }
}

/// The manifest of a policy; none is empty.
pub open spec fn manifest_setting(policy: Option<ParameterPolicy>) -> Seq<char> {
    match policy {
        Some(policy) => policy.manifest_json@,
        None => ""@,
    }
}

/// The receiver that images are meant for.
pub fn firmware_target(value: Option<String>) -> (target: String)
    ensures
        target@ == target_setting(setting(value)),
{
    match value {
        Some(target) => target,
        None => "cubs2".to_owned(),
    }
}

impl FirmwareGate {
    /// A gate without uploads. There are no fallbacks: without a policy no byte may change, and
    /// without a baseline no image passes, unless bootstrapping was asked for.
    pub fn from_settings(
        key_prefix: String,
        query_timeout_ms: u64,
        settings: GateSettings,
    ) -> (gate: Self)
        requires
            UPDATE_ID_BYTES + byte_length(target_setting(setting(settings.target))) + byte_length(
                text_or_empty(setting(settings.board_id)),
            ) + VERSION_CHARS + byte_length(manifest_setting(settings.policy)) + 2 * DIGEST_TEXT
                <= TABLE_CAPACITY,
        ensures
            gate.well_formed(),
            gate.pending() == Map::<Seq<char>, Upload>::empty(),
            gate.baseline == settings.baseline,
            gate.regions@ == match settings.policy {
                Some(policy) => policy.regions@,
                None => Seq::empty(),
            },
            gate.trusted_manifest@ == manifest_setting(settings.policy),
            gate.auto_bootstrap == (settings.baseline is None && means_true(
                setting(settings.auto_bootstrap),
            )),
            gate.max_image_size == clamped(
                number_or(
                    setting(settings.max_image_size),
                    DEFAULT_IMAGE_SIZE as int,
                    usize::MAX as int,
                ),
                1,
                LARGEST_IMAGE_SIZE as int,
            ),
            gate.transfer.key_prefix == key_prefix,
            gate.transfer.target@ == target_setting(setting(settings.target)),
            gate.transfer.board_id@ == text_or_empty(setting(settings.board_id)),
            gate.transfer.chunk_size == clamped(
                number_or(setting(settings.chunk_size), 512, usize::MAX as int),
                128,
                4096,
            ),
            gate.transfer.retries == clamped(
                number_or(setting(settings.retries), 3, u32::MAX as int),
                1,
                10,
            ),
            gate.transfer.timeout_ms == clamped(
                number_or(setting(settings.timeout_ms), query_timeout_ms as int, u64::MAX as int),
                100,
                60_000,
            ),
    {
        let auto_bootstrap = settings.baseline.is_none() && env_bool(&settings.auto_bootstrap);
        let max_image_size: usize = env_usize(
            &settings.max_image_size,
            DEFAULT_IMAGE_SIZE,
            1,
            LARGEST_IMAGE_SIZE,
        );
        let chunk_size: usize = env_usize(&settings.chunk_size, 512, 128, 4096);
        let wanted_retries: u32 = env_u32(&settings.retries, 3);
        let retries: u32 = if wanted_retries < 1 {
            1
        } else if wanted_retries > 10 {
            10
        } else {
            wanted_retries
        };
        let wanted_timeout: u64 = env_u64(&settings.timeout_ms, query_timeout_ms);
        let timeout_ms: u64 = if wanted_timeout < 100 {
            100
        } else if wanted_timeout > 60_000 {
            60_000
        } else {
            wanted_timeout
        };
        let board_id = match settings.board_id {
            Some(board_id) => board_id,
            None => String::new(),
        };
        assert(board_id@ =~= text_or_empty(setting(settings.board_id)));
        let (regions, trusted_manifest) = match settings.policy {
            Some(policy) => (policy.regions, policy.manifest_json),
            None => (Vec::new(), "".to_owned()),
        };
        let gate = FirmwareGate {
            baseline: settings.baseline,
            regions,
            trusted_manifest,
            auto_bootstrap,
            uploads: TextMap::new(),
            max_image_size,
            transfer: TransferConfig {
                key_prefix,
                target: firmware_target(settings.target),
                board_id,
                chunk_size,
                retries,
                timeout_ms,
            },
        };
        proof {
            crate::text_map::lemma_map_of(gate.uploads.entries@);
            assert(gate.uploads.entries@.len() == gate.uploads.keys().len());
            assert(gate.pending() =~= Map::<Seq<char>, Upload>::empty());
        }
        gate
    }
}

// ---------------------------------------------------------------------------------------------
// Laws
// ---------------------------------------------------------------------------------------------

/// Whatever is sent to a vehicle differs from the trusted baseline by authorized parameter values
/// only, and carries a valid value for each parameter.
pub proof fn lemma_transfers_are_authorized(
    before: FirmwareGate,
    after: FirmwareGate,
    outcome: GateOutcome,
    intent_prefix: Seq<char>,
    update_id: Seq<char>,
    version: Seq<char>,
    image: Seq<u8>,
)
    requires
        candidate_handled(before, after, outcome, intent_prefix, update_id, version, image),
        outcome.transfer is Some,
    ensures
        before.baseline is Some,
        outcome.transfer->0.image@ == image,
        change_allowed(outcome.transfer->0.image@, (before.baseline->0)@, before.regions@),
        image.len() == (before.baseline->0)@.len(),
        after.baseline == before.baseline,
{
    crate::parameters::lemma_authorized_change(image, (before.baseline->0)@, before.regions@);
}

/// An announcement within limits has no more chunks than the largest image takes in the smallest
/// chunks.
pub proof fn lemma_announced_chunks_are_bounded(
    start: Announcement,
    update_id: Seq<char>,
    max_image_size: int,
)
    requires
        announcement_fits(start, update_id, max_image_size),
    ensures
        1 <= start.chunk_count <= (max_image_size + UPLOAD_CHUNK_MIN - 1) / UPLOAD_CHUNK_MIN as int,
{
    let size = announced_size(start);
    let chunk_size = start.requested_chunk_size as int;
    lemma_chunk_count(size, chunk_size);
    assert((size - 1) / chunk_size <= (size - 1) / 1024) by (nonlinear_arith)
        requires
            1024 <= chunk_size,
            0 < size,
    ;
}

/// Every firmware command that the policy authorizes is one that can be handled here: an
/// announcement, one chunk with an index, or a commit, and none of them is too large.
pub proof fn lemma_authorized_uploads_are_understood(suffix: Seq<char>, payload: Seq<u8>)
    requires
        firmware_outcome(suffix, payload) is Ok,
    ensures
        match intent_of(pieces(suffix, '/')) {
            Intent::Start => payload.len() <= MAX_PREPARE_PAYLOAD,
            Intent::Chunk(place) => place.len() == 1 && place_index(place) is Some && payload.len()
                <= UPLOAD_CHUNK_MAX + MAX_CHUNK_OVERHEAD,
            Intent::Commit => payload.len() <= MAX_COMMIT_PAYLOAD,
            _ => false,
        },
{
    reveal_strlit("start");
    reveal_strlit("chunk");
    reveal_strlit("commit");
    assert("chunk"@[0] != "start"@[0]);
    assert("commit"@.len() != "start"@.len());
    assert("commit"@.len() != "chunk"@.len());
}

/// Without a baseline nothing is sent to a vehicle.
pub proof fn lemma_no_baseline_no_transfer(
    before: FirmwareGate,
    after: FirmwareGate,
    outcome: GateOutcome,
    intent_prefix: Seq<char>,
    update_id: Seq<char>,
    version: Seq<char>,
    image: Seq<u8>,
)
    requires
        before.baseline is None,
        candidate_handled(before, after, outcome, intent_prefix, update_id, version, image),
    ensures
        outcome.transfer is None,
        after.baseline is Some ==> before.auto_bootstrap,
{
}

/// A commit that is not refused yields an image of the announced size and digest.
pub proof fn lemma_committed_image(
    pending: Map<Seq<char>, Upload>,
    update_id: Seq<char>,
    payload: Seq<u8>,
)
    requires
        commit_outcome(pending, update_id, payload) is Ok,
        pending[update_id].consistent(),
    ensures
        pending.dom().contains(update_id),
        pending_after_commit(pending, update_id, payload) == pending.remove(update_id),
        commit_outcome(pending, update_id, payload)->Ok_0 == pending[update_id],
        pending[update_id].image().len() == pending[update_id].expected_size,
        same_ignoring_case(
            sha256_text(pending[update_id].image()),
            pending[update_id].image_sha256,
        ),
{
    lemma_received_bytes(pending[update_id]);
}

/// A chunk only fills its own place: the chunks that were there, and all other uploads, stay as
/// they were.
pub proof fn lemma_chunk_leaves_the_rest(
    before: FirmwareGate,
    after: FirmwareGate,
    status: Status,
    intent_prefix: Seq<char>,
    update_id: Seq<char>,
    place: Seq<Seq<char>>,
    size: int,
    part: Option<Part>,
    digest: Seq<char>,
)
    requires
        chunk_handled(
            before,
            after,
            status,
            intent_prefix,
            update_id,
            place,
            size,
            part,
            digest,
        ),
    ensures
        forall|other: Seq<char>|
            other != update_id ==> (#[trigger] after.pending().dom().contains(other)
                == before.pending().dom().contains(other)),
        forall|other: Seq<char>|
            other != update_id && before.pending().dom().contains(other) ==> #[trigger]
            after.pending()[other] == before.pending()[other],
        before.pending().dom().contains(update_id) ==> {
            let old_chunks = before.pending()[update_id].chunks;
            let new_chunks = after.pending()[update_id].chunks;
            &&& new_chunks.len() == old_chunks.len()
            &&& forall|i: int|
                0 <= i < old_chunks.len() && old_chunks[i] is Some ==> #[trigger] new_chunks[i]
                    == old_chunks[i]
        },
{
}

} // verus!
