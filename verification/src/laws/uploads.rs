//! Uploads by browsers: what the firmware gate takes in, what it puts together, and what it sends
//! on.

use crate::digest::sha256_text;
use crate::gate::{
    candidate_handled, chunk_fault, chunk_handled, commit_fault, commit_handled, commit_outcome,
    intent_of, manifest_setting, part_digest, place_index, start_fault, start_handled,
    target_setting, transfer_failure, transfer_status, FirmwareGate, GateOutcome,
    DEFAULT_IMAGE_SIZE, LARGEST_IMAGE_SIZE,
};
use crate::json::Json;
use crate::laws::images::{differ_in_regions_only, lemma_allowed_images, within_limits};
use crate::laws::texts::{lemma_decimal_notation, lemma_first_piece, lemma_one_piece};
use crate::parameters::ParameterPolicy;
use crate::status::{
    is_sha256_hex, is_update_id, plain_status, safe_version, status_fields, status_key,
    status_views, Status, UploadProgress,
};
use crate::tables::{
    announcement, commit_table, ending, part, Announcement, ChunkTable, CommitTable, Ending, Part,
    PrepareTable,
};
use crate::text::{
    decimal_text, finishes_with, lemma_decimal_is_read_back, lower, parsed_unsigned, pieces,
};
use crate::transfer::{chunk_count, lemma_chunk_bounds, Report};
use crate::upload::{
    assembled, lemma_received_bytes, lemma_upload_makes_the_image, lemma_with_chunk, Upload,
};
use vstd::arithmetic::div_mod::lemma_fundamental_div_mod;
use vstd::prelude::*;

verus! {

/// The status key: what precedes `/cmd` in the intent prefix, or all of it, and the update below
/// the firmware's statuses.
pub open spec fn names_status(key: Seq<char>, prefix: Seq<char>, update_id: Seq<char>) -> bool {
    &&& forall|root: Seq<char>|
        prefix == #[trigger] (root + "/cmd"@) ==> key == root + "/status/firmware/"@ + update_id
    &&& (forall|root: Seq<char>| prefix != #[trigger] (root + "/cmd"@)) ==> key == prefix
        + "/status/firmware/"@ + update_id
}

/// The status tells this of the update, without upload progress.
pub open spec fn says(
    status: Status,
    prefix: Seq<char>,
    update_id: Seq<char>,
    state: Seq<char>,
    phase: Seq<char>,
    percent: int,
    message: Seq<char>,
) -> bool {
    &&& names_status(status.key, prefix, update_id)
    &&& status.update_id == update_id
    &&& status.status == state
    &&& status.phase == phase
    &&& status.percent == percent
    &&& status.message == message
}

/// A digest of sixty-four hexadecimal digits.
pub open spec fn is_digest(text: Seq<char>) -> bool {
    text.len() == 64 && forall|i: int|
        0 <= i < 64 ==> ('0' <= #[trigger] text[i] <= '9' || 'a' <= text[i] <= 'f' || 'A'
            <= text[i] <= 'F')
}

/// The texts differ at most in the case of their letters.
pub open spec fn alike(left: Seq<char>, right: Seq<char>) -> bool {
    lower(left) == lower(right)
}

/// The lesser of two numbers.
pub open spec fn lesser(left: int, right: int) -> int {
    if left < right {
        left
    } else {
        right
    }
}

proof fn lemma_status_key(prefix: Seq<char>, update_id: Seq<char>)
    ensures
        names_status(status_key(prefix, update_id), prefix, update_id),
{
    let key = status_key(prefix, update_id);
    assert forall|root: Seq<char>| prefix == #[trigger] (root + "/cmd"@) implies key == root
        + "/status/firmware/"@ + update_id by {
        assert(prefix.skip(prefix.len() - "/cmd"@.len()) =~= "/cmd"@);
        assert(prefix.take(prefix.len() - "/cmd"@.len()) =~= root);
    }
    if finishes_with(prefix, "/cmd"@) {
        let root = prefix.take(prefix.len() - "/cmd"@.len());
        assert(prefix =~= root + "/cmd"@);
    }
}

proof fn lemma_digest(text: Seq<char>)
    ensures
        is_digest(text) == is_sha256_hex(text),
{
    if is_sha256_hex(text) {
        assert forall|i: int| 0 <= i < 64 implies ('0' <= #[trigger] text[i] <= '9' || 'a'
            <= text[i] <= 'f' || 'A' <= text[i] <= 'F') by {
            assert(crate::text::is_hex_digit(text[i]));
        }
    }
    if is_digest(text) {
        assert forall|i: int| 0 <= i < text.len() implies crate::text::is_hex_digit(
            #[trigger] text[i],
        ) by {}
    }
}

proof fn lemma_states_differ()
    ensures
        "in_progress"@ != "rejected"@,
        "validating"@ != "rejected"@,
        "complete"@ != "rejected"@,
{
    reveal_strlit("in_progress");
    reveal_strlit("rejected");
    reveal_strlit("validating");
    reveal_strlit("complete");
    assert("in_progress"@.len() == 11);
    assert("rejected"@.len() == 8);
    assert("validating"@.len() == 10);
    assert("complete"@[0] == 'c');
    assert("rejected"@[0] == 'r');
}

// ---------------------------------------------------------------------------------------------
// Tables
// ---------------------------------------------------------------------------------------------

/// What an upload is made of stands in its tables, field by field.
pub proof fn lemma_tables_hold_uploads(
    announced: PrepareTable,
    carried: ChunkTable,
    committed: CommitTable,
)
    ensures
        announcement(None) is None,
        part(None) is None,
        ending(None) is None,
        ({
            let start = announcement(Some(announced));
            &&& start is Some
            &&& announced.update_id is Some ==> start->0.update_id == announced.update_id->0
            &&& announced.version is Some ==> start->0.version == announced.version->0
            &&& announced.image_sha256 is Some ==> start->0.image_sha256
                == announced.image_sha256->0
            &&& announced.update_id is None ==> start->0.update_id.len() == 0
            &&& announced.version is None ==> start->0.version.len() == 0
            &&& announced.image_sha256 is None ==> start->0.image_sha256.len() == 0
            &&& start->0.image_size == announced.image_size
            &&& start->0.requested_chunk_size == announced.requested_chunk_size
            &&& start->0.chunk_count == announced.chunk_count
        }),
        ({
            let chunk = part(Some(carried));
            &&& chunk is Some
            &&& carried.update_id is Some ==> chunk->0.update_id == carried.update_id->0
            &&& carried.data is Some ==> chunk->0.data == carried.data->0
            &&& carried.chunk_sha256 is Some ==> chunk->0.chunk_sha256 == carried.chunk_sha256->0
            &&& carried.update_id is None ==> chunk->0.update_id.len() == 0
            &&& carried.data is None ==> chunk->0.data.len() == 0
            &&& carried.chunk_sha256 is None ==> chunk->0.chunk_sha256.len() == 0
            &&& chunk->0.chunk_index == carried.chunk_index
            &&& chunk->0.offset == carried.offset
            &&& chunk->0.final_chunk == carried.final_chunk
        }),
        ({
            let end = ending(Some(committed));
            &&& end is Some
            &&& committed.update_id is Some ==> end->0.update_id == committed.update_id->0
            &&& committed.image_sha256 is Some ==> end->0.image_sha256 == committed.image_sha256->0
            &&& committed.update_id is None ==> end->0.update_id.len() == 0
            &&& committed.image_sha256 is None ==> end->0.image_sha256.len() == 0
        }),
{
}

// ---------------------------------------------------------------------------------------------
// Starting
// ---------------------------------------------------------------------------------------------

/// The announcement may start an upload.
pub open spec fn may_start(
    gate: FirmwareGate,
    update_id: Seq<char>,
    size: int,
    start: Option<Announcement>,
) -> bool {
    &&& size <= 4096
    &&& start is Some
    &&& start->0.update_id == update_id
    &&& 0 < start->0.image_size <= gate.max_image_size
    &&& 1024 <= start->0.requested_chunk_size <= 65536
    &&& (start->0.chunk_count - 1) * start->0.requested_chunk_size < start->0.image_size
    &&& start->0.image_size <= start->0.chunk_count * start->0.requested_chunk_size
    &&& is_digest(start->0.image_sha256)
    &&& gate.pending().dom().len() < 4 || gate.pending().dom().contains(update_id)
}

/// An announcement starts an upload exactly when its sizes fit together and into the limits, its
/// digest is one, and no more than four uploads are under way. The upload expects what was
/// announced and has no chunk yet; every other upload stays as it was. Anything else is rejected
/// and changes nothing.
pub proof fn lemma_started_uploads(
    before: FirmwareGate,
    after: FirmwareGate,
    status: Status,
    prefix: Seq<char>,
    update_id: Seq<char>,
    size: int,
    start: Option<Announcement>,
)
    requires
        before.max_image_size < usize::MAX,
        start_handled(before, after, status, prefix, update_id, size, start),
    ensures
        status.status == "in_progress"@ <==> may_start(before, update_id, size, start),
        may_start(before, update_id, size, start) ==> {
            let begun = after.pending()[update_id];
            &&& says(
                status,
                prefix,
                update_id,
                "in_progress"@,
                "upload"@,
                0,
                "GCS is receiving the browser firmware image."@,
            )
            &&& status.upload == Some(
                UploadProgress {
                    received: 0,
                    total: start->0.image_size as usize,
                    chunk_index: None,
                },
            )
            &&& after.pending().dom() == before.pending().dom().insert(update_id)
            &&& forall|other: Seq<char>|
                other != update_id && before.pending().dom().contains(other) ==> #[trigger]
                after.pending()[other] == before.pending()[other]
            &&& begun.expected_size == start->0.image_size
            &&& begun.chunk_size == start->0.requested_chunk_size
            &&& begun.chunks.len() == start->0.chunk_count
            &&& forall|i: int| 0 <= i < begun.chunks.len() ==> (#[trigger] begun.chunks[i]) is None
            &&& alike(begun.image_sha256, start->0.image_sha256)
            &&& begun.version == safe_version(start->0.version)
        },
        !may_start(before, update_id, size, start) ==> {
            &&& after.pending() == before.pending()
            &&& says(
                status,
                prefix,
                update_id,
                "rejected"@,
                "upload"@,
                0,
                if size > 4096 {
                    "Firmware prepare payload is too large."@
                } else if start is None {
                    "Firmware prepare payload is not a valid Synapse FlatBuffer."@
                } else if start->0.update_id == update_id && 0 < start->0.image_size
                    <= before.max_image_size && 1024 <= start->0.requested_chunk_size <= 65536
                    && (start->0.chunk_count - 1) * start->0.requested_chunk_size
                    < start->0.image_size && start->0.image_size <= start->0.chunk_count
                    * start->0.requested_chunk_size && is_digest(start->0.image_sha256) {
                    "Too many firmware uploads are pending."@
                } else {
                    "Firmware upload size or chunk metadata is outside GCS limits."@
                },
            )
            &&& status.upload is None
        },
{
    lemma_states_differ();
    lemma_status_key(prefix, update_id);
    if start is Some {
        let announced = start->0;
        lemma_digest(announced.image_sha256);
        crate::text::lemma_lower_idempotent(announced.image_sha256);
        if 0 < announced.image_size && announced.requested_chunk_size > 0 {
            lemma_count_fits(
                announced.image_size as int,
                announced.requested_chunk_size as int,
                announced.chunk_count as int,
            );
        }
    }
}

proof fn lemma_count_fits(length: int, chunk_size: int, count: int)
    requires
        length > 0,
        chunk_size > 0,
    ensures
        count == chunk_count(length, chunk_size) <==> (count - 1) * chunk_size < length && length
            <= count * chunk_size,
{
    let quotient = (length - 1) / chunk_size;
    lemma_fundamental_div_mod(length - 1, chunk_size);
    assert(chunk_size * quotient == quotient * chunk_size) by (nonlinear_arith);
    assert((quotient + 1) * chunk_size == quotient * chunk_size + chunk_size) by (nonlinear_arith);
    if (count - 1) * chunk_size < length && length <= count * chunk_size {
        assert(count == quotient + 1) by (nonlinear_arith)
            requires
                (count - 1) * chunk_size < length,
                length <= count * chunk_size,
                quotient * chunk_size <= length - 1,
                length - 1 < quotient * chunk_size + chunk_size,
                chunk_size > 0,
        ;
    }
}

/// The version of an upload has at most 128 characters, all of them letters, digits, dots, hyphens
/// or underscores; those that were such stay, the others become underscores. An empty version gets
/// a name.
pub proof fn lemma_versions_are_safe(value: Seq<char>)
    ensures
        value.len() == 0 ==> safe_version(value) == "browser-upload.bin"@,
        value.len() > 0 ==> safe_version(value).len() == lesser(value.len() as int, 128),
        value.len() > 0 ==> forall|i: int|
            0 <= i < safe_version(value).len() ==> #[trigger] safe_version(value)[i] == if (
            'a' <= value[i] <= 'z' || 'A' <= value[i] <= 'Z' || '0' <= value[i] <= '9' || value[i]
                == '.' || value[i] == '-' || value[i] == '_') {
                value[i]
            } else {
                '_'
            },
{
}

/// The identifiers of updates: one to eighty letters, digits, hyphens and underscores.
pub proof fn lemma_update_ids(value: Seq<char>)
    ensures
        is_update_id(value) <==> 1 <= value.len() <= 80 && forall|i: int|
            0 <= i < value.len() ==> ('a' <= #[trigger] value[i] <= 'z' || 'A' <= value[i] <= 'Z'
                || '0' <= value[i] <= '9' || value[i] == '-' || value[i] == '_'),
{
    if is_update_id(value) {
        assert forall|i: int| 0 <= i < value.len() implies ('a' <= #[trigger] value[i] <= 'z'
            || 'A' <= value[i] <= 'Z' || '0' <= value[i] <= '9' || value[i] == '-' || value[i]
            == '_') by {
            assert(crate::status::is_id_char(value[i]));
        }
    }
}

// ---------------------------------------------------------------------------------------------
// Chunks
// ---------------------------------------------------------------------------------------------

/// The chunk is the one that belongs at the index of the upload, and its own digest is that of its
/// data.
pub open spec fn belongs_at(
    part: Part,
    update_id: Seq<char>,
    upload: Upload,
    index: int,
) -> bool {
    &&& part.update_id == update_id
    &&& part.chunk_index == index
    &&& part.offset == index * upload.chunk_size
    &&& part.data.len() == lesser(
        upload.chunk_size,
        upload.expected_size - index * upload.chunk_size,
    )
    &&& part.final_chunk == (index == upload.chunks.len() - 1)
    &&& is_digest(part.chunk_sha256)
    &&& alike(part.chunk_sha256, sha256_text(part.data))
}

/// The chunk is taken in: its key names one index of an upload that was started, it belongs there,
/// and it is new or what is there already.
pub open spec fn may_take(
    gate: FirmwareGate,
    update_id: Seq<char>,
    place: Seq<Seq<char>>,
    size: int,
    part: Option<Part>,
) -> bool {
    &&& place.len() == 1
    &&& parsed_unsigned(place[0], usize::MAX as nat) is Some
    &&& size <= 69632
    &&& part is Some
    &&& gate.pending().dom().contains(update_id)
    &&& ({
        let upload = gate.pending()[update_id];
        let index = parsed_unsigned(place[0], usize::MAX as nat)->0 as int;
        &&& index < upload.chunks.len()
        &&& belongs_at(part->0, update_id, upload, index)
        &&& upload.chunks[index] is None || upload.chunks[index]->0 == part->0.data
    })
}

proof fn lemma_belongs(gate: FirmwareGate, update_id: Seq<char>, index: int, part: Part)
    requires
        gate.well_formed(),
        gate.pending().dom().contains(update_id),
        0 <= index < gate.pending()[update_id].chunks.len(),
    ensures
        belongs_at(part, update_id, gate.pending()[update_id], index)
            == crate::gate::chunk_fits(
            part,
            sha256_text(part.data),
            update_id,
            gate.pending()[update_id],
            index,
        ),
        gate.pending()[update_id].consistent(),
{
    let upload = gate.pending()[update_id];
    assert(gate.uploads@.dom().contains(update_id));
    assert(upload == gate.uploads@[update_id]@);
    lemma_digest(part.chunk_sha256);
    lemma_chunk_bounds(upload.expected_size, upload.chunk_size, index);
}

/// A chunk is taken in exactly when it belongs to a started upload, arrived undamaged, and does not
/// contradict what is there. Its data are then stored at its index and nothing else changes; the
/// status says how much has come in. Any other chunk is rejected and leaves every upload as it was.
pub proof fn lemma_taken_chunks(
    before: FirmwareGate,
    after: FirmwareGate,
    status: Status,
    prefix: Seq<char>,
    update_id: Seq<char>,
    place: Seq<Seq<char>>,
    size: int,
    part: Option<Part>,
)
    requires
        before.well_formed(),
        chunk_handled(
            before,
            after,
            status,
            prefix,
            update_id,
            place,
            size,
            part,
            part_digest(part),
        ),
    ensures
        status.status == "in_progress"@ <==> may_take(before, update_id, place, size, part),
        may_take(before, update_id, place, size, part) ==> {
            let index = parsed_unsigned(place[0], usize::MAX as nat)->0 as int;
            let old_upload = before.pending()[update_id];
            let new_upload = after.pending()[update_id];
            let received = old_upload.received() + if old_upload.chunks[index] is None {
                part->0.data.len() as int
            } else {
                0
            };
            &&& after.pending().dom() == before.pending().dom()
            &&& forall|other: Seq<char>|
                other != update_id && before.pending().dom().contains(other) ==> #[trigger]
                after.pending()[other] == before.pending()[other]
            &&& new_upload.chunks.len() == old_upload.chunks.len()
            &&& new_upload.chunks[index] == Some(part->0.data)
            &&& forall|i: int|
                0 <= i < old_upload.chunks.len() && i != index ==> #[trigger] new_upload.chunks[i]
                    == old_upload.chunks[i]
            &&& new_upload.expected_size == old_upload.expected_size
            &&& new_upload.chunk_size == old_upload.chunk_size
            &&& new_upload.version == old_upload.version
            &&& new_upload.image_sha256 == old_upload.image_sha256
            &&& says(
                status,
                prefix,
                update_id,
                "in_progress"@,
                "upload"@,
                received * 5 / old_upload.expected_size,
                "Received "@ + decimal_text(received as nat) + "/"@ + decimal_text(
                    old_upload.expected_size as nat,
                ) + " browser bytes."@,
            )
            &&& status.upload == Some(
                UploadProgress {
                    received: received as usize,
                    total: old_upload.expected_size as usize,
                    chunk_index: Some(index as usize),
                },
            )
        },
        !may_take(before, update_id, place, size, part) ==> {
            &&& after.pending() == before.pending()
            &&& status.status == "rejected"@
            &&& status.phase == "upload"@
            &&& status.percent == 0
            &&& status.update_id == update_id
            &&& names_status(status.key, prefix, update_id)
            &&& status.upload is None
        },
{
    lemma_states_differ();
    lemma_status_key(prefix, update_id);
    if place_index(place) is Some && part is Some && before.pending().dom().contains(update_id) {
        let index = place_index(place)->0 as int;
        let upload = before.pending()[update_id];
        if index < upload.chunks.len() {
            lemma_belongs(before, update_id, index, part->0);
            if may_take(before, update_id, place, size, part) {
                let data = part->0.data;
                lemma_chunk_bounds(upload.expected_size, upload.chunk_size, index);
                lemma_received_bytes(upload);
                if upload.chunks[index] is None {
                    lemma_with_chunk(upload, index, data);
                    lemma_received_bytes(upload.with_chunk(index, data));
                } else {
                    assert(upload.with_chunk(index, data).chunks =~= upload.chunks);
                }
                let received = upload.with_chunk(index, data).received();
                assert(after.pending().dom() =~= before.pending().dom());
                assert(0 <= received * 5 / upload.expected_size <= 5) by (nonlinear_arith)
                    requires
                        0 <= received <= upload.expected_size,
                        upload.expected_size > 0,
                ;
            }
        }
    }
}

/// Why a chunk is rejected: the first that is wrong of its index, its key and size, its table, its
/// upload, its index within the upload, its contents against the upload and its own digest, and its
/// contents against an earlier chunk.
pub proof fn lemma_rejected_chunks(
    before: FirmwareGate,
    after: FirmwareGate,
    status: Status,
    prefix: Seq<char>,
    update_id: Seq<char>,
    place: Seq<Seq<char>>,
    size: int,
    part: Option<Part>,
)
    requires
        before.well_formed(),
        chunk_handled(
            before,
            after,
            status,
            prefix,
            update_id,
            place,
            size,
            part,
            part_digest(part),
        ),
        !may_take(before, update_id, place, size, part),
    ensures
        ({
            let index = parsed_unsigned(place[0], usize::MAX as nat)->0 as int;
            let upload = before.pending()[update_id];
            status.message == if place.len() == 0 || parsed_unsigned(
                place[0],
                usize::MAX as nat,
            ) is None {
                "Firmware chunk index is invalid."@
            } else if place.len() > 1 || size > 69632 {
                "Firmware chunk key or payload is invalid."@
            } else if part is None {
                "Firmware chunk payload is not a valid Synapse FlatBuffer."@
            } else if !before.pending().dom().contains(update_id) {
                "Firmware upload was not started."@
            } else if index >= upload.chunks.len() {
                "Firmware chunk index is out of range."@
            } else if !belongs_at(part->0, update_id, upload, index) {
                "Firmware chunk metadata or SHA-256 does not match the upload."@
            } else {
                "A repeated firmware chunk changed its contents."@
            }
        }),
{
    if place_index(place) is Some && part is Some && before.pending().dom().contains(update_id) {
        let index = place_index(place)->0 as int;
        if index < before.pending()[update_id].chunks.len() {
            lemma_belongs(before, update_id, index, part->0);
        }
    }
}

// ---------------------------------------------------------------------------------------------
// Commits
// ---------------------------------------------------------------------------------------------

/// The chunks of an upload, one after the other; a missing chunk counts as empty.
pub open spec fn put_together(upload: Upload) -> Seq<u8> {
    upload.chunks.map_values(
        |chunk: Option<Seq<u8>>|
            match chunk {
                Some(data) => data,
                None => Seq::empty(),
            },
    ).flatten()
}

proof fn lemma_put_together(upload: Upload)
    ensures
        put_together(upload) == upload.image(),
{
    lemma_assembled(upload.chunks);
}

proof fn lemma_assembled(chunks: Seq<Option<Seq<u8>>>)
    ensures
        assembled(chunks, chunks.len() as int) == chunks.map_values(
            |chunk: Option<Seq<u8>>|
                match chunk {
                    Some(data) => data,
                    None => Seq::empty(),
                },
        ).flatten(),
    decreases chunks.len(),
{
    let data_of = |chunk: Option<Seq<u8>>|
        match chunk {
            Some(data) => data,
            None => Seq::<u8>::empty(),
        };
    let all = chunks.map_values(data_of);
    if chunks.len() > 0 {
        let shorter = chunks.drop_last();
        lemma_assembled(shorter);
        lemma_assembled_prefix(chunks, shorter, shorter.len() as int);
        assert(all.drop_last() =~= shorter.map_values(data_of));
        all.lemma_flatten_and_flatten_alt_are_equivalent();
        all.drop_last().lemma_flatten_and_flatten_alt_are_equivalent();
        assert(all.flatten_alt() == all.drop_last().flatten_alt() + all.last());
    } else {
        assert(all.flatten() =~= Seq::empty());
    }
}

proof fn lemma_assembled_prefix(
    chunks: Seq<Option<Seq<u8>>>,
    shorter: Seq<Option<Seq<u8>>>,
    count: int,
)
    requires
        0 <= count <= shorter.len(),
        shorter.len() <= chunks.len(),
        forall|i: int| 0 <= i < shorter.len() ==> shorter[i] == chunks[i],
    ensures
        assembled(chunks, count) == assembled(shorter, count),
    decreases count,
{
    if count > 0 {
        lemma_assembled_prefix(chunks, shorter, count - 1);
    }
}

/// The commit yields an image: it is for an upload that has all of its chunks, names the announced
/// digest, and the chunks put together have that digest.
pub open spec fn may_commit(
    gate: FirmwareGate,
    update_id: Seq<char>,
    size: int,
    end: Option<Ending>,
) -> bool {
    &&& size <= 2048
    &&& end is Some
    &&& gate.pending().dom().contains(update_id)
    &&& ({
        let upload = gate.pending()[update_id];
        &&& end->0.update_id == update_id
        &&& is_digest(end->0.image_sha256)
        &&& alike(end->0.image_sha256, upload.image_sha256)
        &&& forall|i: int| 0 <= i < upload.chunks.len() ==> (#[trigger] upload.chunks[i]) is Some
        &&& alike(sha256_text(put_together(upload)), upload.image_sha256)
    })
}

/// A commit ends its upload as soon as it can be read, and leaves the others alone. It yields an
/// image exactly when the upload is complete and the digests agree; otherwise it is rejected, says
/// why, and nothing is sent or kept.
pub proof fn lemma_commits(
    before: FirmwareGate,
    after: FirmwareGate,
    outcome: GateOutcome,
    prefix: Seq<char>,
    update_id: Seq<char>,
    payload: Seq<u8>,
)
    requires
        before.well_formed(),
        commit_handled(before, after, outcome, prefix, update_id, payload),
    ensures
        ({
            let end = ending(commit_table(payload));
            let upload = before.pending()[update_id];
            &&& payload.len() <= 2048 && commit_table(payload) is Some ==> after.pending().dom()
                == before.pending().dom().remove(update_id)
            &&& payload.len() > 2048 || commit_table(payload) is None ==> after.pending().dom()
                == before.pending().dom()
            &&& forall|other: Seq<char>|
                other != update_id && before.pending().dom().contains(other) ==> #[trigger]
                after.pending()[other] == before.pending()[other]
            &&& may_commit(before, update_id, payload.len() as int, end) ==> candidate_handled(
                before,
                after,
                outcome,
                prefix,
                update_id,
                upload.version,
                put_together(upload),
            )
            &&& !may_commit(before, update_id, payload.len() as int, end) ==> {
                &&& outcome.transfer is None
                &&& outcome.refused is None
                &&& after.baseline == before.baseline
                &&& outcome.statuses@.len() == 1
                &&& outcome.statuses@[0].upload is None
                &&& says(
                    outcome.statuses@[0]@,
                    prefix,
                    update_id,
                    "rejected"@,
                    "upload"@,
                    0,
                    if payload.len() > 2048 {
                        "Firmware commit payload is too large."@
                    } else if end is None {
                        "Firmware commit payload is not a valid Synapse FlatBuffer."@
                    } else if !before.pending().dom().contains(update_id) {
                        "Firmware upload was not started."@
                    } else if !(end->0.update_id == update_id && is_digest(end->0.image_sha256)
                        && alike(end->0.image_sha256, upload.image_sha256)) {
                        "Firmware commit identifier or SHA-256 does not match prepare."@
                    } else if !(forall|i: int|
                        0 <= i < upload.chunks.len() ==> (#[trigger] upload.chunks[i]) is Some) {
                        "Firmware upload is incomplete."@
                    } else {
                        "Reconstructed firmware SHA-256 does not match prepare."@
                    },
                )
            }
        }),
{
    let end = ending(commit_table(payload));
    let upload = before.pending()[update_id];
    lemma_status_key(prefix, update_id);
    lemma_put_together(upload);
    if end is Some {
        lemma_digest(end->0.image_sha256);
    }
    assert(after.pending().dom() =~= if payload.len() <= 2048 && commit_table(payload) is Some {
        before.pending().dom().remove(update_id)
    } else {
        before.pending().dom()
    });
    if !may_commit(before, update_id, payload.len() as int, end) {
        assert(commit_outcome(before.pending(), update_id, payload) is Err);
        assert(status_views(outcome.statuses@).len() == outcome.statuses@.len());
        assert(status_views(outcome.statuses@)[0] == outcome.statuses@[0]@);
    }
}

// ---------------------------------------------------------------------------------------------
// Candidates
// ---------------------------------------------------------------------------------------------

/// The image may replace the baseline.
pub open spec fn may_install(gate: FirmwareGate, image: Seq<u8>) -> bool {
    &&& gate.baseline is Some
    &&& differ_in_regions_only(image, (gate.baseline->0)@, gate.regions@)
    &&& forall|i: int|
        0 <= i < gate.regions@.len() ==> within_limits(image, #[trigger] gate.regions@[i])
}

/// A transfer is planned exactly for an image that differs from the baseline inside the regions
/// only and stores a finite value within the limits of every region; the plan carries that image
/// with its digest, for the configured vehicle. The first image becomes the baseline where that was
/// asked for; everything else is refused, and the baseline stays.
pub proof fn lemma_candidates(
    before: FirmwareGate,
    after: FirmwareGate,
    outcome: GateOutcome,
    prefix: Seq<char>,
    update_id: Seq<char>,
    version: Seq<char>,
    image: Seq<u8>,
)
    requires
        candidate_handled(before, after, outcome, prefix, update_id, version, image),
    ensures
        outcome.transfer is Some <==> may_install(before, image) && image.len() > 0,
        outcome.transfer is Some ==> {
            let plan = outcome.transfer->0;
            &&& plan.image@ == image
            &&& plan.image_sha256@ == sha256_text(image)
            &&& plan.update_id@ == update_id
            &&& plan.version@ == version
            &&& plan.key_prefix@ == before.transfer.key_prefix@
            &&& plan.target@ == before.transfer.target@
            &&& plan.board_id@ == before.transfer.board_id@
            &&& plan.chunk_size == before.transfer.chunk_size
            &&& plan.retries == before.transfer.retries
            &&& plan.trusted_manifest@ == before.trusted_manifest@
            &&& plan.selective_sha256@ == sha256_text(
                crate::parameters::excised(image, before.regions@),
            )
        },
        before.baseline is Some || !before.auto_bootstrap ==> after.baseline == before.baseline,
        before.baseline is None && before.auto_bootstrap ==> after.baseline is Some && (
        after.baseline->0)@ == image,
        outcome.refused is Some <==> before.baseline is Some && !may_install(before, image),
        outcome.refused is Some ==> outcome.refused->0.tells(
            image,
            (before.baseline->0)@,
            before.regions@,
        ),
        outcome.statuses@.len() == 2,
        says(
            outcome.statuses@[0]@,
            prefix,
            update_id,
            "validating"@,
            "validate"@,
            0,
            "Validating candidate against the trusted baseline."@,
        ),
        ({
            let verdict = outcome.statuses@[1]@;
            if before.baseline is None {
                if before.auto_bootstrap {
                    says(
                        verdict,
                        prefix,
                        update_id,
                        "complete"@,
                        "baseline"@,
                        100,
                        "Firmware image stored as the local baseline; no update was transferred."@,
                    )
                } else {
                    says(
                        verdict,
                        prefix,
                        update_id,
                        "rejected"@,
                        "validate"@,
                        0,
                        "No trusted firmware baseline is configured."@,
                    )
                }
            } else if !may_install(before, image) {
                says(
                    verdict,
                    prefix,
                    update_id,
                    "rejected"@,
                    "validate"@,
                    0,
                    if differ_in_regions_only(image, (before.baseline->0)@, before.regions@) {
                        "One or more autopilot parameter values are invalid."@
                    } else {
                        "Binary changes are not limited to authorized autopilot parameters."@
                    },
                )
            } else if image.len() == 0 {
                says(
                    verdict,
                    prefix,
                    update_id,
                    "failed"@,
                    "error"@,
                    0,
                    "Firmware update transfer failed."@,
                )
            } else {
                says(
                    verdict,
                    prefix,
                    update_id,
                    "in_progress"@,
                    "connect"@,
                    0,
                    "Checking firmware update service."@,
                )
            }
        }),
{
    lemma_status_key(prefix, update_id);
    reveal_strlit("connect");
    reveal_strlit("complete");
    assert("connect"@.len() != "complete"@.len());
    let told = status_views(outcome.statuses@);
    assert(told.len() == outcome.statuses@.len());
    assert(told[0] == outcome.statuses@[0]@);
    assert(told[1] == outcome.statuses@[1]@);
    if before.baseline is Some {
        let baseline = (before.baseline->0)@;
        lemma_allowed_images(image, baseline, before.regions@);
        if outcome.refused is Some {
            crate::laws::images::lemma_validation(
                outcome.refused->0,
                image,
                baseline,
                before.regions@,
            );
        }
    }
}

// ---------------------------------------------------------------------------------------------
// Keys and documents
// ---------------------------------------------------------------------------------------------

/// Browsers start, fill and commit an upload under its identifier followed by the operation, a
/// chunk with its index behind that.
pub proof fn lemma_upload_keys(update_id: Seq<char>, index: nat)
    requires
        is_update_id(update_id),
        index <= usize::MAX,
    ensures
        intent_of(pieces(update_id + "/start"@, '/')) is Start,
        intent_of(pieces(update_id + "/commit"@, '/')) is Commit,
        intent_of(pieces(update_id + "/chunk/"@ + decimal_text(index), '/')) is Chunk,
        place_index(
            intent_of(
                pieces(update_id + "/chunk/"@ + decimal_text(index), '/'),
            )->Chunk_0,
        ) == Some(index),
        intent_of(
            pieces(update_id + "/chunk/"@ + decimal_text(index), '/'),
        )->Chunk_0.len() == 1,
        intent_of(pieces(update_id, '/')) is Incomplete,
        pieces(update_id + "/start"@, '/')[0] == update_id,
        pieces(update_id + "/commit"@, '/')[0] == update_id,
        pieces(update_id + "/chunk/"@ + decimal_text(index), '/')[0] == update_id,
{
    reveal_strlit("/start");
    reveal_strlit("/commit");
    reveal_strlit("/chunk/");
    reveal_strlit("start");
    reveal_strlit("commit");
    reveal_strlit("chunk");
    assert(!update_id.contains('/')) by {
        assert forall|i: int| 0 <= i < update_id.len() implies update_id[i] != '/' by {
            assert(crate::status::is_id_char(update_id[i]));
        }
    }
    lemma_one_piece(update_id, '/');
    let number = decimal_text(index);
    lemma_decimal_notation(index);
    assert(!number.contains('/'));
    assert(update_id + "/start"@ =~= update_id.push('/') + "start"@);
    assert(update_id + "/commit"@ =~= update_id.push('/') + "commit"@);
    assert(update_id + "/chunk/"@ + number =~= update_id.push('/') + ("chunk"@.push('/')
        + number));
    lemma_first_piece(update_id, '/', "start"@);
    lemma_first_piece(update_id, '/', "commit"@);
    lemma_first_piece(update_id, '/', "chunk"@.push('/') + number);
    assert(!"start"@.contains('/'));
    assert(!"commit"@.contains('/'));
    assert(!"chunk"@.contains('/'));
    lemma_one_piece("start"@, '/');
    lemma_one_piece("commit"@, '/');
    lemma_first_piece("chunk"@, '/', number);
    lemma_one_piece(number, '/');
    let parts = pieces(update_id + "/chunk/"@ + number, '/');
    assert(parts =~= seq![update_id, "chunk"@, number]);
    assert(parts.skip(2) =~= seq![number]);
    assert("chunk"@[0] != "start"@[0]);
    assert("commit"@[0] != "start"@[0]);
    assert("chunk"@.len() != "commit"@.len());
    lemma_decimal_is_read_back(index, usize::MAX as nat);
}

/// Under any other key nothing is started, taken in or committed.
pub proof fn lemma_other_keys_do_nothing(suffix: Seq<char>)
    ensures
        ({
            let parts = pieces(suffix, '/');
            &&& intent_of(parts) is Start ==> is_update_id(parts[0]) && suffix == parts[0]
                + "/start"@
            &&& intent_of(parts) is Commit ==> is_update_id(parts[0]) && suffix == parts[0]
                + "/commit"@
            &&& intent_of(parts) is Chunk ==> is_update_id(parts[0]) && parts[1] == "chunk"@
                && intent_of(parts)->Chunk_0 == parts.skip(2)
            &&& intent_of(parts) is Invalid <==> !is_update_id(parts[0])
        }),
{
    let parts = pieces(suffix, '/');
    crate::laws::texts::lemma_pieces_make_the_text(suffix, '/');
    reveal_strlit("/start");
    reveal_strlit("/commit");
    reveal_strlit("start");
    reveal_strlit("commit");
    if parts.len() == 2 {
        assert(parts.drop_first() =~= seq![parts[1]]);
        assert(crate::laws::texts::linked(parts.drop_first(), '/') == parts[1]);
        assert(suffix =~= parts[0].push('/') + parts[1]);
        if parts[1] == "start"@ {
            assert(suffix =~= parts[0] + "/start"@);
        }
        if parts[1] == "commit"@ {
            assert(suffix =~= parts[0] + "/commit"@);
        }
    }
}

/// The document of a status has these fields, in this order.
pub proof fn lemma_status_documents(status: Status)
    ensures
        ({
            let fields = status_fields(status);
            &&& fields.len() == if status.upload is Some {
                8int
            } else {
                5
            }
            &&& fields[0] == ("updateId"@, Json::Text(status.update_id))
            &&& fields[1] == ("status"@, Json::Text(status.status))
            &&& fields[2] == ("phase"@, Json::Text(status.phase))
            &&& fields[3] == ("progressPct"@, Json::Number(status.percent as u64))
            &&& fields[4] == ("message"@, Json::Text(status.message))
            &&& status.upload is Some ==> {
                &&& fields[5] == (
                    "receivedBytes"@,
                    Json::Number(status.upload->0.received as u64),
                )
                &&& fields[6] == ("totalBytes"@, Json::Number(status.upload->0.total as u64))
                &&& fields[7].0 == "chunkIndex"@
                &&& status.upload->0.chunk_index is None ==> fields[7].1 is Null
                &&& status.upload->0.chunk_index is Some ==> fields[7].1 == Json::Number(
                    status.upload->0.chunk_index->0 as u64,
                )
            }
        }),
{
}

/// How statuses of the policy and of transfers read: a refused update is rejected with the policy's
/// words, progress is complete when its phase is, and a failure does not say what went wrong.
pub proof fn lemma_other_statuses(
    prefix: Seq<char>,
    update_id: Seq<char>,
    message: Seq<char>,
    report: Report,
)
    ensures
        says(
            plain_status(prefix, update_id, "rejected"@, "upload"@, 0, message),
            prefix,
            update_id,
            "rejected"@,
            "upload"@,
            0,
            message,
        ),
        says(
            transfer_status(prefix, update_id, report),
            prefix,
            update_id,
            if report.phase == "complete"@ {
                "complete"@
            } else {
                "in_progress"@
            },
            report.phase,
            report.percent as int,
            report.message,
        ),
        says(
            transfer_failure(prefix, update_id),
            prefix,
            update_id,
            "failed"@,
            "error"@,
            0,
            "Firmware update transfer failed."@,
        ),
        plain_status(prefix, update_id, "rejected"@, "upload"@, 0, message).upload is None,
        transfer_status(prefix, update_id, report).upload is None,
        transfer_failure(prefix, update_id).upload is None,
{
    lemma_status_key(prefix, update_id);
}

/// What the decoder says is kept exactly where it was asked and could not read the payload: for one
/// that is not too large, and for a chunk whose key has one index.
pub proof fn lemma_undecodable_payloads(
    place: Seq<Seq<char>>,
    size: int,
    start: Option<Announcement>,
    chunk: Option<Part>,
    end: Option<Ending>,
)
    ensures
        start_fault(size, start) == if size <= 4096 && start is None {
            Some("decode "@ + "FirmwarePrepareRequest"@)
        } else {
            None
        },
        chunk_fault(place, size, chunk) == if place.len() == 1 && parsed_unsigned(
            place[0],
            usize::MAX as nat,
        ) is Some && size <= 69632 && chunk is None {
            Some("decode "@ + "FirmwareChunkRequest"@)
        } else {
            None
        },
        commit_fault(size, end) == if size <= 2048 && end is None {
            Some("decode "@ + "FirmwareCommitRequest"@)
        } else {
            None
        },
{
}

/// What stays as it is while uploads and candidates are handled: everything that the firmware gate
/// was set up with.
pub proof fn lemma_settings_stay(before: FirmwareGate, after: FirmwareGate)
    requires
        after.same_settings(before),
    ensures
        after.regions@ == before.regions@,
        after.trusted_manifest@ == before.trusted_manifest@,
        after.auto_bootstrap == before.auto_bootstrap,
        after.max_image_size == before.max_image_size,
        after.transfer.key_prefix@ == before.transfer.key_prefix@,
        after.transfer.target@ == before.transfer.target@,
        after.transfer.board_id@ == before.transfer.board_id@,
        after.transfer.chunk_size == before.transfer.chunk_size,
        after.transfer.retries == before.transfer.retries,
        after.transfer.timeout_ms == before.transfer.timeout_ms,
{
}

/// Images are meant for the receiver that is set, or else for the usual one; the manifest sent
/// along is that of the policy, or empty.
pub proof fn lemma_receivers(target: Seq<char>, policy: ParameterPolicy)
    ensures
        target_setting(Some(target)) == target,
        target_setting(None) == "cubs2"@,
        manifest_setting(Some(policy)) == policy.manifest_json@,
        manifest_setting(None).len() == 0,
{
    reveal_strlit("");
}

/// An image that is sent in the chunks of an announced upload, in whatever order, is the image that
/// its commit yields.
pub proof fn lemma_uploads_arrive_whole(
    gate: FirmwareGate,
    update_id: Seq<char>,
    image: Seq<u8>,
    size: int,
    end: Ending,
)
    requires
        gate.well_formed(),
        gate.pending().dom().contains(update_id),
        size <= 2048,
        end.update_id == update_id,
        is_digest(end.image_sha256),
        alike(end.image_sha256, sha256_text(image)),
        ({
            let upload = gate.pending()[update_id];
            &&& upload.expected_size == image.len()
            &&& alike(upload.image_sha256, sha256_text(image))
            &&& forall|i: int|
                0 <= i < upload.chunks.len() ==> (#[trigger] upload.chunks[i]) == Some(
                    image.subrange(
                        i * upload.chunk_size,
                        lesser((i + 1) * upload.chunk_size, image.len() as int),
                    ),
                )
        }),
    ensures
        may_commit(gate, update_id, size, Some(end)),
        put_together(gate.pending()[update_id]) == image,
{
    let upload = gate.pending()[update_id];
    assert(gate.uploads@.dom().contains(update_id));
    assert(upload == gate.uploads@[update_id]@);
    lemma_put_together(upload);
    lemma_upload_makes_the_image(image, upload);
}

/// How large images and their chunks may be, where nothing else is set and at most.
pub proof fn lemma_image_sizes()
    ensures
        DEFAULT_IMAGE_SIZE == 8_388_608,
        LARGEST_IMAGE_SIZE == 67_108_864,
{
}

/// Whatever a commit sends to a vehicle came in whole, chunk by chunk, has the digest that was
/// announced for it, and may replace the baseline: it differs from it inside the regions only, and
/// stores a finite value within the limits of each.
pub proof fn lemma_sent_images(
    before: FirmwareGate,
    after: FirmwareGate,
    outcome: GateOutcome,
    prefix: Seq<char>,
    update_id: Seq<char>,
    payload: Seq<u8>,
)
    requires
        before.well_formed(),
        commit_handled(before, after, outcome, prefix, update_id, payload),
        outcome.transfer is Some,
    ensures
        before.pending().dom().contains(update_id),
        ({
            let upload = before.pending()[update_id];
            let image = outcome.transfer->0.image@;
            &&& image == put_together(upload)
            &&& image.len() == upload.expected_size
            &&& alike(sha256_text(image), upload.image_sha256)
            &&& outcome.transfer->0.image_sha256@ == sha256_text(image)
            &&& outcome.transfer->0.version@ == upload.version
            &&& outcome.transfer->0.update_id@ == update_id
            &&& may_install(before, image)
            &&& after.baseline == before.baseline
            &&& !after.pending().dom().contains(update_id)
        }),
{
    lemma_commits(before, after, outcome, prefix, update_id, payload);
    let upload = before.pending()[update_id];
    lemma_put_together(upload);
    lemma_candidates(
        before,
        after,
        outcome,
        prefix,
        update_id,
        upload.version,
        put_together(upload),
    );
    assert(before.uploads@.dom().contains(update_id));
    assert(upload == before.uploads@[update_id]@);
    lemma_received_bytes(upload);
}

} // verus!
