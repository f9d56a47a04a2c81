//! The tables of the firmware update protocol: requests that are written, uploads and replies that
//! are read. Whether bytes hold a table is judged as hosts do that align eight-byte numbers to
//! eight bytes.

use crate::digest::{full_sha256, sha256_text, DIGEST_TEXT};
use crate::text::{byte_length, decimal_text, joined};
use flatbuffers::FlatBufferBuilder;
use synapse_fbs::cmd::{
    FirmwareChunkReply, FirmwareChunkRequest, FirmwareChunkRequestArgs, FirmwareCommitReply,
    FirmwareCommitRequest, FirmwareCommitRequestArgs, FirmwareInfoReply, FirmwareInfoRequest,
    FirmwareInfoRequestArgs, FirmwarePrepareReply, FirmwarePrepareRequest,
    FirmwarePrepareRequestArgs, FirmwareStatusReply, FirmwareStatusRequest,
    FirmwareStatusRequestArgs,
};
use synapse_fbs::types::CommandResultCode;
use vstd::prelude::*;

verus! {

/// An upload announced by a browser.
#[derive(Clone, Debug, PartialEq, Eq)]
pub struct FirmwarePrepareUpload {
    pub update_id: String,
    pub version: String,
    pub image_size: u64,
    pub image_sha256: String,
    pub requested_chunk_size: u32,
    pub chunk_count: u32,
}

/// One part of an image uploaded by a browser.
#[derive(Clone, Debug, PartialEq, Eq)]
pub struct FirmwareChunkUpload {
    pub update_id: String,
    pub chunk_index: u32,
    pub offset: u64,
    pub data: Vec<u8>,
    pub chunk_sha256: String,
    pub final_chunk: bool,
}

/// The end of an upload by a browser.
#[derive(Clone, Debug, PartialEq, Eq)]
pub struct FirmwareCommitUpload {
    pub update_id: String,
    pub image_sha256: String,
}

/// Why a firmware operation failed.
#[derive(Clone, Debug, PartialEq, Eq)]
pub struct FirmwareError {
    pub message: String,
}

/// What a `FirmwarePrepareRequest` table holds.
pub ghost struct PrepareTable {
    pub update_id: Option<Seq<char>>,
    pub target: Option<Seq<char>>,
    pub board_id: Option<Seq<char>>,
    pub version: Option<Seq<char>>,
    pub image_size: u64,
    pub image_sha256: Option<Seq<char>>,
    pub selective_sha256: Option<Seq<char>>,
    pub requested_chunk_size: u32,
    pub chunk_count: u32,
    pub signature: Option<Seq<u8>>,
    pub manifest: Option<Seq<char>>,
}

/// What a `FirmwareChunkRequest` table holds.
pub ghost struct ChunkTable {
    pub update_id: Option<Seq<char>>,
    pub chunk_index: u32,
    pub offset: u64,
    pub data: Option<Seq<u8>>,
    pub chunk_sha256: Option<Seq<char>>,
    pub final_chunk: bool,
}

/// What a `FirmwareCommitRequest` table holds.
pub ghost struct CommitTable {
    pub update_id: Option<Seq<char>>,
    pub image_sha256: Option<Seq<char>>,
}

/// What an announced upload holds.
pub ghost struct Announcement {
    pub update_id: Seq<char>,
    pub version: Seq<char>,
    pub image_size: u64,
    pub image_sha256: Seq<char>,
    pub requested_chunk_size: u32,
    pub chunk_count: u32,
}

/// What one part of an upload holds.
pub ghost struct Part {
    pub update_id: Seq<char>,
    pub chunk_index: u32,
    pub offset: u64,
    pub data: Seq<u8>,
    pub chunk_sha256: Seq<char>,
    pub final_chunk: bool,
}

/// What the end of an upload holds.
pub ghost struct Ending {
    pub update_id: Seq<char>,
    pub image_sha256: Seq<char>,
}

/// The fields of a `FirmwarePrepareRequest` that an upload is made of.
#[derive(Debug)]
pub struct PrepareFields {
    pub update_id: Option<String>,
    pub version: Option<String>,
    pub image_size: u64,
    pub image_sha256: Option<String>,
    pub requested_chunk_size: u32,
    pub chunk_count: u32,
}

/// The fields of a `FirmwareChunkRequest`.
#[derive(Debug)]
pub struct ChunkFields {
    pub update_id: Option<String>,
    pub chunk_index: u32,
    pub offset: u64,
    pub data: Option<Vec<u8>>,
    pub chunk_sha256: Option<String>,
    pub final_chunk: bool,
}

/// The fields of a `FirmwareCommitRequest`.
#[derive(Debug)]
pub struct CommitFields {
    pub update_id: Option<String>,
    pub image_sha256: Option<String>,
}

/// The text and data bytes that one table may carry.
pub const TABLE_CAPACITY: u64 = 0x7fff_0000;

/// The result code of an accepted request.
pub const ACCEPTED: u8 = 0;

/// The result code of a request that is being carried out.
pub const IN_PROGRESS: u8 = 5;

/// The characters of an optional text.
pub open spec fn optional_view(text: Option<String>) -> Option<Seq<char>> {
    match text {
        Some(text) => Some(text@),
        None => None,
    }
}

impl PrepareFields {
    /// The fields are those of the table.
    pub open spec fn tells(self, table: PrepareTable) -> bool {
        &&& optional_view(self.update_id) == table.update_id
        &&& optional_view(self.version) == table.version
        &&& self.image_size == table.image_size
        &&& optional_view(self.image_sha256) == table.image_sha256
        &&& self.requested_chunk_size == table.requested_chunk_size
        &&& self.chunk_count == table.chunk_count
    }
}

impl ChunkFields {
    /// The fields are those of the table.
    pub open spec fn tells(self, table: ChunkTable) -> bool {
        &&& optional_view(self.update_id) == table.update_id
        &&& self.chunk_index == table.chunk_index
        &&& self.offset == table.offset
        &&& self.data is Some == table.data is Some
        &&& self.data is Some ==> (self.data->0)@ == table.data->0
        &&& optional_view(self.chunk_sha256) == table.chunk_sha256
        &&& self.final_chunk == table.final_chunk
    }
}

impl CommitFields {
    /// The fields are those of the table.
    pub open spec fn tells(self, table: CommitTable) -> bool {
        &&& optional_view(self.update_id) == table.update_id
        &&& optional_view(self.image_sha256) == table.image_sha256
    }
}

impl View for FirmwarePrepareUpload {
    type V = Announcement;

    open spec fn view(&self) -> Announcement {
        Announcement {
            update_id: self.update_id@,
            version: self.version@,
            image_size: self.image_size,
            image_sha256: self.image_sha256@,
            requested_chunk_size: self.requested_chunk_size,
            chunk_count: self.chunk_count,
        }
    }
}

impl View for FirmwareChunkUpload {
    type V = Part;

    open spec fn view(&self) -> Part {
        Part {
            update_id: self.update_id@,
            chunk_index: self.chunk_index,
            offset: self.offset,
            data: self.data@,
            chunk_sha256: self.chunk_sha256@,
            final_chunk: self.final_chunk,
        }
    }
}

impl View for FirmwareCommitUpload {
    type V = Ending;

    open spec fn view(&self) -> Ending {
        Ending { update_id: self.update_id@, image_sha256: self.image_sha256@ }
    }
}

/// The upload that a table announces, if there is a table; absent texts are empty.
pub open spec fn announcement(table: Option<PrepareTable>) -> Option<Announcement> {
    match table {
        Some(table) => Some(
            Announcement {
                update_id: text_or_empty(table.update_id),
                version: text_or_empty(table.version),
                image_size: table.image_size,
                image_sha256: text_or_empty(table.image_sha256),
                requested_chunk_size: table.requested_chunk_size,
                chunk_count: table.chunk_count,
            },
        ),
        None => None,
    }
}

/// The part of an upload that a table holds, if there is a table; absent texts and data are empty.
pub open spec fn part(table: Option<ChunkTable>) -> Option<Part> {
    match table {
        Some(table) => Some(
            Part {
                update_id: text_or_empty(table.update_id),
                chunk_index: table.chunk_index,
                offset: table.offset,
                data: data_or_empty(table.data),
                chunk_sha256: text_or_empty(table.chunk_sha256),
                final_chunk: table.final_chunk,
            },
        ),
        None => None,
    }
}

/// The end of an upload that a table holds, if there is a table; absent texts are empty.
pub open spec fn ending(table: Option<CommitTable>) -> Option<Ending> {
    match table {
        Some(table) => Some(
            Ending {
                update_id: text_or_empty(table.update_id),
                image_sha256: text_or_empty(table.image_sha256),
            },
        ),
        None => None,
    }
}

/// Optional data, empty where there is none.
pub open spec fn data_or_empty(data: Option<Seq<u8>>) -> Seq<u8> {
    match data {
        Some(data) => data,
        None => Seq::empty(),
    }
}

/// An optional text, empty where there is none.
pub open spec fn text_or_empty(text: Option<Seq<char>>) -> Seq<char> {
    match text {
        Some(text) => text,
        None => Seq::empty(),
    }
}

/// The value modulo the number of 32-bit values.
pub open spec fn low_word(value: int) -> u32 {
    (value % 0x1_0000_0000) as u32
}

/// The bytes of a `FirmwareInfoRequest` that holds `target`.
pub uninterp spec fn info_request_bytes(target: Seq<char>) -> Seq<u8>;

/// The bytes of a `FirmwarePrepareRequest` that holds `table`.
pub uninterp spec fn prepare_request_bytes(table: PrepareTable) -> Seq<u8>;

/// The bytes of a `FirmwareChunkRequest` that holds `table`.
pub uninterp spec fn chunk_request_bytes(table: ChunkTable) -> Seq<u8>;

/// The bytes of a `FirmwareCommitRequest` that holds `table`.
pub uninterp spec fn commit_request_bytes(table: CommitTable) -> Seq<u8>;

/// The bytes of a `FirmwareStatusRequest` that holds `update_id`.
pub uninterp spec fn status_request_bytes(update_id: Seq<char>) -> Seq<u8>;

/// The `FirmwarePrepareRequest` that the bytes hold, if they hold one.
pub uninterp spec fn prepare_table(bytes: Seq<u8>) -> Option<PrepareTable>;

/// The `FirmwareChunkRequest` that the bytes hold, if they hold one.
pub uninterp spec fn chunk_table(bytes: Seq<u8>) -> Option<ChunkTable>;

/// The `FirmwareCommitRequest` that the bytes hold, if they hold one.
pub uninterp spec fn commit_table(bytes: Seq<u8>) -> Option<CommitTable>;

/// The result code and the largest chunk size of the `FirmwareInfoReply` that the bytes hold, if
/// they hold one.
pub uninterp spec fn info_reply(bytes: Seq<u8>) -> Option<(u8, u32)>;

/// The result code of the `FirmwarePrepareReply` that the bytes hold, if they hold one.
pub uninterp spec fn prepare_reply(bytes: Seq<u8>) -> Option<u8>;

/// The result code of the `FirmwareChunkReply` that the bytes hold, if they hold one.
pub uninterp spec fn chunk_reply(bytes: Seq<u8>) -> Option<u8>;

/// The result code of the `FirmwareCommitReply` that the bytes hold, if they hold one.
pub uninterp spec fn commit_reply(bytes: Seq<u8>) -> Option<u8>;

/// The result code of the `FirmwareStatusReply` that the bytes hold, if they hold one.
pub uninterp spec fn status_reply(bytes: Seq<u8>) -> Option<u8>;

/// `FirmwareInfoRequest::create` on a `FlatBufferBuilder`: a finished table that holds `target`.
#[verifier::external_body]
fn write_info_request(target: &str) -> (bytes: Vec<u8>)
    requires
        byte_length(target@) <= TABLE_CAPACITY,
    ensures
        bytes@ == info_request_bytes(target@),
{
    let mut builder = FlatBufferBuilder::new();
    let args = FirmwareInfoRequestArgs { target: Some(builder.create_string(target)) };
    let table = FirmwareInfoRequest::create(&mut builder, &args);
    builder.finish(table, None);
    builder.finished_data().to_vec()
}

/// `FirmwarePrepareRequest::create` on a `FlatBufferBuilder`: a finished table that holds the
/// given texts and numbers, and no signature. Reading it gives the same values back.
#[verifier::external_body]
fn write_prepare_request(
    update_id: &str,
    target: &str,
    board_id: &str,
    version: &str,
    image_size: u64,
    image_sha256: &str,
    selective_sha256: &str,
    manifest: &str,
    requested_chunk_size: u32,
    chunk_count: u32,
) -> (bytes: Vec<u8>)
    requires
        byte_length(update_id@) + byte_length(target@) + byte_length(board_id@) + byte_length(
            version@,
        ) + byte_length(image_sha256@) + byte_length(selective_sha256@) + byte_length(manifest@)
            <= TABLE_CAPACITY,
    ensures
        bytes@ == prepare_request_bytes(
            (PrepareTable {
                update_id: Some(update_id@),
                target: Some(target@),
                board_id: Some(board_id@),
                version: Some(version@),
                image_size,
                image_sha256: Some(image_sha256@),
                selective_sha256: Some(selective_sha256@),
                requested_chunk_size,
                chunk_count,
                signature: None,
                manifest: Some(manifest@),
            }),
        ),
        prepare_table(bytes@) == Some(
            (PrepareTable {
                update_id: Some(update_id@),
                target: Some(target@),
                board_id: Some(board_id@),
                version: Some(version@),
                image_size,
                image_sha256: Some(image_sha256@),
                selective_sha256: Some(selective_sha256@),
                requested_chunk_size,
                chunk_count,
                signature: None,
                manifest: Some(manifest@),
            }),
        ),
{
    let mut builder = FlatBufferBuilder::with_capacity(1024);
    let args = FirmwarePrepareRequestArgs {
        update_id: Some(builder.create_string(update_id)),
        target: Some(builder.create_string(target)),
        board_id: Some(builder.create_string(board_id)),
        version: Some(builder.create_string(version)),
        image_sha256: Some(builder.create_string(image_sha256)),
        selective_sha256: Some(builder.create_string(selective_sha256)),
        manifest: Some(builder.create_string(manifest)),
        image_size, requested_chunk_size, chunk_count, signature: None,
    };
    let table = FirmwarePrepareRequest::create(&mut builder, &args);
    builder.finish(table, None);
    builder.finished_data().to_vec()
}

/// `FirmwareChunkRequest::create` on a `FlatBufferBuilder`: a finished table that holds the given
/// values. Reading it gives the same values back.
#[verifier::external_body]
fn write_chunk_request(
    update_id: &str,
    chunk_index: u32,
    offset: u64,
    data: &[u8],
    chunk_sha256: &str,
    final_chunk: bool,
) -> (bytes: Vec<u8>)
    requires
        byte_length(update_id@) + data@.len() + byte_length(chunk_sha256@) <= TABLE_CAPACITY,
    ensures
        bytes@ == chunk_request_bytes(
            (ChunkTable {
                update_id: Some(update_id@),
                chunk_index,
                offset,
                data: Some(data@),
                chunk_sha256: Some(chunk_sha256@),
                final_chunk,
            }),
        ),
        chunk_table(bytes@) == Some(
            (ChunkTable {
                update_id: Some(update_id@),
                chunk_index,
                offset,
                data: Some(data@),
                chunk_sha256: Some(chunk_sha256@),
                final_chunk,
            }),
        ),
{
    let mut builder = FlatBufferBuilder::with_capacity(256 + data.len());
    let update_id = Some(builder.create_string(update_id));
    let data = Some(builder.create_vector(data));
    let chunk_sha256 = Some(builder.create_string(chunk_sha256));
    let args = FirmwareChunkRequestArgs {
        update_id, chunk_index, offset, data, chunk_sha256, final_chunk,
    };
    let table = FirmwareChunkRequest::create(&mut builder, &args);
    builder.finish(table, None);
    builder.finished_data().to_vec()
}

/// `FirmwareCommitRequest::create` on a `FlatBufferBuilder`: a finished table that holds the given
/// texts. Reading it gives the same texts back.
#[verifier::external_body]
fn write_commit_request(update_id: &str, image_sha256: &str) -> (bytes: Vec<u8>)
    requires
        byte_length(update_id@) + byte_length(image_sha256@) <= TABLE_CAPACITY,
    ensures
        bytes@ == commit_request_bytes(
            (CommitTable { update_id: Some(update_id@), image_sha256: Some(image_sha256@) }),
        ),
        commit_table(bytes@) == Some(
            (CommitTable { update_id: Some(update_id@), image_sha256: Some(image_sha256@) }),
        ),
{
    let mut builder = FlatBufferBuilder::new();
    let update_id = Some(builder.create_string(update_id));
    let image_sha256 = Some(builder.create_string(image_sha256));
    let args = FirmwareCommitRequestArgs { update_id, image_sha256 };
    let table = FirmwareCommitRequest::create(&mut builder, &args);
    builder.finish(table, None);
    builder.finished_data().to_vec()
}

/// `FirmwareStatusRequest::create` on a `FlatBufferBuilder`: a finished table that holds
/// `update_id`.
#[verifier::external_body]
fn write_status_request(update_id: &str) -> (bytes: Vec<u8>)
    requires
        byte_length(update_id@) <= TABLE_CAPACITY,
    ensures
        bytes@ == status_request_bytes(update_id@),
{
    let mut builder = FlatBufferBuilder::new();
    let args = FirmwareStatusRequestArgs { update_id: Some(builder.create_string(update_id)) };
    let table = FirmwareStatusRequest::create(&mut builder, &args);
    builder.finish(table, None);
    builder.finished_data().to_vec()
}

/// `flatbuffers::root` on a `FirmwarePrepareRequest`, and the table's accessors.
#[verifier::external_body]
fn read_prepare_request(bytes: &[u8]) -> (request: Option<PrepareFields>)
    ensures
        match prepare_table(bytes@) {
            None => request is None,
            Some(table) => request is Some && request->0.tells(table),
        },
{
    match flatbuffers::root::<FirmwarePrepareRequest<'_>>(bytes) {
        Ok(table) => Some(PrepareFields {
            update_id: table.update_id().map(str::to_string),
            version: table.version().map(str::to_string),
            image_size: table.image_size(),
            image_sha256: table.image_sha256().map(str::to_string),
            requested_chunk_size: table.requested_chunk_size(),
            chunk_count: table.chunk_count(),
        }),
        Err(_) => None,
    }
}

/// `flatbuffers::root` on a `FirmwareChunkRequest`, and the table's accessors.
#[verifier::external_body]
fn read_chunk_request(bytes: &[u8]) -> (request: Option<ChunkFields>)
    ensures
        match chunk_table(bytes@) {
            None => request is None,
            Some(table) => request is Some && request->0.tells(table),
        },
{
    match flatbuffers::root::<FirmwareChunkRequest<'_>>(bytes) {
        Ok(table) => Some(ChunkFields {
            update_id: table.update_id().map(str::to_string),
            chunk_index: table.chunk_index(),
            offset: table.offset(),
            data: table.data().map(|data| data.bytes().to_vec()),
            chunk_sha256: table.chunk_sha256().map(str::to_string),
            final_chunk: table.final_chunk(),
        }),
        Err(_) => None,
    }
}

/// `flatbuffers::root` on a `FirmwareCommitRequest`, and the table's accessors.
#[verifier::external_body]
fn read_commit_request(bytes: &[u8]) -> (request: Option<CommitFields>)
    ensures
        match commit_table(bytes@) {
            None => request is None,
            Some(table) => request is Some && request->0.tells(table),
        },
{
    match flatbuffers::root::<FirmwareCommitRequest<'_>>(bytes) {
        Ok(table) => Some(CommitFields {
            update_id: table.update_id().map(str::to_string),
            image_sha256: table.image_sha256().map(str::to_string),
        }),
        Err(_) => None,
    }
}

/// `flatbuffers::root` on a `FirmwareInfoReply`: its result code and largest chunk size.
#[verifier::external_body]
fn read_info_reply(bytes: &[u8]) -> (reply: Option<(u8, u32)>)
    ensures
        reply == info_reply(bytes@),
{
    match flatbuffers::root::<FirmwareInfoReply<'_>>(bytes) {
        Ok(reply) => Some((reply.result().0, reply.max_chunk_size())),
        Err(_) => None,
    }
}

/// `flatbuffers::root` on a `FirmwarePrepareReply`: its result code.
#[verifier::external_body]
fn read_prepare_reply(bytes: &[u8]) -> (code: Option<u8>)
    ensures
        code == prepare_reply(bytes@),
{
    match flatbuffers::root::<FirmwarePrepareReply<'_>>(bytes) {
        Ok(reply) => Some(reply.result().0),
        Err(_) => None,
    }
}

/// `flatbuffers::root` on a `FirmwareChunkReply`: its result code.
#[verifier::external_body]
fn read_chunk_reply(bytes: &[u8]) -> (code: Option<u8>)
    ensures
        code == chunk_reply(bytes@),
{
    match flatbuffers::root::<FirmwareChunkReply<'_>>(bytes) {
        Ok(reply) => Some(reply.result().0),
        Err(_) => None,
    }
}

/// `flatbuffers::root` on a `FirmwareCommitReply`: its result code.
#[verifier::external_body]
fn read_commit_reply(bytes: &[u8]) -> (code: Option<u8>)
    ensures
        code == commit_reply(bytes@),
{
    match flatbuffers::root::<FirmwareCommitReply<'_>>(bytes) {
        Ok(reply) => Some(reply.result().0),
        Err(_) => None,
    }
}

/// `flatbuffers::root` on a `FirmwareStatusReply`: its result code.
#[verifier::external_body]
fn read_status_reply(bytes: &[u8]) -> (code: Option<u8>)
    ensures
        code == status_reply(bytes@),
{
    match flatbuffers::root::<FirmwareStatusReply<'_>>(bytes) {
        Ok(reply) => Some(reply.result().0),
        Err(_) => None,
    }
}

/// How a result code is written out: its name, or its number where it has none.
pub open spec fn code_text(code: u8) -> Seq<char> {
    if code == 0 {
        "Accepted"@
    } else if code == 1 {
        "TemporarilyRejected"@
    } else if code == 2 {
        "Denied"@
    } else if code == 3 {
        "Unsupported"@
    } else if code == 4 {
        "Failed"@
    } else if code == 5 {
        "InProgress"@
    } else if code == 6 {
        "Cancelled"@
    } else {
        "<UNKNOWN "@ + decimal_text(code as nat) + ">"@
    }
}

/// The debugging output of `synapse_fbs::types::CommandResultCode`.
#[verifier::external_body]
fn result_code_text(code: u8) -> (text: String)
    ensures
        text@ == code_text(code),
{
    format!("{:?}", CommandResultCode(code))
}

fn or_empty(text: Option<String>) -> (result: String)
    ensures
        result@ == text_or_empty(optional_view(text)),
{
    match text {
        Some(text) => text,
        None => {
            let empty = String::new();
            assert(empty@ =~= Seq::empty());
            empty
        },
    }
}

fn low_word_of(value: usize) -> (word: u32)
    ensures
        word == low_word(value as int),
{
    (value as u64 % 0x1_0000_0000u64) as u32
}

/// Asks a receiver what it is.
pub fn build_info_request(target: &str) -> (bytes: Vec<u8>)
    requires
        byte_length(target@) <= TABLE_CAPACITY,
    ensures
        bytes@ == info_request_bytes(target@),
{
    write_info_request(target)
}

/// What `build_prepare_request` puts into its table.
pub open spec fn prepare_fields(
    update_id: Seq<char>,
    target: Seq<char>,
    board_id: Seq<char>,
    version: Seq<char>,
    image_size: int,
    image_sha256: Seq<char>,
    selective_sha256: Seq<char>,
    trusted_manifest: Seq<char>,
    chunk_size: int,
    chunk_count: int,
) -> PrepareTable {
    PrepareTable {
        update_id: Some(update_id),
        target: Some(target),
        board_id: Some(board_id),
        version: Some(version),
        image_size: image_size as u64,
        image_sha256: Some(image_sha256),
        selective_sha256: Some(selective_sha256),
        requested_chunk_size: low_word(chunk_size),
        chunk_count: low_word(chunk_count),
        signature: None,
        manifest: Some(trusted_manifest),
    }
}

/// Announces an image to a receiver.
pub fn build_prepare_request(
    update_id: &str,
    target: &str,
    board_id: &str,
    version: &str,
    image_size: usize,
    image_sha256: &str,
    selective_sha256: &str,
    trusted_manifest: &str,
    chunk_size: usize,
    chunk_count: usize,
) -> (bytes: Vec<u8>)
    requires
        byte_length(update_id@) + byte_length(target@) + byte_length(board_id@) + byte_length(
            version@,
        ) + byte_length(image_sha256@) + byte_length(selective_sha256@) + byte_length(
            trusted_manifest@,
        ) <= TABLE_CAPACITY,
    ensures
        bytes@ == prepare_request_bytes(
            prepare_fields(
                update_id@,
                target@,
                board_id@,
                version@,
                image_size as int,
                image_sha256@,
                selective_sha256@,
                trusted_manifest@,
                chunk_size as int,
                chunk_count as int,
            ),
        ),
        prepare_table(bytes@) == Some(
            prepare_fields(
                update_id@,
                target@,
                board_id@,
                version@,
                image_size as int,
                image_sha256@,
                selective_sha256@,
                trusted_manifest@,
                chunk_size as int,
                chunk_count as int,
            ),
        ),
{
    write_prepare_request(
        update_id,
        target,
        board_id,
        version,
        image_size as u64,
        image_sha256,
        selective_sha256,
        trusted_manifest,
        low_word_of(chunk_size),
        low_word_of(chunk_count),
    )
}

/// What `build_chunk_request_with_hash` puts into its table.
pub open spec fn chunk_fields(
    update_id: Seq<char>,
    chunk_index: int,
    offset: int,
    data: Seq<u8>,
    final_chunk: bool,
) -> ChunkTable {
    ChunkTable {
        update_id: Some(update_id),
        chunk_index: low_word(chunk_index),
        offset: offset as u64,
        data: Some(data),
        chunk_sha256: Some(sha256_text(data)),
        final_chunk,
    }
}

/// Carries one part of an image, with its digest.
pub fn build_chunk_request_with_hash(
    update_id: &str,
    chunk_index: usize,
    offset: usize,
    data: &[u8],
    final_chunk: bool,
) -> (bytes: Vec<u8>)
    requires
        byte_length(update_id@) + data@.len() + DIGEST_TEXT <= TABLE_CAPACITY,
    ensures
        bytes@ == chunk_request_bytes(
            chunk_fields(update_id@, chunk_index as int, offset as int, data@, final_chunk),
        ),
        chunk_table(bytes@) == Some(
            chunk_fields(update_id@, chunk_index as int, offset as int, data@, final_chunk),
        ),
{
    let chunk_hash = full_sha256(data);
    write_chunk_request(
        update_id,
        low_word_of(chunk_index),
        offset as u64,
        data,
        chunk_hash.as_str(),
        final_chunk,
    )
}

/// Ends an upload.
pub fn build_commit_request(update_id: &str, image_sha256: &str) -> (bytes: Vec<u8>)
    requires
        byte_length(update_id@) + byte_length(image_sha256@) <= TABLE_CAPACITY,
    ensures
        bytes@ == commit_request_bytes(
            (CommitTable { update_id: Some(update_id@), image_sha256: Some(image_sha256@) }),
        ),
        commit_table(bytes@) == Some(
            (CommitTable { update_id: Some(update_id@), image_sha256: Some(image_sha256@) }),
        ),
{
    write_commit_request(update_id, image_sha256)
}

/// Asks a receiver how an upload stands.
pub fn build_status_request(update_id: &str) -> (bytes: Vec<u8>)
    requires
        byte_length(update_id@) <= TABLE_CAPACITY,
    ensures
        bytes@ == status_request_bytes(update_id@),
{
    write_status_request(update_id)
}

fn malformed(table: &str) -> (error: FirmwareError)
    ensures
        error.message@ == "decode "@ + table@,
{
    FirmwareError { message: joined("decode ", table) }
}

/// An announced upload; absent texts are empty, from the fields of its table.
pub fn prepare_upload(fields: Option<PrepareFields>) -> (result: Result<
    FirmwarePrepareUpload,
    FirmwareError,
>)
    ensures
        result is Ok == fields is Some,
        result is Err ==> result->Err_0.message@ == "decode "@ + "FirmwarePrepareRequest"@,
        result is Ok ==> {
            &&& result->Ok_0.update_id@ == text_or_empty(optional_view(fields->0.update_id))
            &&& result->Ok_0.version@ == text_or_empty(optional_view(fields->0.version))
            &&& result->Ok_0.image_size == fields->0.image_size
            &&& result->Ok_0.image_sha256@ == text_or_empty(optional_view(fields->0.image_sha256))
            &&& result->Ok_0.requested_chunk_size == fields->0.requested_chunk_size
            &&& result->Ok_0.chunk_count == fields->0.chunk_count
        },
{
    match fields {
        None => Err(malformed("FirmwarePrepareRequest")),
        Some(fields) => Ok(
            FirmwarePrepareUpload {
                update_id: or_empty(fields.update_id),
                version: or_empty(fields.version),
                image_size: fields.image_size,
                image_sha256: or_empty(fields.image_sha256),
                requested_chunk_size: fields.requested_chunk_size,
                chunk_count: fields.chunk_count,
            },
        ),
    }
}

/// An announced upload; absent texts are empty.
pub fn decode_firmware_prepare_upload(bytes: &[u8]) -> (result: Result<
    FirmwarePrepareUpload,
    FirmwareError,
>)
    ensures
        match announcement(prepare_table(bytes@)) {
            None => result is Err && result->Err_0.message@ == "decode "@
                + "FirmwarePrepareRequest"@,
            Some(view) => result is Ok && result->Ok_0@ == view,
        },
{
    prepare_upload(read_prepare_request(bytes))
}

/// One part of an upload; absent texts and data are empty, from the fields of its table.
pub fn chunk_upload(fields: Option<ChunkFields>) -> (result: Result<
    FirmwareChunkUpload,
    FirmwareError,
>)
    ensures
        result is Ok == fields is Some,
        result is Err ==> result->Err_0.message@ == "decode "@ + "FirmwareChunkRequest"@,
        result is Ok ==> {
            &&& result->Ok_0.update_id@ == text_or_empty(optional_view(fields->0.update_id))
            &&& result->Ok_0.chunk_index == fields->0.chunk_index
            &&& result->Ok_0.offset == fields->0.offset
            &&& result->Ok_0.data@ == match fields->0.data {
                Some(data) => data@,
                None => Seq::empty(),
            }
            &&& result->Ok_0.chunk_sha256@ == text_or_empty(optional_view(fields->0.chunk_sha256))
            &&& result->Ok_0.final_chunk == fields->0.final_chunk
        },
{
    match fields {
        None => Err(malformed("FirmwareChunkRequest")),
        Some(fields) => Ok(
            FirmwareChunkUpload {
                update_id: or_empty(fields.update_id),
                chunk_index: fields.chunk_index,
                offset: fields.offset,
                data: match fields.data {
                    Some(data) => data,
                    None => Vec::new(),
                },
                chunk_sha256: or_empty(fields.chunk_sha256),
                final_chunk: fields.final_chunk,
            },
        ),
    }
}

/// One part of an upload; absent texts and data are empty.
pub fn decode_firmware_chunk_upload(bytes: &[u8]) -> (result: Result<
    FirmwareChunkUpload,
    FirmwareError,
>)
    ensures
        match part(chunk_table(bytes@)) {
            None => result is Err && result->Err_0.message@ == "decode "@ + "FirmwareChunkRequest"@,
            Some(view) => result is Ok && result->Ok_0@ == view,
        },
{
    chunk_upload(read_chunk_request(bytes))
}

/// The end of an upload; absent texts are empty, from the fields of its table.
pub fn commit_upload(fields: Option<CommitFields>) -> (result: Result<
    FirmwareCommitUpload,
    FirmwareError,
>)
    ensures
        result is Ok == fields is Some,
        result is Err ==> result->Err_0.message@ == "decode "@ + "FirmwareCommitRequest"@,
        result is Ok ==> {
            &&& result->Ok_0.update_id@ == text_or_empty(optional_view(fields->0.update_id))
            &&& result->Ok_0.image_sha256@ == text_or_empty(optional_view(fields->0.image_sha256))
        },
{
    match fields {
        None => Err(malformed("FirmwareCommitRequest")),
        Some(fields) => Ok(
            FirmwareCommitUpload {
                update_id: or_empty(fields.update_id),
                image_sha256: or_empty(fields.image_sha256),
            },
        ),
    }
}

/// The end of an upload; absent texts are empty.
pub fn decode_firmware_commit_upload(bytes: &[u8]) -> (result: Result<
    FirmwareCommitUpload,
    FirmwareError,
>)
    ensures
        match ending(commit_table(bytes@)) {
            None => result is Err && result->Err_0.message@ == "decode "@
                + "FirmwareCommitRequest"@,
            Some(view) => result is Ok && result->Ok_0@ == view,
        },
{
    commit_upload(read_commit_request(bytes))
}

/// The code lets an update go on.
pub open spec fn is_accepted(code: u8) -> bool {
    code == ACCEPTED || code == IN_PROGRESS
}

/// What is said of a refused operation.
pub open spec fn rejection_text(code: u8, operation: Seq<char>) -> Seq<char> {
    operation + " rejected with firmware result code "@ + code_text(code)
}

/// Goes on only when the code says that the operation was accepted or is being carried out.
pub fn require_accepted(code: u8, operation: &str) -> (result: Result<(), FirmwareError>)
    ensures
        result is Ok == is_accepted(code),
        result is Err ==> result->Err_0.message@ == rejection_text(code, operation@),
{
    if code == ACCEPTED || code == IN_PROGRESS {
        return Ok(());
    }
    let start = joined(operation, " rejected with firmware result code ");
    let code_name = result_code_text(code);
    Err(FirmwareError { message: joined(start.as_str(), code_name.as_str()) })
}

/// How a reply that carries `code` is taken.
pub open spec fn reply_message(
    code: Option<u8>,
    table: Seq<char>,
    operation: Seq<char>,
) -> Option<Seq<char>> {
    match code {
        None => Some("decode "@ + table),
        Some(code) => if is_accepted(code) {
            None
        } else {
            Some(rejection_text(code, operation))
        },
    }
}

/// Goes on only when the reply of an operation could be read and its code says so.
pub fn accept_code(code: Option<u8>, table: &str, operation: &str) -> (result: Result<
    (),
    FirmwareError,
>)
    ensures
        match reply_message(code, table@, operation@) {
            None => result is Ok,
            Some(message) => result is Err && result->Err_0.message@ == message,
        },
{
    match code {
        None => Err(malformed(table)),
        Some(code) => require_accepted(code, operation),
    }
}

/// How the answer to an info request is taken: the receiver's largest chunk size, or why not.
pub open spec fn info_outcome(reply: Option<(u8, u32)>) -> Result<u32, Seq<char>> {
    match reply {
        None => Err("decode "@ + "FirmwareInfoReply"@),
        Some((code, largest)) => if is_accepted(code) {
            Ok(largest)
        } else {
            Err(rejection_text(code, "info"@))
        },
    }
}

/// Takes the answer to an info request, given its code and chunk size.
pub fn accept_info(reply: Option<(u8, u32)>) -> (result: Result<u32, FirmwareError>)
    ensures
        match info_outcome(reply) {
            Ok(largest) => result == Ok::<u32, FirmwareError>(largest),
            Err(message) => result is Err && result->Err_0.message@ == message,
        },
{
    match reply {
        None => Err(malformed("FirmwareInfoReply")),
        Some((code, largest)) => match require_accepted(code, "info") {
            Ok(_) => Ok(largest),
            Err(error) => Err(error),
        },
    }
}

/// Takes the answer to an info request: the receiver's largest chunk size.
pub fn accept_info_reply(bytes: &[u8]) -> (result: Result<u32, FirmwareError>)
    ensures
        match info_outcome(info_reply(bytes@)) {
            Ok(largest) => result == Ok::<u32, FirmwareError>(largest),
            Err(message) => result is Err && result->Err_0.message@ == message,
        },
{
    accept_info(read_info_reply(bytes))
}

/// Takes the answer to a prepare request.
pub fn accept_prepare_reply(bytes: &[u8]) -> (result: Result<(), FirmwareError>)
    ensures
        match reply_message(prepare_reply(bytes@), "FirmwarePrepareReply"@, "prepare"@) {
            None => result is Ok,
            Some(message) => result is Err && result->Err_0.message@ == message,
        },
{
    accept_code(read_prepare_reply(bytes), "FirmwarePrepareReply", "prepare")
}

/// Takes the answer to a chunk request.
pub fn accept_chunk_reply(bytes: &[u8], operation: &str) -> (result: Result<(), FirmwareError>)
    ensures
        match reply_message(chunk_reply(bytes@), "FirmwareChunkReply"@, operation@) {
            None => result is Ok,
            Some(message) => result is Err && result->Err_0.message@ == message,
        },
{
    accept_code(read_chunk_reply(bytes), "FirmwareChunkReply", operation)
}

/// Takes the answer to a commit request.
pub fn accept_commit_reply(bytes: &[u8]) -> (result: Result<(), FirmwareError>)
    ensures
        match reply_message(commit_reply(bytes@), "FirmwareCommitReply"@, "commit"@) {
            None => result is Ok,
            Some(message) => result is Err && result->Err_0.message@ == message,
        },
{
    accept_code(read_commit_reply(bytes), "FirmwareCommitReply", "commit")
}

/// Takes the answer to a status request.
pub fn accept_status_reply(bytes: &[u8]) -> (result: Result<(), FirmwareError>)
    ensures
        match reply_message(status_reply(bytes@), "FirmwareStatusReply"@, "status"@) {
            None => result is Ok,
            Some(message) => result is Err && result->Err_0.message@ == message,
        },
{
    accept_code(read_status_reply(bytes), "FirmwareStatusReply", "status")
}

} // verus!
