//! The status messages of firmware updates, and the identifiers that they carry.

use crate::json::{
    field_views, number_field, object_json, optional_number_field, text_field, write_object, Json,
    JsonField,
};
use crate::text::{
    alphanumeric, byte_length, characters, finishes_with, hex_digit, is_alphanumeric, is_hex_digit,
    joined, strip_suffix,
};
use vstd::prelude::*;
use vstd::utf8::is_ascii_chars_encode_utf8;

verus! {

/// How much of an image a browser has uploaded.
#[derive(Clone, Copy, Debug, PartialEq, Eq, Structural)]
pub struct UploadProgress {
    pub received: usize,
    pub total: usize,
    pub chunk_index: Option<usize>,
}

/// A status message and the key that it is published on.
#[derive(Debug, PartialEq, Eq)]
pub struct FirmwareStatus {
    pub key: String,
    pub update_id: String,
    pub status: String,
    pub phase: String,
    pub percent: u8,
    pub message: String,
    pub upload: Option<UploadProgress>,
}

/// What a status message holds.
pub ghost struct Status {
    pub key: Seq<char>,
    pub update_id: Seq<char>,
    pub status: Seq<char>,
    pub phase: Seq<char>,
    pub percent: u8,
    pub message: Seq<char>,
    pub upload: Option<UploadProgress>,
}

/// The longest update identifier.
pub const UPDATE_ID_BYTES: usize = 80;

/// The longest version text.
pub const VERSION_CHARS: usize = 128;

impl View for FirmwareStatus {
    type V = Status;

    open spec fn view(&self) -> Status {
        Status {
            key: self.key@,
            update_id: self.update_id@,
            status: self.status@,
            phase: self.phase@,
            percent: self.percent,
            message: self.message@,
            upload: self.upload,
        }
    }
}

/// The messages of a list.
pub open spec fn status_views(statuses: Seq<FirmwareStatus>) -> Seq<Status> {
    statuses.map_values(|status: FirmwareStatus| status@)
}

/// A letter, a digit, a hyphen or an underscore.
pub open spec fn is_id_char(c: char) -> bool {
    is_alphanumeric(c) || c == '-' || c == '_'
}

/// An identifier that may stand as one segment of a key.
pub open spec fn is_update_id(value: Seq<char>) -> bool {
    &&& 0 < value.len() <= UPDATE_ID_BYTES
    &&& forall|i: int| 0 <= i < value.len() ==> is_id_char(#[trigger] value[i])
}

/// Sixty-four hexadecimal digits.
pub open spec fn is_sha256_hex(value: Seq<char>) -> bool {
    &&& value.len() == 64
    &&& forall|i: int| 0 <= i < value.len() ==> is_hex_digit(#[trigger] value[i])
}

/// Whether `value` is an identifier that may stand as one segment of a key.
pub fn valid_update_id(value: &str) -> (result: bool)
    ensures
        result == is_update_id(value@),
{
    let chars = characters(value);
    if chars.len() == 0 || chars.len() > UPDATE_ID_BYTES {
        return false;
    }
    for index in 0..chars.len()
        invariant
            chars@ == value@,
            forall|i: int| 0 <= i < index ==> is_id_char(#[trigger] chars@[i]),
    {
        let c = chars[index];
        if !(alphanumeric(c) || c == '-' || c == '_') {
            assert(!is_id_char(value@[index as int]));
            return false;
        }
    }
    true
}

/// Whether `value` is a digest in hexadecimal notation.
pub fn valid_sha256_hex(value: &str) -> (result: bool)
    ensures
        result == is_sha256_hex(value@),
{
    let chars = characters(value);
    if chars.len() != 64 {
        return false;
    }
    for index in 0..chars.len()
        invariant
            chars@ == value@,
            forall|i: int| 0 <= i < index ==> is_hex_digit(#[trigger] chars@[i]),
    {
        if !hex_digit(chars[index]) {
            assert(!is_hex_digit(value@[index as int]));
            return false;
        }
    }
    true
}

/// An identifier takes one byte for each character.
pub proof fn lemma_update_id_bytes(value: Seq<char>)
    requires
        is_update_id(value),
    ensures
        byte_length(value) == value.len(),
{
    assert forall|i: int| 0 <= i < value.len() implies '\0' <= #[trigger] value[i]
        <= '\u{7f}' by {
        assert(is_id_char(value[i]));
    }
    is_ascii_chars_encode_utf8(value);
}

/// The character, or an underscore in place of one that versions may not hold.
pub open spec fn version_char(c: char) -> char {
    if is_alphanumeric(c) || c == '.' || c == '-' || c == '_' {
        c
    } else {
        '_'
    }
}

/// The first characters of `value`, made safe.
pub open spec fn version_chars(value: Seq<char>) -> Seq<char> {
    Seq::new(
        if value.len() < VERSION_CHARS {
            value.len()
        } else {
            VERSION_CHARS as nat
        },
        |i: int| version_char(value[i]),
    )
}

/// The version under which an image is announced.
pub open spec fn safe_version(value: Seq<char>) -> Seq<char> {
    if value.len() == 0 {
        "browser-upload.bin"@
    } else {
        version_chars(value)
    }
}

/// The version under which an image is announced: bounded, and of safe characters only.
pub fn sanitized_version(value: &str) -> (version: String)
    ensures
        version@ == safe_version(value@),
        byte_length(version@) <= VERSION_CHARS,
{
    let chars = characters(value);
    if chars.len() == 0 {
        proof {
            reveal_strlit("browser-upload.bin");
            is_ascii_chars_encode_utf8("browser-upload.bin"@);
        }
        return "browser-upload.bin".to_owned();
    }
    let end: usize = if chars.len() < VERSION_CHARS {
        chars.len()
    } else {
        VERSION_CHARS
    };
    let mut version = String::new();
    for index in 0..end
        invariant
            chars@ == value@,
            end == version_chars(value@).len(),
            end <= chars@.len(),
            version@ == version_chars(value@).take(index as int),
    {
        let c = chars[index];
        let safe = if alphanumeric(c) || c == '.' || c == '-' || c == '_' {
            c
        } else {
            '_'
        };
        version.push(safe);
        assert(version_chars(value@).take(index + 1) == version_chars(value@).take(
            index as int,
        ).push(safe));
    }
    proof {
        let all = version_chars(value@);
        assert(all.take(end as int) == all);
        assert forall|i: int| 0 <= i < all.len() implies '\0' <= #[trigger] all[i]
            <= '\u{7f}' by {
            assert(all[i] == version_char(value@[i]));
        }
        is_ascii_chars_encode_utf8(all);
    }
    version
}

/// The key that the status of an update is published on.
pub open spec fn status_key(intent_prefix: Seq<char>, update_id: Seq<char>) -> Seq<char> {
    let root = if finishes_with(intent_prefix, "/cmd"@) {
        intent_prefix.take(intent_prefix.len() - "/cmd"@.len())
    } else {
        intent_prefix
    };
    root + "/status/firmware/"@ + update_id
}

/// A status message without upload progress.
pub open spec fn plain_status(
    intent_prefix: Seq<char>,
    update_id: Seq<char>,
    status: Seq<char>,
    phase: Seq<char>,
    percent: u8,
    message: Seq<char>,
) -> Status {
    Status {
        key: status_key(intent_prefix, update_id),
        update_id,
        status,
        phase,
        percent,
        message,
        upload: None,
    }
}

/// A status message.
pub(crate) fn make_status(
    intent_prefix: &str,
    update_id: &str,
    status: &str,
    phase: &str,
    percent: u8,
    message: &str,
    upload: Option<UploadProgress>,
) -> (result: FirmwareStatus)
    ensures
        result@ == (Status {
            upload,
            ..plain_status(intent_prefix@, update_id@, status@, phase@, percent, message@)
        }),
{
    let root = match strip_suffix(intent_prefix, "/cmd") {
        Some(root) => root,
        None => intent_prefix.to_owned(),
    };
    let start = joined(root.as_str(), "/status/firmware/");
    FirmwareStatus {
        key: joined(start.as_str(), update_id),
        update_id: update_id.to_owned(),
        status: status.to_owned(),
        phase: phase.to_owned(),
        percent,
        message: message.to_owned(),
        upload,
    }
}

/// The fields of a status document.
pub open spec fn status_fields(status: Status) -> Seq<(Seq<char>, Json)> {
    let common = seq![
        ("updateId"@, Json::Text(status.update_id)),
        ("status"@, Json::Text(status.status)),
        ("phase"@, Json::Text(status.phase)),
        ("progressPct"@, Json::Number(status.percent as u64)),
        ("message"@, Json::Text(status.message)),
    ];
    match status.upload {
        None => common,
        Some(upload) => common + seq![
            ("receivedBytes"@, Json::Number(upload.received as u64)),
            ("totalBytes"@, Json::Number(upload.total as u64)),
            (
                "chunkIndex"@,
                match upload.chunk_index {
                    Some(index) => Json::Number(index as u64),
                    None => Json::Null,
                },
            ),
        ],
    }
}

/// The fields of a status document.
pub fn document_fields(status: &FirmwareStatus) -> (fields: Vec<JsonField>)
    ensures
        field_views(fields@) == status_fields(status@),
{
    let mut fields: Vec<JsonField> = Vec::new();
    fields.push(text_field("updateId", status.update_id.as_str()));
    fields.push(text_field("status", status.status.as_str()));
    fields.push(text_field("phase", status.phase.as_str()));
    fields.push(number_field("progressPct", status.percent as u64));
    fields.push(text_field("message", status.message.as_str()));
    if let Some(upload) = status.upload {
        fields.push(number_field("receivedBytes", upload.received as u64));
        fields.push(number_field("totalBytes", upload.total as u64));
        let index: Option<u64> = match upload.chunk_index {
            Some(index) => Some(index as u64),
            None => None,
        };
        fields.push(optional_number_field("chunkIndex", index));
    }
    assert(field_views(fields@) =~= status_fields(status@));
    fields
}

/// The document that is published for a status message.
pub fn status_document(status: &FirmwareStatus) -> (text: String)
    ensures
        text@ == object_json(status_fields(status@)),
{
    write_object(document_fields(status))
}

/// The status that tells a browser why a policy refused an update; none for an identifier that
/// could not stand in a key.
pub fn publish_policy_rejection(
    intent_prefix: &str,
    update_id: &str,
    message: &str,
) -> (status: Option<FirmwareStatus>)
    ensures
        status is Some == is_update_id(update_id@),
        status is Some ==> status->0@ == plain_status(
            intent_prefix@,
            update_id@,
            "rejected"@,
            "upload"@,
            0,
            message@,
        ),
{
    if !valid_update_id(update_id) {
        return None;
    }
    Some(make_status(intent_prefix, update_id, "rejected", "upload", 0, message, None))
}

} // verus!
