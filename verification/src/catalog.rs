//! What the message catalog says of keys and commands.

use crate::text::{
    characters, drop_leading, drop_trailing, joined, last_piece, lemma_pieces_nonempty, split,
    views, without_leading, without_trailing,
};
use vstd::prelude::*;

verus! {

/// The request contract of a command.
struct RawContract {
    request_encoding: String,
    request_type: String,
    request_schema_hash: String,
}

/// What the catalog says of a command's request.
pub ghost struct Contract {
    pub request_encoding: Seq<char>,
    pub request_type: Seq<char>,
    pub request_schema_hash: Seq<char>,
}

/// The segment under which commands stand.
pub const CMD_KEY_PREFIX: &'static str = "cmd";

/// The media type of values with a fixed layout.
pub const STRUCT_MEDIA_TYPE: &'static str = "application/x-synapse-struct";

/// The media type of tables.
pub const FLATBUFFER_MEDIA_TYPE: &'static str = "application/x-flatbuffers";

/// The request contract of a command, if the catalog has one of that name.
pub uninterp spec fn command_contract(name: Seq<char>) -> Option<Contract>;

/// The encoding of the topic that a key names, if the catalog has one.
pub uninterp spec fn topic_encoding(key: Seq<char>) -> Option<Seq<char>>;

/// `synapse_fbs::topic_catalog::command_by_name`: how the command's request is encoded, its type
/// and its schema.
#[verifier::external_body]
fn find_command(name: &str) -> (contract: Option<RawContract>)
    ensures
        match command_contract(name@) {
            None => contract is None,
            Some(view) => {
                &&& contract is Some
                &&& contract->0.request_encoding@ == view.request_encoding
                &&& contract->0.request_type@ == view.request_type
                &&& contract->0.request_schema_hash@ == view.request_schema_hash
            },
        },
{
    synapse_fbs::topic_catalog::command_by_name(name).map(|command| RawContract {
        request_encoding: command.request_encoding.to_string(),
        request_type: command.request_type.to_string(),
        request_schema_hash: command.request_schema_hash.to_string(),
    })
}

/// `synapse_fbs::topic_catalog::topic_by_key` and `synapse_fbs::value_contract::encoding_for_topic`
/// on what it finds: the encoding of the topic that the key names.
#[verifier::external_body]
pub(crate) fn encoding_by_key(key: &str) -> (encoding: Option<String>)
    ensures
        match topic_encoding(key@) {
            None => encoding is None,
            Some(text) => encoding is Some && encoding->0@ == text,
        },
{
    synapse_fbs::topic_catalog::topic_by_key(key).map(
        synapse_fbs::value_contract::encoding_for_topic,
    )
}

/// The encoding of the topic with the name, if the catalog has one.
pub uninterp spec fn named_topic_encoding(name: Seq<char>) -> Option<Seq<char>>;

/// `synapse_fbs::topic_catalog::topic_by_name` and
/// `synapse_fbs::value_contract::encoding_for_topic` on what it finds: the encoding of the topic
/// with the name.
#[verifier::external_body]
fn encoding_by_name(name: &str) -> (encoding: Option<String>)
    ensures
        match named_topic_encoding(name@) {
            None => encoding is None,
            Some(text) => encoding is Some && encoding->0@ == text,
        },
{
    synapse_fbs::topic_catalog::topic_by_name(name).map(
        synapse_fbs::value_contract::encoding_for_topic,
    )
}

/// The encoding that a publisher of the topic stamps on its values.
pub fn publisher_encoding(name: &str) -> (encoding: Option<String>)
    ensures
        match named_topic_encoding(name@) {
            None => encoding is None,
            Some(text) => encoding is Some && encoding->0@ == text,
        },
{
    encoding_by_name(name)
}

/// The identifier of the topic with the name, if the catalog has one.
pub uninterp spec fn topic_id_by_name(name: Seq<char>) -> Option<u16>;

/// The identifier of the topic that a possibly namespaced key names, if the catalog has one.
pub uninterp spec fn topic_id_by_key(key: Seq<char>) -> Option<u16>;

/// The identifier of the topic whose contract an encoding states, if the catalog has one.
pub uninterp spec fn topic_id_by_encoding(encoding: Seq<char>) -> Option<u16>;

/// `synapse_fbs::topic_catalog::topic_by_name`: the identifier of the topic with the name.
#[verifier::external_body]
pub(crate) fn find_topic_by_name(name: &str) -> (id: Option<u16>)
    ensures
        id == topic_id_by_name(name@),
{
    synapse_fbs::topic_catalog::topic_by_name(name).map(|topic| topic.id)
}

/// `synapse_fbs::topic_catalog::parse_key`: the identifier of the topic that the key names.
#[verifier::external_body]
pub(crate) fn find_topic_by_key(key: &str) -> (id: Option<u16>)
    ensures
        id == topic_id_by_key(key@),
{
    synapse_fbs::topic_catalog::parse_key(key).map(|parsed| parsed.topic.id)
}

/// `synapse_fbs::value_contract::topic_for_encoding`: the identifier of the topic whose contract
/// the encoding states.
#[verifier::external_body]
pub(crate) fn find_topic_by_encoding(encoding: &str) -> (id: Option<u16>)
    ensures
        id == topic_id_by_encoding(encoding@),
{
    match synapse_fbs::value_contract::topic_for_encoding(encoding) {
        Ok(topic) => Some(topic.id),
        Err(_) => None,
    }
}

/// The encoding that a request of this contract carries.
pub open spec fn contract_encoding(contract: Contract) -> Seq<char> {
    let media_type = if contract.request_encoding == "struct"@ {
        STRUCT_MEDIA_TYPE@
    } else {
        FLATBUFFER_MEDIA_TYPE@
    };
    media_type + ";type="@ + contract.request_type + ";schema=sha256-128:"@
        + contract.request_schema_hash
}

/// The encoding that a request of the command carries, if the catalog has the command.
pub open spec fn request_encoding(name: Seq<char>) -> Option<Seq<char>> {
    match command_contract(name) {
        Some(contract) => Some(contract_encoding(contract)),
        None => None,
    }
}

/// The text of a contract with the given parts.
pub fn encoding_text(encoding: &str, request_type: &str, schema_hash: &str) -> (text: String)
    ensures
        text@ == contract_encoding(
            (Contract {
                request_encoding: encoding@,
                request_type: request_type@,
                request_schema_hash: schema_hash@,
            }),
        ),
{
    let media_type = if *encoding == *"struct" {
        STRUCT_MEDIA_TYPE
    } else {
        FLATBUFFER_MEDIA_TYPE
    };
    let typed = joined(joined(media_type, ";type=").as_str(), request_type);
    joined(joined(typed.as_str(), ";schema=sha256-128:").as_str(), schema_hash)
}

/// The encoding that a request of the command carries.
pub fn command_request_encoding(name: &str) -> (encoding: Option<String>)
    ensures
        encoding is Some == request_encoding(name@) is Some,
        encoding is Some ==> encoding->0@ == request_encoding(name@)->0,
{
    match find_command(name) {
        Some(contract) => Some(
            encoding_text(
                contract.request_encoding.as_str(),
                contract.request_type.as_str(),
                contract.request_schema_hash.as_str(),
            ),
        ),
        None => None,
    }
}

/// The encoding that a query under the key carries: its last segment names the command.
pub fn query_encoding(key: &str) -> (encoding: Option<String>)
    ensures
        encoding is Some == request_encoding(last_piece(key@, '/')) is Some,
        encoding is Some ==> encoding->0@ == request_encoding(last_piece(key@, '/'))->0,
{
    let segments = split(key, '/');
    proof {
        lemma_pieces_nonempty(key@, '/');
        assert(views(segments@)[segments@.len() - 1] == segments@[segments@.len() - 1]@);
    }
    command_request_encoding(segments[segments.len() - 1].as_str())
}

/// The text without the slashes at its ends.
pub open spec fn without_slashes(text: Seq<char>) -> Seq<char> {
    without_trailing(without_leading(text, '/'), '/')
}

/// A key inside a namespace; no namespace leaves it as it is.
pub open spec fn key_in(namespace: Seq<char>, key: Seq<char>) -> Seq<char> {
    if without_slashes(namespace).len() == 0 {
        key
    } else {
        without_slashes(namespace) + "/"@ + key
    }
}

/// A key inside a namespace; no namespace leaves it as it is.
pub fn topic_key(namespace: &str, key: &str) -> (target: String)
    ensures
        target@ == key_in(namespace@, key@),
{
    let bare = drop_trailing(drop_leading(namespace, '/').as_str(), '/');
    if characters(bare.as_str()).len() == 0 {
        key.to_owned()
    } else {
        joined(joined(bare.as_str(), "/").as_str(), key)
    }
}

} // verus!
