//! Commands: which requests reach the vehicle, where they go, and what they cost.

use crate::catalog::{
    command_contract, key_in, topic_encoding, without_slashes,
};
use crate::laws::texts::{lemma_without_leading, lemma_without_trailing, repeated};
use crate::limits::bounds_of;
use crate::manual::{axis, is_set};
use crate::policy::{
    checked_outcome, envelope_outcome, firmware_outcome, first_bad_channel, intent_suffix,
    intent_update, ledger_after, manual_refusal, radio_refusal, raw_outcome, result_tells,
    segments_complaint, team_outcome, trusted_outcome, value_refusal, velocity_request,
    AuthorizedCommand, CommandPolicy, Delivery, PolicyConfig, PolicyError, Refusal,
};
use crate::requests::{
    param_get_request, param_set_request, trajectory_request, Parameter, Segment,
};
use crate::status::is_update_id;
use crate::text::{
    begins_with, byte_length, decimal_text, lower, parsed_unsigned, pieces, quoted_text, trimmed,
    without_leading, without_trailing,
};
use vstd::prelude::*;
use vstd::utf8::{decode_utf8, valid_utf8};

verus! {

// ---------------------------------------------------------------------------------------------
// Keys
// ---------------------------------------------------------------------------------------------

/// The key is the intent prefix, without slashes at its end, a slash, and the intent.
pub open spec fn asks(config: PolicyConfig, key: Seq<char>, intent: Seq<char>) -> bool {
    exists|root: Seq<char>, slashes: nat|
        {
            &&& config.intent_prefix@ == #[trigger] (root + repeated('/', slashes))
            &&& root.len() > 0 ==> root.last() != '/'
            &&& key == root + "/"@ + intent
        }
}

/// The target is the key below the namespace, which counts without slashes at its ends; without a
/// namespace it is the key itself.
pub open spec fn stands_under(target: Seq<char>, namespace: Seq<char>, key: Seq<char>) -> bool {
    exists|before: nat, bare: Seq<char>, after: nat|
        {
            &&& namespace == #[trigger] (repeated('/', before) + bare + repeated('/', after))
            &&& bare.len() > 0 ==> bare[0] != '/' && bare.last() != '/'
            &&& bare.len() == 0 ==> target == key
            &&& bare.len() > 0 ==> target == bare + "/"@ + key
        }
}

proof fn lemma_bare_root(root: Seq<char>, slashes: nat)
    requires
        root.len() > 0 ==> root.last() != '/',
    ensures
        without_trailing(root + repeated('/', slashes), '/') == root,
    decreases slashes,
{
    let text = root + repeated('/', slashes);
    if slashes > 0 {
        lemma_bare_root(root, (slashes - 1) as nat);
        assert(text.last() == '/');
        assert(text.drop_last() =~= root + repeated('/', (slashes - 1) as nat));
    } else {
        assert(text =~= root);
    }
}

proof fn lemma_asks(config: PolicyConfig, key: Seq<char>, intent: Seq<char>)
    ensures
        asks(config, key, intent) == (intent_suffix(config, key) == Some(intent)),
{
    let prefix = config.intent_prefix@;
    let bare = without_trailing(prefix, '/');
    lemma_without_trailing(prefix, '/');
    let start = bare + "/"@;
    if asks(config, key, intent) {
        let (root, slashes) = choose|root: Seq<char>, slashes: nat|
            {
                &&& prefix == #[trigger] (root + repeated('/', slashes))
                &&& root.len() > 0 ==> root.last() != '/'
                &&& key == root + "/"@ + intent
            };
        lemma_bare_root(root, slashes);
        assert(key.take(start.len() as int) =~= start);
        assert(key.skip(start.len() as int) =~= intent);
    }
    if intent_suffix(config, key) == Some(intent) {
        let slashes = (prefix.len() - bare.len()) as nat;
        assert(prefix == bare + repeated('/', slashes));
        assert(key =~= bare + "/"@ + intent);
    }
}

/// A key asks for one intent at most, and the intent is what a policy goes by.
pub proof fn lemma_intents(config: PolicyConfig, key: Seq<char>, intent: Seq<char>)
    ensures
        asks(config, key, intent) <==> intent_suffix(config, key) == Some(intent),
        intent_suffix(config, key) is None <==> forall|other: Seq<char>| !#[trigger]
            asks(config, key, other),
{
    lemma_asks(config, key, intent);
    if intent_suffix(config, key) is Some {
        lemma_asks(config, key, intent_suffix(config, key)->0);
    }
    assert forall|other: Seq<char>| intent_suffix(config, key) is None implies !#[trigger] asks(
        config,
        key,
        other,
    ) by {
        lemma_asks(config, key, other);
    }
}

/// A key inside a namespace.
pub proof fn lemma_keys_in_namespaces(namespace: Seq<char>, key: Seq<char>)
    ensures
        stands_under(key_in(namespace, key), namespace, key),
{
    let rest = without_leading(namespace, '/');
    let bare = without_slashes(namespace);
    lemma_without_leading(namespace, '/');
    lemma_without_trailing(rest, '/');
    let before = (namespace.len() - rest.len()) as nat;
    let after = (rest.len() - bare.len()) as nat;
    assert(namespace =~= repeated('/', before) + bare + repeated('/', after));
    if bare.len() > 0 {
        assert(rest[0] == bare[0]);
    }
}

/// The encoding of a command's request: by the catalog, a fixed layout or a table, with its type
/// and the digest of its schema.
pub open spec fn stated_encoding(name: Seq<char>) -> Option<Seq<char>> {
    match command_contract(name) {
        None => None,
        Some(contract) => Some(
            if contract.request_encoding == "struct"@ {
                "application/x-synapse-struct"@
            } else {
                "application/x-flatbuffers"@
            } + ";type="@ + contract.request_type + ";schema=sha256-128:"@
                + contract.request_schema_hash,
        ),
    }
}

/// The update that a refused firmware request is about: what stands between `firmware/` and the
/// next slash.
pub proof fn lemma_updates_in_keys(config: PolicyConfig, key: Seq<char>, intent: Seq<char>)
    requires
        asks(config, key, intent),
    ensures
        intent_update(config, key) is Some <==> begins_with(intent, "firmware/"@),
        intent_update(config, key) is Some ==> {
            let update = intent_update(config, key)->0;
            &&& !update.contains('/')
            &&& intent == "firmware/"@ + update || begins_with(
                intent,
                "firmware/"@ + update + "/"@,
            )
        },
{
    lemma_asks(config, key, intent);
    if begins_with(intent, "firmware/"@) {
        let rest = intent.skip("firmware/"@.len() as int);
        crate::laws::texts::lemma_pieces_make_the_text(rest, '/');
        let parts = pieces(rest, '/');
        let update = parts[0];
        reveal_strlit("/");
        assert(intent =~= "firmware/"@ + rest);
        if parts.len() == 1 {
            assert(rest == update);
        } else {
            let tail = crate::laws::texts::linked(parts.drop_first(), '/');
            assert(rest == update.push('/') + tail);
            let head = "firmware/"@ + update + "/"@;
            assert(intent.take(head.len() as int) =~= head);
        }
    }
}

// ---------------------------------------------------------------------------------------------
// Targets
// ---------------------------------------------------------------------------------------------

/// The command is delivered like this, and costs nothing.
pub open spec fn goes(
    command: AuthorizedCommand,
    delivery: Delivery,
    payload: Seq<u8>,
    leaf: Seq<char>,
    encoding: Option<Seq<char>>,
) -> bool {
    &&& command.delivery == delivery
    &&& command.payload@ == payload
    &&& command.status_leaf@ == leaf
    &&& command.encoding is Some == encoding is Some
    &&& command.encoding is Some ==> command.encoding->0@ == encoding->0
    &&& command.velocity_device is None
    &&& command.velocity_remaining is None
    &&& command.velocity_credential_id is None
    &&& command.velocity_limit is None
    &&& command.velocity_used is None
    &&& command.velocity_budget_version is None
}

/// One safe segment of a key: one to sixty-four letters, digits, dots, underscores and hyphens.
pub open spec fn one_segment(leaf: Seq<char>) -> bool {
    1 <= leaf.len() <= 64 && forall|i: int|
        0 <= i < leaf.len() ==> ('a' <= #[trigger] leaf[i] <= 'z' || 'A' <= leaf[i] <= 'Z' || '0'
            <= leaf[i] <= '9' || leaf[i] == '_' || leaf[i] == '-' || leaf[i] == '.')
}

/// A target that steers the vehicle.
pub open spec fn steers(leaf: Seq<char>) -> bool {
    leaf == "manual"@ || leaf == "manual_control_command"@ || leaf == "pos_sp"@ || leaf
        == "local_position_command"@
}

/// The part of a firmware key behind the intent is one of an upload, and the payload is neither
/// empty nor too large for it.
pub open spec fn is_upload(rest: Seq<char>, payload: Seq<u8>) -> bool {
    let parts = pieces(rest, '/');
    &&& parts.len() >= 2
    &&& is_update_id(parts[0])
    &&& payload.len() > 0
    &&& ({
        ||| parts.len() == 2 && parts[1] == "start"@ && payload.len() <= 4096
        ||| parts.len() == 2 && parts[1] == "commit"@ && payload.len() <= 2048
        ||| parts.len() == 3 && parts[1] == "chunk"@ && parsed_unsigned(
            parts[2],
            0xffff_ffff,
        ) is Some && payload.len() <= 69632
    })
}

proof fn lemma_one_segment(leaf: Seq<char>)
    ensures
        one_segment(leaf) == crate::policy::is_safe_leaf(leaf),
{
    if crate::policy::is_safe_leaf(leaf) {
        assert forall|i: int| 0 <= i < leaf.len() implies ('a' <= #[trigger] leaf[i] <= 'z' || 'A'
            <= leaf[i] <= 'Z' || '0' <= leaf[i] <= '9' || leaf[i] == '_' || leaf[i] == '-'
            || leaf[i] == '.') by {
            assert(crate::policy::is_leaf_char(leaf[i]));
        }
    }
}

proof fn lemma_uploads(rest: Seq<char>, payload: Seq<u8>)
    ensures
        is_upload(rest, payload) == firmware_outcome(rest, payload) is Ok,
{
    reveal_strlit("start");
    reveal_strlit("commit");
    reveal_strlit("chunk");
    assert("start"@.len() != "commit"@.len());
    crate::text::lemma_pieces_nonempty(rest, '/');
}

proof fn lemma_intents_differ()
    ensures
        "velocity"@ != "velocity_budget"@,
        "velocity"@ != "radio"@,
        "velocity"@ != "gain"@,
        "velocity"@ != "parameters"@,
        "velocity"@ != "trajectory"@,
        "velocity"@ != "manual"@,
        "velocity_budget"@ != "radio"@,
        "velocity_budget"@ != "gain"@,
        "velocity_budget"@ != "parameters"@,
        "velocity_budget"@ != "trajectory"@,
        "velocity_budget"@ != "manual"@,
        "radio"@ != "gain"@,
        "radio"@ != "parameters"@,
        "radio"@ != "trajectory"@,
        "radio"@ != "manual"@,
        "gain"@ != "parameters"@,
        "gain"@ != "trajectory"@,
        "gain"@ != "manual"@,
        "parameters"@ != "trajectory"@,
        "parameters"@ != "manual"@,
        "trajectory"@ != "manual"@,
        !begins_with("radio"@, "raw/"@),
        !begins_with("velocity"@, "raw/"@) && !begins_with("velocity"@, "firmware/"@),
        !begins_with("velocity_budget"@, "raw/"@),
        !begins_with("velocity_budget"@, "firmware/"@),
        !begins_with("manual"@, "raw/"@) && !begins_with("manual"@, "firmware/"@),
        forall|leaf: Seq<char>|
            #![trigger ("raw/"@ + leaf)]
            begins_with("raw/"@ + leaf, "raw/"@) && ("raw/"@ + leaf).skip("raw/"@.len() as int)
                == leaf && !begins_with("raw/"@ + leaf, "firmware/"@) && "raw/"@ + leaf
                != "radio"@ && "raw/"@ + leaf != "velocity"@ && "raw/"@ + leaf
                != "velocity_budget"@ && "raw/"@ + leaf != "gain"@ && "raw/"@ + leaf
                != "parameters"@ && "raw/"@ + leaf != "trajectory"@ && "raw/"@ + leaf
                != "manual"@,
        forall|rest: Seq<char>|
            #![trigger ("firmware/"@ + rest)]
            begins_with("firmware/"@ + rest, "firmware/"@) && ("firmware/"@ + rest).skip(
                "firmware/"@.len() as int,
            ) == rest && !begins_with("firmware/"@ + rest, "raw/"@) && "firmware/"@ + rest
                != "radio"@ && "firmware/"@ + rest != "velocity"@ && "firmware/"@ + rest
                != "velocity_budget"@ && "firmware/"@ + rest != "gain"@ && "firmware/"@ + rest
                != "parameters"@ && "firmware/"@ + rest != "trajectory"@ && "firmware/"@ + rest
                != "manual"@,
{
    reveal_strlit("velocity");
    reveal_strlit("velocity_budget");
    reveal_strlit("radio");
    reveal_strlit("gain");
    reveal_strlit("parameters");
    reveal_strlit("trajectory");
    reveal_strlit("manual");
    reveal_strlit("raw/");
    reveal_strlit("firmware/");
    assert("velocity"@[0] == 'v' && "velocity"@.len() == 8);
    assert("velocity_budget"@[0] == 'v' && "velocity_budget"@.len() == 15);
    assert("radio"@[0] == 'r' && "radio"@[1] == 'a' && "radio"@[2] == 'd');
    assert("gain"@[0] == 'g');
    assert("parameters"@[0] == 'p');
    assert("trajectory"@[0] == 't');
    assert("manual"@[0] == 'm');
    assert("raw/"@[0] == 'r' && "raw/"@[2] == 'w' && "raw/"@.len() == 4);
    assert("firmware/"@[0] == 'f' && "firmware/"@.len() == 9);
    if begins_with("radio"@, "raw/"@) {
        assert("radio"@.take(4)[2] == "raw/"@[2]);
    }
    assert("velocity"@.take(4)[0] == 'v');
    assert("velocity_budget"@.take(4)[0] == 'v');
    assert("velocity_budget"@.take(9)[0] == 'v');
    assert("manual"@.take(4)[0] == 'm');
    assert forall|leaf: Seq<char>|
        #![trigger ("raw/"@ + leaf)]
        begins_with("raw/"@ + leaf, "raw/"@) && ("raw/"@ + leaf).skip("raw/"@.len() as int)
            == leaf && !begins_with("raw/"@ + leaf, "firmware/"@) && "raw/"@ + leaf != "radio"@
            && "raw/"@ + leaf != "velocity"@ && "raw/"@ + leaf != "velocity_budget"@ && "raw/"@
            + leaf != "gain"@ && "raw/"@ + leaf != "parameters"@ && "raw/"@ + leaf
            != "trajectory"@ && "raw/"@ + leaf != "manual"@ by {
        let whole = "raw/"@ + leaf;
        assert(whole.take(4) =~= "raw/"@);
        assert(whole.skip(4) =~= leaf);
        assert(whole[0] == 'r' && whole[2] == 'w');
        if begins_with(whole, "firmware/"@) {
            assert(whole.take(9)[0] == "firmware/"@[0]);
        }
    }
    assert forall|rest: Seq<char>|
        #![trigger ("firmware/"@ + rest)]
        begins_with("firmware/"@ + rest, "firmware/"@) && ("firmware/"@ + rest).skip(
            "firmware/"@.len() as int,
        ) == rest && !begins_with("firmware/"@ + rest, "raw/"@) && "firmware/"@ + rest
            != "radio"@ && "firmware/"@ + rest != "velocity"@ && "firmware/"@ + rest
            != "velocity_budget"@ && "firmware/"@ + rest != "gain"@ && "firmware/"@ + rest
            != "parameters"@ && "firmware/"@ + rest != "trajectory"@ && "firmware/"@ + rest
            != "manual"@ by {
        let whole = "firmware/"@ + rest;
        assert(whole.take(9) =~= "firmware/"@);
        assert(whole.skip(9) =~= rest);
        assert(whole[0] == 'f');
        if begins_with(whole, "raw/"@) {
            assert(whole.take(4)[0] == "raw/"@[0]);
        }
    }
}

/// Where the requests of the trusted website go: radio and manual control are published on their
/// own topics, parameters and trajectories are queries to the vehicle's commands, raw bytes are
/// published on the segment that they name, and uploads go to the firmware gate. The values in
/// their payloads do not matter.
pub proof fn lemma_trusted_targets(
    config: PolicyConfig,
    key: Seq<char>,
    payload: Seq<u8>,
    result: Result<AuthorizedCommand, PolicyError>,
)
    requires
        result_tells(result, trusted_outcome(config, key, payload)),
    ensures
        asks(config, key, "radio"@) ==> result is Ok && goes(
            result->Ok_0,
            Delivery::Publish,
            payload,
            "radio"@,
            topic_encoding("rc"@),
        ) && stands_under(result->Ok_0.target@, config.vehicle_topic_prefix@, "rc"@),
        asks(config, key, "manual"@) ==> result is Ok && goes(
            result->Ok_0,
            Delivery::Publish,
            payload,
            "manual"@,
            topic_encoding("manual"@),
        ) && stands_under(result->Ok_0.target@, config.vehicle_topic_prefix@, "manual"@),
        asks(config, key, "gain"@) ==> result is Ok && goes(
            result->Ok_0,
            Delivery::Query,
            payload,
            "gain"@,
            stated_encoding("param_set"@),
        ) && result->Ok_0.target@ == config.parameter_key@,
        asks(config, key, "parameters"@) ==> result is Ok && goes(
            result->Ok_0,
            Delivery::Query,
            payload,
            "parameters"@,
            stated_encoding("param_get"@),
        ) && stands_under(result->Ok_0.target@, config.vehicle_topic_prefix@, "cmd/param_get"@),
        asks(config, key, "trajectory"@) ==> result is Ok && goes(
            result->Ok_0,
            Delivery::Query,
            payload,
            "trajectory"@,
            stated_encoding("trajectory_set"@),
        ) && stands_under(
            result->Ok_0.target@,
            config.vehicle_topic_prefix@,
            "cmd/trajectory_set"@,
        ),
        forall|leaf: Seq<char>| #[trigger]
            asks(config, key, "raw/"@ + leaf) ==> {
                &&& result is Ok <==> one_segment(leaf) && 1 <= payload.len()
                    <= config.raw_max_bytes
                &&& result is Ok ==> goes(
                    result->Ok_0,
                    Delivery::Publish,
                    payload,
                    "raw/"@ + leaf,
                    topic_encoding(leaf),
                ) && stands_under(result->Ok_0.target@, config.vehicle_topic_prefix@, leaf)
                &&& result is Err ==> result->Err_0 is Rejected
            },
        forall|rest: Seq<char>| #[trigger]
            asks(config, key, "firmware/"@ + rest) ==> {
                &&& result is Ok <==> is_upload(rest, payload)
                &&& result is Ok ==> goes(
                    result->Ok_0,
                    Delivery::Firmware,
                    payload,
                    "firmware/"@ + pieces(rest, '/')[0],
                    None,
                ) && result->Ok_0.target@ == rest
            },
        result is Err && result->Err_0 is WrongNamespace <==> forall|intent: Seq<char>|
            !#[trigger] asks(config, key, intent),
        asks(config, key, "velocity"@) ==> result is Err,
        asks(config, key, "velocity_budget"@) ==> result is Err,
        result is Ok ==> {
            let intent = intent_suffix(config, key)->0;
            ||| intent == "radio"@ || intent == "manual"@ || intent == "gain"@ || intent
                == "parameters"@ || intent == "trajectory"@
            ||| begins_with(intent, "raw/"@)
            ||| begins_with(intent, "firmware/"@)
        },
        forall|intent: Seq<char>| #[trigger]
            asks(config, key, intent) && !begins_with(intent, "raw/"@) && !begins_with(
                intent,
                "firmware/"@,
            ) && result is Err ==> result->Err_0 is UnknownIntent
                && result->Err_0->UnknownIntent_0@ == intent,
{
    let namespace = config.vehicle_topic_prefix@;
    lemma_intents_differ();
    lemma_intents(config, key, ""@);
    assert forall|intent: Seq<char>| #[trigger] asks(config, key, intent) implies intent_suffix(
        config,
        key,
    ) == Some(intent) by {
        lemma_asks(config, key, intent);
    }
    lemma_keys_in_namespaces(namespace, "rc"@);
    lemma_keys_in_namespaces(namespace, "manual"@);
    lemma_command_keys();
    lemma_keys_in_namespaces(namespace, "cmd/param_get"@);
    lemma_keys_in_namespaces(namespace, "cmd/trajectory_set"@);
    assert forall|leaf: Seq<char>| #[trigger] asks(config, key, "raw/"@ + leaf) implies {
        &&& result is Ok <==> one_segment(leaf) && 1 <= payload.len() <= config.raw_max_bytes
        &&& result is Ok ==> goes(
            result->Ok_0,
            Delivery::Publish,
            payload,
            "raw/"@ + leaf,
            topic_encoding(leaf),
        ) && stands_under(result->Ok_0.target@, config.vehicle_topic_prefix@, leaf)
        &&& result is Err ==> result->Err_0 is Rejected
    } by {
        lemma_one_segment(leaf);
        lemma_keys_in_namespaces(namespace, leaf);
        assert(trusted_outcome(config, key, payload) == raw_outcome(config, leaf, payload, false));
    }
    assert forall|rest: Seq<char>| #[trigger] asks(config, key, "firmware/"@ + rest) implies {
        &&& result is Ok <==> is_upload(rest, payload)
        &&& result is Ok ==> goes(
            result->Ok_0,
            Delivery::Firmware,
            payload,
            "firmware/"@ + pieces(rest, '/')[0],
            None,
        ) && result->Ok_0.target@ == rest
    } by {
        lemma_uploads(rest, payload);
        assert(trusted_outcome(config, key, payload) == firmware_outcome(rest, payload));
    }
}

proof fn lemma_command_keys()
    ensures
        crate::catalog::CMD_KEY_PREFIX@ + "/"@ + "param_get"@ == "cmd/param_get"@,
        crate::catalog::CMD_KEY_PREFIX@ + "/"@ + "trajectory_set"@ == "cmd/trajectory_set"@,
{
    reveal_strlit("cmd");
    reveal_strlit("/");
    reveal_strlit("param_get");
    reveal_strlit("trajectory_set");
    reveal_strlit("cmd/param_get");
    reveal_strlit("cmd/trajectory_set");
    assert("cmd"@ + "/"@ + "param_get"@ =~= "cmd/param_get"@);
    assert("cmd"@ + "/"@ + "trajectory_set"@ =~= "cmd/trajectory_set"@);
}

/// Where the checked requests go that are accepted: as the trusted ones, but no raw bytes to a
/// target that steers the vehicle, no manual control, and velocities only as budgeted parameters.
pub proof fn lemma_checked_targets(
    policy: CommandPolicy,
    key: Seq<char>,
    payload: Seq<u8>,
    result: Result<AuthorizedCommand, PolicyError>,
)
    requires
        result_tells(result, checked_outcome(policy, key, payload)),
    ensures
        ({
            let config = policy.config;
            &&& asks(config, key, "manual"@) ==> result is Err && result->Err_0 is UnknownIntent
            &&& result is Ok && asks(config, key, "radio"@) ==> goes(
                result->Ok_0,
                Delivery::Publish,
                payload,
                "radio"@,
                topic_encoding("rc"@),
            ) && stands_under(result->Ok_0.target@, config.vehicle_topic_prefix@, "rc"@)
            &&& result is Ok && asks(config, key, "gain"@) ==> goes(
                result->Ok_0,
                Delivery::Query,
                payload,
                "gain"@,
                stated_encoding("param_set"@),
            ) && result->Ok_0.target@ == config.parameter_key@
            &&& result is Ok && asks(config, key, "parameters"@) ==> goes(
                result->Ok_0,
                Delivery::Query,
                payload,
                "parameters"@,
                stated_encoding("param_get"@),
            ) && stands_under(
                result->Ok_0.target@,
                config.vehicle_topic_prefix@,
                "cmd/param_get"@,
            )
            &&& result is Ok && asks(config, key, "trajectory"@) ==> goes(
                result->Ok_0,
                Delivery::Query,
                payload,
                "trajectory"@,
                stated_encoding("trajectory_set"@),
            ) && stands_under(
                result->Ok_0.target@,
                config.vehicle_topic_prefix@,
                "cmd/trajectory_set"@,
            )
            &&& forall|leaf: Seq<char>| #[trigger]
                asks(config, key, "raw/"@ + leaf) ==> {
                    &&& result is Ok <==> one_segment(leaf) && !steers(leaf) && 1 <= payload.len()
                        <= config.raw_max_bytes
                    &&& result is Ok ==> goes(
                        result->Ok_0,
                        Delivery::Publish,
                        payload,
                        "raw/"@ + leaf,
                        topic_encoding(leaf),
                    ) && stands_under(result->Ok_0.target@, config.vehicle_topic_prefix@, leaf)
                    &&& result is Err ==> result->Err_0 is Rejected
                }
            &&& forall|rest: Seq<char>| #[trigger]
                asks(config, key, "firmware/"@ + rest) ==> {
                    &&& result is Ok <==> is_upload(rest, payload)
                    &&& result is Ok ==> goes(
                        result->Ok_0,
                        Delivery::Firmware,
                        payload,
                        "firmware/"@ + pieces(rest, '/')[0],
                        None,
                    ) && result->Ok_0.target@ == rest
                }
            &&& result is Err && result->Err_0 is WrongNamespace <==> forall|intent: Seq<char>|
                !#[trigger] asks(config, key, intent)
            &&& result is Ok ==> {
                let intent = intent_suffix(config, key)->0;
                ||| intent == "velocity"@ || intent == "velocity_budget"@ || intent == "radio"@
                    || intent == "gain"@ || intent == "parameters"@ || intent == "trajectory"@
                ||| begins_with(intent, "raw/"@)
                ||| begins_with(intent, "firmware/"@)
            }
        }),
{
    let config = policy.config;
    let namespace = config.vehicle_topic_prefix@;
    lemma_intents_differ();
    lemma_intents(config, key, ""@);
    assert forall|intent: Seq<char>| #[trigger] asks(config, key, intent) implies intent_suffix(
        config,
        key,
    ) == Some(intent) by {
        lemma_asks(config, key, intent);
    }
    lemma_keys_in_namespaces(namespace, "rc"@);
    lemma_command_keys();
    lemma_keys_in_namespaces(namespace, "cmd/param_get"@);
    lemma_keys_in_namespaces(namespace, "cmd/trajectory_set"@);
    assert forall|leaf: Seq<char>| #[trigger] asks(config, key, "raw/"@ + leaf) implies {
        &&& result is Ok <==> one_segment(leaf) && !steers(leaf) && 1 <= payload.len()
            <= config.raw_max_bytes
        &&& result is Ok ==> goes(
            result->Ok_0,
            Delivery::Publish,
            payload,
            "raw/"@ + leaf,
            topic_encoding(leaf),
        ) && stands_under(result->Ok_0.target@, config.vehicle_topic_prefix@, leaf)
        &&& result is Err ==> result->Err_0 is Rejected
    } by {
        lemma_one_segment(leaf);
        lemma_keys_in_namespaces(namespace, leaf);
        assert(checked_outcome(policy, key, payload) == raw_outcome(config, leaf, payload, true));
    }
    assert forall|rest: Seq<char>| #[trigger] asks(config, key, "firmware/"@ + rest) implies {
        &&& result is Ok <==> is_upload(rest, payload)
        &&& result is Ok ==> goes(
            result->Ok_0,
            Delivery::Firmware,
            payload,
            "firmware/"@ + pieces(rest, '/')[0],
            None,
        ) && result->Ok_0.target@ == rest
    } by {
        lemma_uploads(rest, payload);
        assert(checked_outcome(policy, key, payload) == firmware_outcome(rest, payload));
    }
}

/// Where a checked and a trusted request with the same key and payload are both accepted, they are
/// delivered alike: in the same way, to the same target, under the same status and encoding, and
/// with the same bytes.
pub proof fn lemma_checked_and_trusted_agree(
    policy: CommandPolicy,
    key: Seq<char>,
    payload: Seq<u8>,
    checked: Result<AuthorizedCommand, PolicyError>,
    trusted: Result<AuthorizedCommand, PolicyError>,
)
    requires
        result_tells(checked, checked_outcome(policy, key, payload)),
        result_tells(trusted, trusted_outcome(policy.config, key, payload)),
        checked is Ok,
        trusted is Ok,
    ensures
        checked->Ok_0.delivery == trusted->Ok_0.delivery,
        checked->Ok_0.target@ == trusted->Ok_0.target@,
        checked->Ok_0.status_leaf@ == trusted->Ok_0.status_leaf@,
        checked->Ok_0.payload@ == trusted->Ok_0.payload@,
        checked->Ok_0.encoding is Some == trusted->Ok_0.encoding is Some,
        checked->Ok_0.encoding is Some ==> checked->Ok_0.encoding->0@
            == trusted->Ok_0.encoding->0@,
{
    lemma_intents_differ();
    lemma_trusted_targets(policy.config, key, payload, trusted);
    lemma_checked_targets(policy, key, payload, checked);
    let intent = intent_suffix(policy.config, key)->0;
    lemma_asks(policy.config, key, intent);
    assert forall|other: Seq<char>| #[trigger] asks(policy.config, key, other) implies other
        == intent by {
        lemma_asks(policy.config, key, other);
    }
    if intent == "velocity"@ || intent == "velocity_budget"@ {
        assert(asks(policy.config, key, intent));
        assert(false);
    }
}

// ---------------------------------------------------------------------------------------------
// What checked requests may hold
// ---------------------------------------------------------------------------------------------

/// A radio message that may be sent: five to eighteen channels, a link quality of one to a hundred
/// percent, and every channel between 900 and 2100 microseconds.
pub open spec fn good_radio(payload: Seq<u8>) -> bool {
    &&& payload.len() == 48
    &&& 5 <= payload[8] <= 18
    &&& 1 <= payload[9] <= 100
    &&& forall|channel: int|
        0 <= channel < payload[8] ==> 900 <= #[trigger] payload[10 + 2 * channel] + 256
            * payload[11 + 2 * channel] <= 2100
}

pub(crate) proof fn lemma_channels(payload: Seq<u8>, from: int, count: int)
    requires
        0 <= from,
    ensures
        first_bad_channel(payload, from, count) is None <==> forall|channel: int|
            from <= channel < count ==> 900 <= #[trigger] payload[10 + 2 * channel] + 256
                * payload[11 + 2 * channel] <= 2100,
    decreases count - from,
{
    if from < count {
        lemma_channels(payload, from + 1, count);
        let value = payload[10 + 2 * from] + 256 * payload[11 + 2 * from];
        if first_bad_channel(payload, from, count) is None {
            assert forall|channel: int| from <= channel < count implies 900 <= #[trigger] payload[10
                + 2 * channel] + 256 * payload[11 + 2 * channel] <= 2100 by {
                if channel == from {
                    assert(900 <= value <= 2100);
                }
            }
        }
    }
}

/// A checked radio message is accepted exactly when all of its values are in range; one of another
/// size is an invalid payload, any other is rejected.
pub proof fn lemma_checked_radio(
    policy: CommandPolicy,
    key: Seq<char>,
    payload: Seq<u8>,
    result: Result<AuthorizedCommand, PolicyError>,
)
    requires
        result_tells(result, checked_outcome(policy, key, payload)),
        asks(policy.config, key, "radio"@),
    ensures
        result is Ok <==> good_radio(payload),
        result is Err ==> (result->Err_0 is InvalidPayload <==> payload.len() != 48),
        result is Err && payload.len() == 48 ==> result->Err_0 is Rejected,
{
    lemma_asks(policy.config, key, "radio"@);
    lemma_intents_differ();
    lemma_channels(payload, 0, payload[8] as int);
    assert(checked_outcome(policy, key, payload) is Ok <==> radio_refusal(payload) is None);
}

/// The parameter may be set by a checked request: it is a floating-point one with limits, other
/// than the velocity, and the value is finite and within them.
pub open spec fn good_gain(policy: CommandPolicy, parameter: Parameter) -> bool {
    let limits = policy.parameter_limits@;
    &&& parameter.kind == 0
    &&& parameter.name is Some
    &&& 1 <= byte_length(trimmed(parameter.name->0)) <= 128
    &&& trimmed(parameter.name->0) != "velocity.setpoint"@
    &&& limits.dom().contains(trimmed(parameter.name->0))
    &&& parameter.value.finite()
    &&& !parameter.value.below(limits[trimmed(parameter.name->0)].minimum)
    &&& !limits[trimmed(parameter.name->0)].maximum.below(parameter.value)
}

proof fn lemma_no_name()
    ensures
        byte_length(trimmed(Seq::empty())) == 0,
{
    assert(trimmed(Seq::<char>::empty()) =~= Seq::empty());
}

/// A checked parameter is set exactly when it has limits and its value is finite and within them;
/// an undecodable payload is answered with the decoder's words.
pub proof fn lemma_checked_gains(
    policy: CommandPolicy,
    key: Seq<char>,
    payload: Seq<u8>,
    result: Result<AuthorizedCommand, PolicyError>,
)
    requires
        result_tells(result, checked_outcome(policy, key, payload)),
        asks(policy.config, key, "gain"@),
    ensures
        result is Ok <==> param_set_request(payload) is Ok && param_set_request(
            payload,
        )->Ok_0 is Some && good_gain(policy, param_set_request(payload)->Ok_0->0),
        param_set_request(payload) is Err ==> result is Err && result->Err_0 is InvalidPayload
            && result->Err_0->InvalidPayload_0@ == param_set_request(payload)->Err_0,
        param_set_request(payload) == Ok::<Option<Parameter>, Seq<char>>(None) ==> result is Err
            && result->Err_0 is InvalidPayload,
        param_set_request(payload) is Ok && param_set_request(payload)->Ok_0 is Some
            && result is Err ==> result->Err_0 is Rejected,
        param_set_request(payload) is Ok && param_set_request(payload)->Ok_0 is Some && ({
            let parameter = param_set_request(payload)->Ok_0->0;
            let name = trimmed(parameter.name->0);
            let limits = policy.parameter_limits@;
            &&& parameter.kind == 0
            &&& parameter.name is Some
            &&& 1 <= byte_length(name) <= 128
            &&& name != "velocity.setpoint"@
            &&& limits.dom().contains(name)
            &&& parameter.value.finite()
            &&& parameter.value.below(limits[name].minimum) || limits[name].maximum.below(
                parameter.value,
            )
        }) ==> {
            let name = trimmed(param_set_request(payload)->Ok_0->0.name->0);
            let limits = policy.parameter_limits@[name];
            result is Err && result->Err_0 is Rejected && result->Err_0->Rejected_0@
                == "parameter "@ + name + " must be within "@ + ("["@ + limits.minimum_text@
                + ", "@ + limits.maximum_text@ + "]"@)
        },
{
    lemma_asks(policy.config, key, "gain"@);
    lemma_intents_differ();
    lemma_no_name();
    assert(bounds_of(policy.parameter_limits@).dom() =~= policy.parameter_limits@.dom());
}

/// A checked reading of a parameter is accepted exactly when the request names one, in one to 128
/// bytes without the white space around it.
pub proof fn lemma_checked_readings(
    policy: CommandPolicy,
    key: Seq<char>,
    payload: Seq<u8>,
    result: Result<AuthorizedCommand, PolicyError>,
)
    requires
        result_tells(result, checked_outcome(policy, key, payload)),
        asks(policy.config, key, "parameters"@),
    ensures
        result is Ok <==> param_get_request(payload) is Ok && param_get_request(
            payload,
        )->Ok_0 is Some && 1 <= byte_length(trimmed(param_get_request(payload)->Ok_0->0)) <= 128,
        param_get_request(payload) is Err ==> result->Err_0 is InvalidPayload
            && result->Err_0->InvalidPayload_0@ == param_get_request(payload)->Err_0,
        param_get_request(payload) is Ok && result is Err ==> result->Err_0 is Rejected,
{
    lemma_asks(policy.config, key, "parameters"@);
    lemma_intents_differ();
    lemma_no_name();
}

/// The segment has its place and frame, and its six coordinates are finite.
pub open spec fn good_segment(segment: Segment, index: int) -> bool {
    &&& segment.sequence == index
    &&& segment.frame == 0
    &&& segment.start.0.finite()
    &&& segment.start.1.finite()
    &&& segment.start.2.finite()
    &&& segment.end.0.finite()
    &&& segment.end.1.finite()
    &&& segment.end.2.finite()
}

pub(crate) proof fn lemma_segments(segments: Seq<Segment>, from: int)
    requires
        0 <= from,
    ensures
        segments_complaint(segments, from) is None <==> forall|i: int|
            from <= i < segments.len() ==> good_segment(#[trigger] segments[i], i),
    decreases segments.len() - from,
{
    if from < segments.len() {
        lemma_segments(segments, from + 1);
        if segments_complaint(segments, from) is None {
            assert(good_segment(segments[from], from));
        }
    }
}

/// A checked trajectory is accepted exactly when it has one to six segments, says how many, and
/// they are numbered in order, in local coordinates, and finite.
pub proof fn lemma_checked_trajectories(
    policy: CommandPolicy,
    key: Seq<char>,
    payload: Seq<u8>,
    result: Result<AuthorizedCommand, PolicyError>,
)
    requires
        result_tells(result, checked_outcome(policy, key, payload)),
        asks(policy.config, key, "trajectory"@),
    ensures
        result is Ok <==> trajectory_request(payload) is Ok && ({
            let plan = trajectory_request(payload)->Ok_0;
            &&& plan.segments is Some
            &&& 1 <= plan.segments->0.len() <= 6
            &&& plan.total == plan.segments->0.len()
            &&& forall|i: int|
                0 <= i < plan.segments->0.len() ==> good_segment(
                    #[trigger] (plan.segments->0)[i],
                    i,
                )
        }),
        trajectory_request(payload) is Err ==> result->Err_0 is InvalidPayload
            && result->Err_0->InvalidPayload_0@ == trajectory_request(payload)->Err_0,
        result is Err && trajectory_request(payload) is Ok && trajectory_request(
            payload,
        )->Ok_0.segments is Some ==> result->Err_0 is Rejected,
{
    lemma_asks(policy.config, key, "trajectory"@);
    lemma_intents_differ();
    if trajectory_request(payload) is Ok && trajectory_request(payload)->Ok_0.segments is Some {
        lemma_segments(trajectory_request(payload)->Ok_0.segments->0, 0);
    }
}

/// A manual control message shows an operator in control exactly when its ten axes are within a
/// thousand, no unknown axis is in use, and it is both active and valid.
pub proof fn lemma_manual_messages(payload: Seq<u8>)
    ensures
        manual_refusal(payload) is None <==> {
            &&& payload.len() == 40
            &&& forall|i: int|
                0 <= i < 10 ==> {
                    let word = #[trigger] payload[14 + 2 * i] + 256 * payload[15 + 2 * i];
                    word <= 1000 || 0x1_0000 - 1000 <= word
                }
            &&& payload[12] + 256 * payload[13] <= 0x3ff
            &&& payload[35] & 4 != 0
            &&& payload[35] & 8 != 0
        },
        manual_refusal(payload) is Some ==> (manual_refusal(payload)->0 is InvalidPayload
            <==> payload.len() != 40),
{
    if payload.len() == 40 {
        let flags = payload[35];
        lemma_flags(flags);
        assert forall|i: int| 0 <= i < 10 implies (-1000 <= #[trigger] axis(payload, i) <= 1000
            <==> ({
            let word = payload[14 + 2 * i] + 256 * payload[15 + 2 * i];
            word <= 1000 || 0x1_0000 - 1000 <= word
        })) by {}
        if crate::policy::axes_valid(payload) {
            assert forall|i: int| 0 <= i < 10 implies ({
                let word = #[trigger] payload[14 + 2 * i] + 256 * payload[15 + 2 * i];
                word <= 1000 || 0x1_0000 - 1000 <= word
            }) by {
                assert(-1000 <= axis(payload, i) <= 1000);
            }
        } else {
            let i = choose|i: int| 0 <= i < 10 && !(-1000 <= #[trigger] axis(payload, i) <= 1000);
            let word = payload[14 + 2 * i] + 256 * payload[15 + 2 * i];
            assert(!(word <= 1000 || 0x1_0000 - 1000 <= word));
        }
    }
}

/// The flags of a manual control message are its lowest bits: armed, killed, active and valid.
pub proof fn lemma_flags(flags: u8)
    ensures
        is_set(flags, crate::manual::ARM_FLAG) <==> flags & 1 != 0,
        is_set(flags, crate::manual::KILL_FLAG) <==> flags & 2 != 0,
        is_set(flags, crate::manual::ACTIVE_FLAG) <==> flags & 4 != 0,
        is_set(flags, crate::manual::VALID_FLAG) <==> flags & 8 != 0,
{
    assert((flags / 1) % 2 == 1 <==> flags & 1 != 0) by (bit_vector);
    assert((flags / 2) % 2 == 1 <==> flags & 2 != 0) by (bit_vector);
    assert((flags / 4) % 2 == 1 <==> flags & 4 != 0) by (bit_vector);
    assert((flags / 8) % 2 == 1 <==> flags & 8 != 0) by (bit_vector);
}

/// One value against its limits: what `validate_gain` lets pass, and what it says otherwise.
pub proof fn lemma_values_and_limits(
    kind: u8,
    value: crate::binary64::Binary64,
    name: Seq<char>,
    limits: Option<crate::limits::Bounds>,
)
    ensures
        value_refusal(kind, value, name, limits) is None <==> kind == 0 && limits is Some
            && value.finite() && !value.below(limits->0.minimum) && !limits->0.maximum.below(value),
        value_refusal(kind, value, name, limits) is Some ==> value_refusal(
            kind,
            value,
            name,
            limits,
        ) == Some(
            Refusal::Rejected(
                if kind != 0 {
                    "public parameters must use ParamKind::Float"@
                } else if limits is None {
                    "public parameter "@ + quoted_text(name) + " is not allowlisted"@
                } else if !value.finite() {
                    "parameter "@ + name + " must be finite"@
                } else {
                    "parameter "@ + name + " must be within "@ + ("["@ + limits->0.minimum_text
                        + ", "@ + limits->0.maximum_text + "]"@)
                },
            ),
        ),
{
}

// ---------------------------------------------------------------------------------------------
// Envelopes and attempts
// ---------------------------------------------------------------------------------------------

/// A name that a team may go by: letters, digits, dots, underscores, colons and hyphens.
pub open spec fn good_team(name: Seq<char>) -> bool {
    1 <= byte_length(name) <= 64 && forall|i: int|
        0 <= i < name.len() ==> ('a' <= #[trigger] name[i] <= 'z' || 'A' <= name[i] <= 'Z' || '0'
            <= name[i] <= '9' || name[i] == '.' || name[i] == '_' || name[i] == ':' || name[i]
            == '-')
}

/// What an envelope starts with: `EV`, a letter for its kind, and the digit one.
pub open spec fn mark(kind: u8) -> Seq<u8> {
    seq![69u8, 86u8, kind, 49u8]
}

/// The payload is the magic, the length of a name, the name, and the body; the team is the name in
/// small letters.
pub open spec fn seals(
    payload: Seq<u8>,
    magic: Seq<u8>,
    team: Seq<char>,
    body: Seq<u8>,
) -> bool {
    exists|name: Seq<u8>|
        {
            &&& payload == #[trigger] (magic + seq![name.len() as u8] + name + body)
            &&& 1 <= name.len() <= 64
            &&& valid_utf8(name)
            &&& good_team(decode_utf8(name))
            &&& team == lower(decode_utf8(name))
        }
}

proof fn lemma_team_names(name: Seq<char>)
    ensures
        good_team(name) == crate::velocity_budget::is_team_name(name),
{
    if crate::velocity_budget::is_team_name(name) {
        assert forall|i: int| 0 <= i < name.len() implies ('a' <= #[trigger] name[i] <= 'z' || 'A'
            <= name[i] <= 'Z' || '0' <= name[i] <= '9' || name[i] == '.' || name[i] == '_'
            || name[i] == ':' || name[i] == '-') by {
            assert(crate::velocity_budget::is_team_char(name[i]));
        }
    }
}

/// An envelope is opened exactly when it is whole and its team has a proper name: the team and the
/// body are what was put in.
pub proof fn lemma_envelopes(
    payload: Seq<u8>,
    magic: Seq<u8>,
    expected: Option<usize>,
    team: Seq<char>,
    body: Seq<u8>,
)
    requires
        magic.len() == 4,
    ensures
        envelope_outcome(payload, magic, expected) == Ok::<(Seq<char>, Seq<u8>), Refusal>(
            (team, body),
        ) <==> seals(payload, magic, team, body) && (expected is Some ==> body.len()
            == expected->0),
{
    if envelope_outcome(payload, magic, expected) == Ok::<(Seq<char>, Seq<u8>), Refusal>(
        (team, body),
    ) {
        let length = payload[4] as int;
        let name = payload.subrange(5, 5 + length);
        lemma_team_names(decode_utf8(name));
        assert(payload =~= magic + seq![name.len() as u8] + name + body);
    }
    if seals(payload, magic, team, body) {
        let name = choose|name: Seq<u8>|
            {
                &&& payload == #[trigger] (magic + seq![name.len() as u8] + name + body)
                &&& 1 <= name.len() <= 64
                &&& valid_utf8(name)
                &&& good_team(decode_utf8(name))
                &&& team == lower(decode_utf8(name))
            };
        lemma_team_names(decode_utf8(name));
        assert(payload.take(4) =~= magic);
        assert(payload[4] == name.len());
        assert(payload.subrange(5, 5 + name.len() as int) =~= name);
        assert(payload.skip(5 + name.len() as int) =~= body);
    }
}

/// How often the team's name stands in the ledger.
pub open spec fn attempts_of(ledger: Map<Seq<char>, u32>, team: Seq<char>) -> int {
    if ledger.dom().contains(team) {
        ledger[team] as int
    } else {
        0
    }
}

/// The request may be sent for the team while attempts are left: it is sealed as a velocity
/// request, and sets the velocity to a finite value within the configured limits.
pub open spec fn good_velocity(
    config: PolicyConfig,
    payload: Seq<u8>,
    team: Seq<char>,
    body: Seq<u8>,
) -> bool {
    &&& seals(payload, mark(67), team, body)
    &&& param_set_request(body) is Ok
    &&& param_set_request(body)->Ok_0 is Some
    &&& ({
        let parameter = param_set_request(body)->Ok_0->0;
        &&& parameter.name == Some("velocity.setpoint"@)
        &&& parameter.kind == 0
        &&& parameter.value.finite()
        &&& !parameter.value.below(config.velocity_min_mps)
        &&& !config.velocity_max_mps.below(parameter.value)
    })
}

proof fn lemma_velocity_request(
    config: PolicyConfig,
    payload: Seq<u8>,
    team: Seq<char>,
    body: Seq<u8>,
)
    ensures
        good_velocity(config, payload, team, body) <==> velocity_request(config, payload) == Ok::<
            (Seq<char>, Seq<u8>),
            Refusal,
        >((team, body)),
{
    let magic = crate::policy::VELOCITY_MAGIC@;
    assert(magic =~= mark(67));
    lemma_envelopes(payload, magic, None, team, body);
    reveal_strlit("velocity.setpoint");
    assert("velocity.setpoint"@.len() > 0);
    if velocity_request(config, payload) is Ok {
        let (other_team, other_body) = velocity_request(config, payload)->Ok_0;
        lemma_envelopes(payload, magic, None, other_team, other_body);
    }
}

/// A checked velocity is sent exactly when it is a good one and its team has an attempt left. It is
/// the body of its envelope, set as a parameter; it uses one attempt of that team, and of no other,
/// and says how the team stands then.
pub proof fn lemma_checked_velocities(
    policy: CommandPolicy,
    key: Seq<char>,
    payload: Seq<u8>,
    result: Result<AuthorizedCommand, PolicyError>,
    team: Seq<char>,
    body: Seq<u8>,
)
    requires
        result_tells(result, checked_outcome(policy, key, payload)),
        asks(policy.config, key, "velocity"@),
    ensures
        ({
            let before = policy.velocity_budget.used@;
            let after = ledger_after(policy, key, payload);
            let limit = policy.velocity_budget.limit;
            &&& good_velocity(policy.config, payload, team, body) ==> {
                &&& result is Ok <==> attempts_of(before, team) < limit
                &&& result is Ok ==> {
                    let command = result->Ok_0;
                    &&& command.delivery == Delivery::Query
                    &&& command.target@ == policy.config.parameter_key@
                    &&& command.payload@ == body
                    &&& command.status_leaf@ == "velocity"@
                    &&& command.encoding is Some == stated_encoding("param_set"@) is Some
                    &&& command.encoding is Some ==> command.encoding->0@ == stated_encoding(
                        "param_set"@,
                    )->0
                    &&& command.velocity_device is Some && command.velocity_device->0@ == team
                    &&& command.velocity_credential_id is Some
                        && command.velocity_credential_id->0@ == team
                    &&& command.velocity_limit == Some(limit)
                    &&& command.velocity_used is Some && command.velocity_used->0 == attempts_of(
                        before,
                        team,
                    ) + 1
                    &&& command.velocity_remaining is Some && command.velocity_remaining->0
                        == limit - (attempts_of(before, team) + 1)
                    &&& command.velocity_budget_version is Some
                        && command.velocity_budget_version->0@ == "velocity-budget.v1"@
                    &&& attempts_of(after, team) == attempts_of(before, team) + 1
                    &&& forall|other: Seq<char>|
                        other != team ==> #[trigger] attempts_of(after, other) == attempts_of(
                            before,
                            other,
                        )
                }
                &&& result is Err ==> result->Err_0 is Rejected && result->Err_0->Rejected_0@
                    == "velocity budget is exhausted"@
            }
            &&& result is Err ==> after == before
            &&& result is Ok ==> exists|team: Seq<char>, body: Seq<u8>| #[trigger]
                good_velocity(policy.config, payload, team, body)
        }),
{
    lemma_asks(policy.config, key, "velocity"@);
    lemma_velocity_request(policy.config, payload, team, body);
    if result is Ok {
        let (other_team, other_body) = velocity_request(policy.config, payload)->Ok_0;
        lemma_velocity_request(policy.config, payload, other_team, other_body);
    }
}

/// A velocity that is out of its limits is refused with the limits; the team keeps its attempts.
pub proof fn lemma_refused_velocities(
    policy: CommandPolicy,
    key: Seq<char>,
    payload: Seq<u8>,
    result: Result<AuthorizedCommand, PolicyError>,
    team: Seq<char>,
    body: Seq<u8>,
)
    requires
        result_tells(result, checked_outcome(policy, key, payload)),
        asks(policy.config, key, "velocity"@),
        seals(payload, mark(67), team, body),
    ensures
        param_set_request(body) is Err ==> result is Err && result->Err_0 is InvalidPayload
            && result->Err_0->InvalidPayload_0@ == param_set_request(body)->Err_0,
        param_set_request(body) is Ok && param_set_request(body)->Ok_0 is Some ==> {
            let parameter = param_set_request(body)->Ok_0->0;
            &&& parameter.name == Some("velocity.setpoint"@) && parameter.kind == 0
                && parameter.value.finite() && (parameter.value.below(
                policy.config.velocity_min_mps,
            ) || policy.config.velocity_max_mps.below(parameter.value)) ==> result is Err
                && result->Err_0 is Rejected && result->Err_0->Rejected_0@ == "velocity "@
                + parameter.value_text + " m/s is outside "@ + ("["@
                + policy.config.velocity_min_text@ + ", "@ + policy.config.velocity_max_text@
                + "]"@)
            &&& parameter.name != Some("velocity.setpoint"@) || parameter.kind != 0
                || !parameter.value.finite() ==> result is Err && result->Err_0 is Rejected
        },
{
    lemma_asks(policy.config, key, "velocity"@);
    let magic = crate::policy::VELOCITY_MAGIC@;
    assert(magic =~= mark(67));
    lemma_envelopes(payload, magic, None, team, body);
    reveal_strlit("velocity.setpoint");
    assert("velocity.setpoint"@.len() > 0);
}

/// A budget query is answered exactly when its envelope is whole and has no body: with how the team
/// stands. It sends nothing and uses no attempt.
pub proof fn lemma_budget_queries(
    policy: CommandPolicy,
    key: Seq<char>,
    payload: Seq<u8>,
    result: Result<AuthorizedCommand, PolicyError>,
    team: Seq<char>,
)
    requires
        result_tells(result, checked_outcome(policy, key, payload)),
        asks(policy.config, key, "velocity_budget"@),
    ensures
        ledger_after(policy, key, payload) == policy.velocity_budget.used@,
        result is Ok <==> exists|team: Seq<char>| #[trigger]
            seals(payload, mark(66), team, Seq::empty()),
        seals(payload, mark(66), team, Seq::empty()) ==> {
            let command = result->Ok_0;
            let used = attempts_of(policy.velocity_budget.used@, team);
            &&& command.delivery == Delivery::Budget
            &&& command.target@.len() == 0
            &&& command.payload@.len() == 0
            &&& command.status_leaf@ == "velocity"@
            &&& command.encoding is None
            &&& command.velocity_device is Some && command.velocity_device->0@ == team
            &&& command.velocity_credential_id is Some && command.velocity_credential_id->0@
                == team
            &&& command.velocity_limit == Some(policy.velocity_budget.limit)
            &&& command.velocity_used is Some && command.velocity_used->0 == used
            &&& command.velocity_remaining is Some && command.velocity_remaining->0
                == policy.velocity_budget.limit - used
            &&& command.velocity_budget_version is Some && command.velocity_budget_version->0@
                == "velocity-budget.v1"@
        },
{
    lemma_asks(policy.config, key, "velocity_budget"@);
    lemma_intents_differ();
    let magic = crate::policy::VELOCITY_BUDGET_MAGIC@;
    assert(magic =~= mark(66));
    lemma_envelopes(payload, magic, Some(0), team, Seq::empty());
    if result is Ok {
        let (other, body) = envelope_outcome(payload, magic, Some(0))->Ok_0;
        assert(body =~= Seq::empty());
        lemma_envelopes(payload, magic, Some(0), other, Seq::empty());
    }
    assert forall|other: Seq<char>| #[trigger]
        seals(payload, mark(66), other, Seq::empty()) implies result is Ok by {
        lemma_envelopes(payload, magic, Some(0), other, Seq::empty());
    }
}

/// Requests for anything but a velocity use no attempt.
pub proof fn lemma_other_requests_are_free(
    policy: CommandPolicy,
    key: Seq<char>,
    payload: Seq<u8>,
)
    requires
        !asks(policy.config, key, "velocity"@),
    ensures
        ledger_after(policy, key, payload) == policy.velocity_budget.used@,
{
    lemma_asks(policy.config, key, "velocity"@);
}

/// The team that a payload names is found in any of the three envelopes, and in nothing else.
pub proof fn lemma_named_teams(payload: Seq<u8>, team: Seq<char>)
    ensures
        team_outcome(payload) == Ok::<Seq<char>, Refusal>(team) <==> {
            ||| exists|body: Seq<u8>| #[trigger]
                seals(payload, mark(67), team, body)
            ||| seals(payload, mark(66), team, Seq::empty())
            ||| exists|body: Seq<u8>| #[trigger]
                seals(payload, mark(82), team, body)
        },
{
    let first = crate::policy::VELOCITY_MAGIC@;
    let second = crate::policy::VELOCITY_BUDGET_MAGIC@;
    let third = crate::policy::RAW_VELOCITY_MAGIC@;
    assert(first =~= mark(67));
    assert(second =~= mark(66));
    assert(third =~= mark(82));
    assert(first[2] == 67 && second[2] == 66 && third[2] == 82);
    assert forall|body: Seq<u8>| #[trigger] seals(payload, first, team, body) implies team_outcome(
        payload,
    ) == Ok::<Seq<char>, Refusal>(team) by {
        lemma_envelopes(payload, first, None, team, body);
    }
    assert forall|body: Seq<u8>| #[trigger] seals(payload, third, team, body) implies team_outcome(
        payload,
    ) == Ok::<Seq<char>, Refusal>(team) by {
        lemma_envelopes(payload, third, None, team, body);
        assert(payload.take(4)[2] == 82);
    }
    lemma_envelopes(payload, second, Some(0), team, Seq::empty());
    if seals(payload, second, team, Seq::empty()) {
        assert(payload.take(4)[2] == 66);
    }
    if team_outcome(payload) == Ok::<Seq<char>, Refusal>(team) {
        if payload.take(4) == first {
            let body = envelope_outcome(payload, first, None)->Ok_0.1;
            lemma_envelopes(payload, first, None, team, body);
        } else if payload.take(4) == second {
            let body = envelope_outcome(payload, second, Some(0))->Ok_0.1;
            assert(body =~= Seq::empty());
        } else {
            let body = envelope_outcome(payload, third, None)->Ok_0.1;
            lemma_envelopes(payload, third, None, team, body);
        }
    }
}

// ---------------------------------------------------------------------------------------------
// What is said of refusals
// ---------------------------------------------------------------------------------------------

/// The result is a refusal for a reason of policy, with these words.
pub open spec fn is_rejected(
    result: Result<AuthorizedCommand, PolicyError>,
    reason: Seq<char>,
) -> bool {
    result is Err && result->Err_0 is Rejected && result->Err_0->Rejected_0@ == reason
}

/// The result is a refusal of the payload, with these words.
pub open spec fn is_invalid(
    result: Result<AuthorizedCommand, PolicyError>,
    reason: Seq<char>,
) -> bool {
    result is Err && result->Err_0 is InvalidPayload && result->Err_0->InvalidPayload_0@ == reason
}

/// The sentences that describe refusals.
pub proof fn lemma_refusal_sentences(error: PolicyError)
    ensures
        error is WrongNamespace ==> error.text() == "intent key is outside the command namespace"@,
        error is UnknownIntent ==> error.text() == "unknown command intent "@ + quoted_text(
            error->UnknownIntent_0@,
        ),
        error is InvalidPayload ==> error.text() == "invalid command payload: "@
            + error->InvalidPayload_0@,
        error is Rejected ==> error.text() == "command rejected by policy: "@
            + error->Rejected_0@,
{
}

proof fn lemma_first_bad_channel(payload: Seq<u8>, from: int, count: int)
    requires
        0 <= from,
        first_bad_channel(payload, from, count) is Some,
    ensures
        ({
            let channel = first_bad_channel(payload, from, count)->0;
            &&& from <= channel < count
            &&& !(900 <= payload[10 + 2 * channel] + 256 * payload[11 + 2 * channel] <= 2100)
            &&& forall|i: int|
                from <= i < channel ==> 900 <= #[trigger] payload[10 + 2 * i] + 256 * payload[11
                    + 2 * i] <= 2100
        }),
    decreases count - from,
{
    if crate::policy::channel_valid(payload, from) {
        lemma_first_bad_channel(payload, from + 1, count);
        let channel = first_bad_channel(payload, from, count)->0;
        let value = payload[10 + 2 * from] + 256 * payload[11 + 2 * from];
        assert forall|i: int| from <= i < channel implies 900 <= #[trigger] payload[10 + 2 * i]
            + 256 * payload[11 + 2 * i] <= 2100 by {
            if i == from {
                assert(900 <= value <= 2100);
            }
        }
    }
}

/// What is said of a refused radio message: its size, or else the first of its channel count, its
/// link quality and its channels that is out of range.
pub proof fn lemma_refused_radio(
    policy: CommandPolicy,
    key: Seq<char>,
    payload: Seq<u8>,
    result: Result<AuthorizedCommand, PolicyError>,
)
    requires
        result_tells(result, checked_outcome(policy, key, payload)),
        asks(policy.config, key, "radio"@),
        !good_radio(payload),
    ensures
        payload.len() != 48 ==> is_invalid(
            result,
            "payload is "@ + decimal_text(payload.len()) + " bytes, expected "@ + decimal_text(48),
        ),
        payload.len() == 48 && !(5 <= payload[8] <= 18) ==> is_rejected(
            result,
            "radio channel_count must be within [5, 18]"@,
        ),
        payload.len() == 48 && 5 <= payload[8] <= 18 && !(1 <= payload[9] <= 100) ==> is_rejected(
            result,
            "radio link quality must be within [1, 100]"@,
        ),
        payload.len() == 48 && 5 <= payload[8] <= 18 && 1 <= payload[9] <= 100 ==> exists|
            channel: int,
        |
            {
                &&& 0 <= channel < payload[8]
                &&& !(900 <= #[trigger] payload[10 + 2 * channel] + 256 * payload[11 + 2
                    * channel] <= 2100)
                &&& is_rejected(
                    result,
                    "radio channel "@ + decimal_text(channel as nat)
                        + " is outside [900, 2100] us"@,
                )
                &&& forall|i: int|
                    0 <= i < channel ==> 900 <= #[trigger] payload[10 + 2 * i] + 256 * payload[11
                        + 2 * i] <= 2100
            },
{
    lemma_asks(policy.config, key, "radio"@);
    lemma_intents_differ();
    if payload.len() == 48 && 5 <= payload[8] <= 18 && 1 <= payload[9] <= 100 {
        let count = payload[8] as int;
        lemma_channels(payload, 0, count);
        lemma_first_bad_channel(payload, 0, count);
        let channel = first_bad_channel(payload, 0, count)->0;
        assert(!(900 <= payload[10 + 2 * channel] + 256 * payload[11 + 2 * channel] <= 2100));
    }
}

/// What is said of refused raw bytes: the first that is wrong of their target, its being one that
/// steers, and their size.
pub proof fn lemma_refused_raw_bytes(
    policy: CommandPolicy,
    key: Seq<char>,
    payload: Seq<u8>,
    checked: Result<AuthorizedCommand, PolicyError>,
    trusted: Result<AuthorizedCommand, PolicyError>,
    leaf: Seq<char>,
)
    requires
        result_tells(checked, checked_outcome(policy, key, payload)),
        result_tells(trusted, trusted_outcome(policy.config, key, payload)),
        asks(policy.config, key, "raw/"@ + leaf),
    ensures
        !one_segment(leaf) ==> is_rejected(checked, "raw target must be one safe topic leaf"@)
            && is_rejected(trusted, "raw target must be one safe topic leaf"@),
        one_segment(leaf) && steers(leaf) ==> is_rejected(
            checked,
            "raw target is reserved for trusted controls"@,
        ),
        one_segment(leaf) && !(1 <= payload.len() <= policy.config.raw_max_bytes) ==> is_rejected(
            trusted,
            "raw payload must contain 1 to "@ + decimal_text(policy.config.raw_max_bytes as nat)
                + " bytes"@,
        ),
        one_segment(leaf) && !steers(leaf) && !(1 <= payload.len() <= policy.config.raw_max_bytes)
            ==> is_rejected(
            checked,
            "raw payload must contain 1 to "@ + decimal_text(policy.config.raw_max_bytes as nat)
                + " bytes"@,
        ),
{
    lemma_asks(policy.config, key, "raw/"@ + leaf);
    lemma_intents_differ();
    lemma_one_segment(leaf);
    assert(checked_outcome(policy, key, payload) == raw_outcome(
        policy.config,
        leaf,
        payload,
        true,
    ));
    assert(trusted_outcome(policy.config, key, payload) == raw_outcome(
        policy.config,
        leaf,
        payload,
        false,
    ));
}

/// What is said of a refused firmware request: its intent is unknown unless its key is one of an
/// upload, and then its payload is empty or too large.
pub proof fn lemma_refused_uploads(
    policy: CommandPolicy,
    key: Seq<char>,
    payload: Seq<u8>,
    checked: Result<AuthorizedCommand, PolicyError>,
    trusted: Result<AuthorizedCommand, PolicyError>,
    rest: Seq<char>,
)
    requires
        result_tells(checked, checked_outcome(policy, key, payload)),
        result_tells(trusted, trusted_outcome(policy.config, key, payload)),
        asks(policy.config, key, "firmware/"@ + rest),
        !is_upload(rest, payload),
    ensures
        ({
            let parts = pieces(rest, '/');
            let bound = if !is_update_id(parts[0]) {
                None
            } else if parts.len() == 2 && parts[1] == "start"@ {
                Some(4096nat)
            } else if parts.len() == 2 && parts[1] == "commit"@ {
                Some(2048nat)
            } else if parts.len() == 3 && parts[1] == "chunk"@ && parsed_unsigned(
                parts[2],
                0xffff_ffff,
            ) is Some {
                Some(69632nat)
            } else {
                None
            };
            &&& bound is None ==> checked is Err && checked->Err_0 is UnknownIntent
                && checked->Err_0->UnknownIntent_0@ == "firmware/"@ + rest && trusted is Err
                && trusted->Err_0 is UnknownIntent && trusted->Err_0->UnknownIntent_0@
                == "firmware/"@ + rest
            &&& bound is Some ==> is_rejected(
                checked,
                "firmware payload must contain 1 to "@ + decimal_text(bound->0) + " bytes"@,
            ) && is_rejected(
                trusted,
                "firmware payload must contain 1 to "@ + decimal_text(bound->0) + " bytes"@,
            )
        }),
{
    lemma_asks(policy.config, key, "firmware/"@ + rest);
    lemma_intents_differ();
    lemma_uploads(rest, payload);
    crate::text::lemma_pieces_nonempty(rest, '/');
    assert(checked_outcome(policy, key, payload) == firmware_outcome(rest, payload));
    assert(trusted_outcome(policy.config, key, payload) == firmware_outcome(rest, payload));
}

/// What is said of an envelope that cannot be opened: the first that is wrong of its magic, its
/// name's length, the name itself, and the size of its body.
pub proof fn lemma_refused_envelopes(payload: Seq<u8>, magic: Seq<u8>, expected: Option<usize>)
    requires
        magic.len() == 4,
        envelope_outcome(payload, magic, expected) is Err,
    ensures
        ({
            let refusal = envelope_outcome(payload, magic, expected)->Err_0;
            let length = payload[4] as int;
            let name = payload.subrange(5, 5 + length);
            if payload.len() < 4 || payload.take(4) != magic {
                refusal == Refusal::InvalidPayload(
                    "velocity credential envelope has invalid magic"@,
                )
            } else if payload.len() == 4 {
                refusal == Refusal::InvalidPayload(
                    "velocity credential envelope is missing a team name"@,
                )
            } else if !(1 <= length <= 64) {
                refusal == Refusal::InvalidPayload("velocity team name length is out of range"@)
            } else if payload.len() < 5 + length {
                refusal == Refusal::InvalidPayload("velocity team name is truncated"@)
            } else if !valid_utf8(name) {
                refusal == Refusal::InvalidPayload("velocity team name is not valid UTF-8"@)
            } else if !good_team(decode_utf8(name)) {
                refusal is Rejected
            } else {
                expected is Some && payload.len() != 5 + length + expected->0 && refusal
                    == Refusal::InvalidPayload("velocity payload has an invalid size"@)
            }
        }),
{
    if payload.len() >= 5 && payload.len() >= 5 + payload[4] {
        lemma_team_names(decode_utf8(payload.subrange(5, 5 + payload[4] as int)));
    }
}

/// What is said of a refused trajectory: that it has no segments, not one to six of them, or the
/// first complaint about a segment.
pub proof fn lemma_refused_trajectories(
    policy: CommandPolicy,
    key: Seq<char>,
    payload: Seq<u8>,
    result: Result<AuthorizedCommand, PolicyError>,
)
    requires
        result_tells(result, checked_outcome(policy, key, payload)),
        asks(policy.config, key, "trajectory"@),
        trajectory_request(payload) is Ok,
    ensures
        ({
            let plan = trajectory_request(payload)->Ok_0;
            &&& plan.segments is None ==> is_invalid(
                result,
                "TrajectorySetRequest has no segments"@,
            )
            &&& plan.segments is Some && !(1 <= plan.segments->0.len() <= 6 && plan.total
                == plan.segments->0.len()) ==> is_rejected(
                result,
                "trajectory must contain one to six complete segments"@,
            )
            &&& plan.segments is Some && 1 <= plan.segments->0.len() <= 6 && plan.total
                == plan.segments->0.len() && ((plan.segments->0)[0].sequence != 0 || (
            plan.segments->0)[0].frame != 0) ==> is_rejected(
                result,
                "trajectory segments must be ordered Local ENU segments"@,
            )
        }),
{
    lemma_asks(policy.config, key, "trajectory"@);
    lemma_intents_differ();
    let plan = trajectory_request(payload)->Ok_0;
    if plan.segments is Some {
        assert(segments_complaint(plan.segments->0, 0) is Some || (plan.segments->0).len() == 0
            || ((plan.segments->0)[0].sequence == 0 && (plan.segments->0)[0].frame == 0));
    }
}

} // verus!
