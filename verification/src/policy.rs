//! Which commands of a browser may reach the vehicle, and in what form.

use crate::binary64::Binary64;
use crate::catalog::{
    command_request_encoding, encoding_by_key, key_in, request_encoding, topic_encoding, topic_key,
    CMD_KEY_PREFIX,
};
use crate::limits::{
    bounds_of, default_limits_map, default_parameter_limits, limits_outcome,
    parse_parameter_limits, Bounds, Limits, ParameterLimitsFile, FOUR, ONE, VELOCITY_SETPOINT,
};
use crate::manual::{
    axes_in_use, axis, flag_set, is_set, read_active_axes, read_axes, read_switches, ACTIVE_FLAG,
    MANUAL_AXES, MANUAL_CONTROL_PAYLOAD_SIZE, VALID_FLAG,
};
use crate::requests::{
    param_get_request, param_set_request, read_param_get, read_param_set, read_radio, read_text,
    read_trajectory, trajectory_request, Parameter, ParameterFields, Segment, Trajectory,
    TrajectoryFields, FLOAT_KIND, RADIO_BYTES,
};
use crate::status::{is_update_id, valid_update_id};
use crate::tables::text_or_empty;
use crate::text::{
    alphanumeric, begins_with, byte_length, characters, decimal, decimal_text,
    drop_trailing, is_alphanumeric, joined, lemma_lower_idempotent,
    lemma_pieces_nonempty, lower, parse_unsigned,
    parsed_unsigned, pieces, quoted, quoted_text, split, strip_prefix, text_bytes, trim, trimmed,
    views, without_trailing,
};
use crate::text_map::TextMap;
use crate::velocity_budget::{
    credential_id, is_ledger_name, is_team_name, lemma_team_names_fit_the_ledger, safe_device_id,
    used_by, Budget, BudgetState, VelocityBudget, BUDGET_EXHAUSTED, BUDGET_VERSION,
    TEAM_NAME_MAX_BYTES,
};
use vstd::prelude::*;
use vstd::slice::{slice_subrange, slice_to_vec};
use vstd::utf8::{decode_utf8, valid_utf8};

verus! {

/// The frame of local east-north-up coordinates.
pub const LOCAL_ENU_FRAME: u8 = 0;

/// The axes that a manual control message can have in use.
pub const MANUAL_ACTIVE_AXES_MASK: u16 = 0x03ff;

/// The largest announcement of a firmware upload.
pub const FIRMWARE_PREPARE_MAX_BYTES: usize = 4 * 1024;

/// The largest chunk of a firmware upload.
pub const FIRMWARE_CHUNK_MAX_BYTES: usize = 68 * 1024;

/// The largest commit of a firmware upload.
pub const FIRMWARE_COMMIT_MAX_BYTES: usize = 2 * 1024;

/// What a velocity request starts with.
pub const VELOCITY_MAGIC: [u8; 4] = [69, 86, 67, 49];

/// What a budget query starts with.
pub const VELOCITY_BUDGET_MAGIC: [u8; 4] = [69, 86, 66, 49];

/// What a raw velocity request starts with.
pub const RAW_VELOCITY_MAGIC: [u8; 4] = [69, 86, 82, 49];

/// The longest parameter name.
pub const PARAMETER_NAME_BYTES: usize = 128;

/// The longest raw target.
pub const RAW_LEAF_BYTES: usize = 64;

/// The vehicle query keys of the staged firmware update.
pub const CANONICAL_FIRMWARE_QUERY_KEYS: [&'static str; 6] = [
    "cmd/firmware_info",
    "cmd/firmware_status",
    "cmd/firmware_prepare",
    "cmd/firmware_chunk",
    "cmd/firmware_commit",
    "cmd/firmware_abort",
];

/// How an authorized payload is delivered.
#[derive(Clone, Copy, Debug, PartialEq, Eq, Structural)]
pub enum Delivery {
    Publish,
    Query,
    Firmware,
    Budget,
}

/// What is left to do once a command is authorized.
#[derive(Clone, Debug, PartialEq, Eq)]
pub struct AuthorizedCommand {
    pub delivery: Delivery,
    pub target: String,
    pub payload: Vec<u8>,
    pub status_leaf: String,
    pub velocity_device: Option<String>,
    pub velocity_remaining: Option<u32>,
    pub velocity_credential_id: Option<String>,
    pub velocity_limit: Option<u32>,
    pub velocity_used: Option<u32>,
    pub velocity_budget_version: Option<String>,
    /// The encoding stamped on the value; none for raw targets outside the catalog.
    pub encoding: Option<String>,
}

/// The settings of the policy.
#[derive(Clone, Debug)]
pub struct PolicyConfig {
    pub intent_prefix: String,
    pub vehicle_topic_prefix: String,
    pub parameter_key: String,
    pub firmware_key_prefix: String,
    pub velocity_min_mps: Binary64,
    pub velocity_max_mps: Binary64,
    /// The least velocity, printed with three decimals.
    pub velocity_min_text: String,
    /// The greatest velocity, printed with three decimals.
    pub velocity_max_text: String,
    pub velocity_budget: u32,
    pub velocity_budget_json: String,
    pub velocity_budget_csv: String,
    pub raw_max_bytes: usize,
    pub parameter_limits_path: Option<String>,
}

/// Why an intent is refused. Refused bytes never reach the vehicle.
#[derive(Debug, PartialEq, Eq)]
pub enum PolicyError {
    WrongNamespace,
    UnknownIntent(String),
    InvalidPayload(String),
    Rejected(String),
}

/// The policy and its ledger. Only accepted velocity commands use an attempt up.
#[derive(Debug)]
pub struct CommandPolicy {
    pub config: PolicyConfig,
    pub velocity_budget: VelocityBudget,
    pub parameter_limits: TextMap<Limits>,
}

/// What an authorized command holds.
pub ghost struct Command {
    pub delivery: Delivery,
    pub target: Seq<char>,
    pub payload: Seq<u8>,
    pub status_leaf: Seq<char>,
    pub budget: Option<Budget>,
    pub encoding: Option<Seq<char>>,
}

/// Why an intent is refused.
pub ghost enum Refusal {
    WrongNamespace,
    UnknownIntent(Seq<char>),
    InvalidPayload(Seq<char>),
    Rejected(Seq<char>),
}

/// The optional text is the given one.
pub open spec fn same_text(text: Option<String>, expected: Option<Seq<char>>) -> bool {
    &&& text is Some == expected is Some
    &&& text is Some ==> text->0@ == expected->0
}

impl AuthorizedCommand {
    /// The command holds what `command` says.
    pub open spec fn tells(self, command: Command) -> bool {
        &&& self.delivery == command.delivery
        &&& self.target@ == command.target
        &&& self.payload@ == command.payload
        &&& self.status_leaf@ == command.status_leaf
        &&& same_text(self.encoding, command.encoding)
        &&& match command.budget {
            None => {
                &&& self.velocity_device is None
                &&& self.velocity_remaining is None
                &&& self.velocity_credential_id is None
                &&& self.velocity_limit is None
                &&& self.velocity_used is None
                &&& self.velocity_budget_version is None
            },
            Some(budget) => {
                &&& same_text(self.velocity_device, Some(budget.team))
                &&& self.velocity_remaining is Some
                &&& self.velocity_remaining->0 == budget.limit - budget.used
                &&& same_text(self.velocity_credential_id, Some(budget.team))
                &&& self.velocity_limit == Some(budget.limit)
                &&& self.velocity_used == Some(budget.used)
                &&& same_text(self.velocity_budget_version, Some(BUDGET_VERSION@))
            },
        }
    }
}

impl PolicyError {
    /// The error is the given refusal.
    pub open spec fn tells(self, refusal: Refusal) -> bool {
        match refusal {
            Refusal::WrongNamespace => self is WrongNamespace,
            Refusal::UnknownIntent(intent) => self is UnknownIntent && self->UnknownIntent_0@
                == intent,
            Refusal::InvalidPayload(reason) => self is InvalidPayload && self->InvalidPayload_0@
                == reason,
            Refusal::Rejected(reason) => self is Rejected && self->Rejected_0@ == reason,
        }
    }

    /// The sentence that describes the error.
    pub open spec fn text(self) -> Seq<char> {
        match self {
            PolicyError::WrongNamespace => "intent key is outside the command namespace"@,
            PolicyError::UnknownIntent(intent) => "unknown command intent "@ + quoted_text(intent@),
            PolicyError::InvalidPayload(reason) => "invalid command payload: "@ + reason@,
            PolicyError::Rejected(reason) => "command rejected by policy: "@ + reason@,
        }
    }

    /// The sentence that describes the error.
    pub fn message(&self) -> (text: String)
        ensures
            text@ == self.text(),
    {
        match self {
            PolicyError::WrongNamespace =>
                "intent key is outside the command namespace".to_owned(),
            PolicyError::UnknownIntent(intent) => joined(
                "unknown command intent ",
                quoted(intent.as_str()).as_str(),
            ),
            PolicyError::InvalidPayload(reason) => joined(
                "invalid command payload: ",
                reason.as_str(),
            ),
            PolicyError::Rejected(reason) => joined(
                "command rejected by policy: ",
                reason.as_str(),
            ),
        }
    }
}

impl Default for PolicyConfig {
    fn default() -> (config: Self)
        ensures
            config.intent_prefix@ == "gcs/v1/cmd"@,
            config.vehicle_topic_prefix@ == ""@,
            config.parameter_key@ == "cmd/param_set"@,
            config.firmware_key_prefix@ == "cmd/firmware"@,
            config.velocity_min_mps == (Binary64 { bits: ONE }),
            config.velocity_max_mps == (Binary64 { bits: FOUR }),
            config.velocity_min_text@ == "1.000"@,
            config.velocity_max_text@ == "4.000"@,
            config.velocity_budget == 5,
            config.velocity_budget_json@ == "data/velocity-budget-db.json"@,
            config.velocity_budget_csv@ == "data/velocity-budget.csv"@,
            config.raw_max_bytes == 4096,
            config.parameter_limits_path is None,
    {
        PolicyConfig {
            intent_prefix: "gcs/v1/cmd".to_owned(),
            vehicle_topic_prefix: "".to_owned(),
            parameter_key: "cmd/param_set".to_owned(),
            firmware_key_prefix: "cmd/firmware".to_owned(),
            velocity_min_mps: Binary64 { bits: ONE },
            velocity_max_mps: Binary64 { bits: FOUR },
            velocity_min_text: "1.000".to_owned(),
            velocity_max_text: "4.000".to_owned(),
            velocity_budget: 5,
            velocity_budget_json: "data/velocity-budget-db.json".to_owned(),
            velocity_budget_csv: "data/velocity-budget.csv".to_owned(),
            raw_max_bytes: 4 * 1024,
            parameter_limits_path: None,
        }
    }
}

/// Refuses a command for a reason of policy.
pub fn rejected<T>(reason: &str) -> (result: Result<T, PolicyError>)
    ensures
        result is Err,
        result->Err_0.tells(Refusal::Rejected(reason@)),
{
    Err(PolicyError::Rejected(reason.to_owned()))
}

/// Refuses a payload.
pub fn invalid(reason: &str) -> (error: PolicyError)
    ensures
        error.tells(Refusal::InvalidPayload(reason@)),
{
    PolicyError::InvalidPayload(reason.to_owned())
}

/// Whether the value may stand as an update's identifier.
pub fn safe_id(value: &str) -> (result: bool)
    ensures
        result == is_update_id(value@),
{
    valid_update_id(value)
}

/// Writes how a team stands into a command.
pub fn apply_budget_state(command: &mut AuthorizedCommand, state: &BudgetState)
    ensures
        final(command).velocity_device == Some(state.device_id),
        final(command).velocity_credential_id == Some(state.credential_id),
        final(command).velocity_limit == Some(state.limit),
        final(command).velocity_used == Some(state.used),
        final(command).velocity_remaining == Some(state.remaining),
        final(command).velocity_budget_version == Some(state.budget_version),
        final(command).delivery == old(command).delivery,
        final(command).target == old(command).target,
        final(command).payload == old(command).payload,
        final(command).status_leaf == old(command).status_leaf,
        final(command).encoding == old(command).encoding,
{
    command.velocity_device = Some(state.device_id.clone());
    command.velocity_credential_id = Some(state.credential_id.clone());
    command.velocity_limit = Some(state.limit);
    command.velocity_used = Some(state.used);
    command.velocity_remaining = Some(state.remaining);
    command.velocity_budget_version = Some(state.budget_version.clone());
}

// ---------------------------------------------------------------------------------------------
// Envelopes
// ---------------------------------------------------------------------------------------------

/// The team and the body of an envelope that starts with `magic`. The body may have to have a
/// given size.
pub open spec fn envelope_outcome(
    payload: Seq<u8>,
    magic: Seq<u8>,
    expected_body: Option<usize>,
) -> Result<(Seq<char>, Seq<u8>), Refusal> {
    if payload.len() < 4 || payload.take(4) != magic {
        Err(Refusal::InvalidPayload("velocity credential envelope has invalid magic"@))
    } else if payload.len() < 5 {
        Err(Refusal::InvalidPayload("velocity credential envelope is missing a team name"@))
    } else {
        let length = payload[4] as int;
        if length == 0 || length > TEAM_NAME_MAX_BYTES {
            Err(Refusal::InvalidPayload("velocity team name length is out of range"@))
        } else if payload.len() < 5 + length {
            Err(Refusal::InvalidPayload("velocity team name is truncated"@))
        } else {
            let name = payload.subrange(5, 5 + length);
            let body = payload.skip(5 + length);
            if !valid_utf8(name) {
                Err(Refusal::InvalidPayload("velocity team name is not valid UTF-8"@))
            } else if !is_team_name(decode_utf8(name)) {
                Err(
                    Refusal::Rejected(
                        "team name must be 1-64 characters of letters, numbers, dot, underscore, colon, or hyphen"@,
                    ),
                )
            } else if expected_body is Some && body.len() != expected_body->0 {
                Err(Refusal::InvalidPayload("velocity payload has an invalid size"@))
            } else {
                Ok((lower(decode_utf8(name)), body))
            }
        }
    }
}

/// Takes an envelope apart.
pub fn credential_envelope<'a>(
    payload: &'a [u8],
    magic: &[u8; 4],
    expected_body: Option<usize>,
) -> (result: Result<(String, &'a [u8]), PolicyError>)
    ensures
        match envelope_outcome(payload@, magic@, expected_body) {
            Ok((team, body)) => result is Ok && result->Ok_0.0@ == team && result->Ok_0.1@ == body,
            Err(refusal) => result is Err && result->Err_0.tells(refusal),
        },
{
    let total: usize = payload.len();
    if total < 4 || !starts_with_magic(payload, magic) {
        return Err(invalid("velocity credential envelope has invalid magic"));
    }
    if total < 5 {
        return Err(invalid("velocity credential envelope is missing a team name"));
    }
    let length: usize = payload[4] as usize;
    if length == 0 || length > TEAM_NAME_MAX_BYTES {
        return Err(invalid("velocity team name length is out of range"));
    }
    let body_start: usize = 5 + length;
    if total < body_start {
        return Err(invalid("velocity team name is truncated"));
    }
    let name = match read_text(slice_subrange(payload, 5, body_start)) {
        Some(name) => name,
        None => return Err(invalid("velocity team name is not valid UTF-8")),
    };
    if !safe_device_id(name.as_str()) {
        return rejected(
            "team name must be 1-64 characters of letters, numbers, dot, underscore, colon, or hyphen",
        );
    }
    let body = slice_subrange(payload, body_start, total);
    assert(body@ =~= payload@.skip(body_start as int));
    if let Some(expected) = expected_body {
        if body.len() != expected {
            return Err(invalid("velocity payload has an invalid size"));
        }
    }
    Ok((credential_id(name.as_str()), body))
}

/// The team that any envelope names.
pub open spec fn team_outcome(payload: Seq<u8>) -> Result<Seq<char>, Refusal> {
    let outcome = if payload.len() < 4 {
        Err(Refusal::InvalidPayload("velocity credential envelope is too short"@))
    } else if payload.take(4) == VELOCITY_MAGIC@ {
        envelope_outcome(payload, VELOCITY_MAGIC@, None)
    } else if payload.take(4) == VELOCITY_BUDGET_MAGIC@ {
        envelope_outcome(payload, VELOCITY_BUDGET_MAGIC@, Some(0))
    } else if payload.take(4) == RAW_VELOCITY_MAGIC@ {
        envelope_outcome(payload, RAW_VELOCITY_MAGIC@, None)
    } else {
        Err(Refusal::InvalidPayload("velocity credential envelope has invalid magic"@))
    };
    match outcome {
        Ok((team, _)) => Ok(team),
        Err(refusal) => Err(refusal),
    }
}

fn starts_with_magic(payload: &[u8], magic: &[u8; 4]) -> (result: bool)
    requires
        payload@.len() >= 4,
    ensures
        result == (payload@.take(4) == magic@),
{
    let result = payload[0] == magic[0] && payload[1] == magic[1] && payload[2] == magic[2]
        && payload[3] == magic[3];
    proof {
        let head = payload@.take(4);
        assert(head[0] == payload@[0] && head[1] == payload@[1] && head[2] == payload@[2]
            && head[3] == payload@[3]);
        if result {
            assert(head =~= magic@);
        }
    }
    result
}

/// The team that any envelope names.
pub fn team_name_from_any_velocity_envelope(payload: &[u8]) -> (result: Result<
    String,
    PolicyError,
>)
    ensures
        match team_outcome(payload@) {
            Ok(team) => result is Ok && result->Ok_0@ == team,
            Err(refusal) => result is Err && result->Err_0.tells(refusal),
        },
{
    if payload.len() < 4 {
        return Err(invalid("velocity credential envelope is too short"));
    }
    let opened = if starts_with_magic(payload, &VELOCITY_MAGIC) {
        credential_envelope(payload, &VELOCITY_MAGIC, None)
    } else if starts_with_magic(payload, &VELOCITY_BUDGET_MAGIC) {
        credential_envelope(payload, &VELOCITY_BUDGET_MAGIC, Some(0))
    } else if starts_with_magic(payload, &RAW_VELOCITY_MAGIC) {
        credential_envelope(payload, &RAW_VELOCITY_MAGIC, None)
    } else {
        return Err(invalid("velocity credential envelope has invalid magic"));
    };
    match opened {
        Ok((team, _)) => Ok(team),
        Err(error) => Err(error),
    }
}

// ---------------------------------------------------------------------------------------------
// Targets
// ---------------------------------------------------------------------------------------------

/// The key of a vehicle command.
pub open spec fn command_key(namespace: Seq<char>, name: Seq<char>) -> Seq<char> {
    key_in(namespace, CMD_KEY_PREFIX@ + "/"@ + name)
}

/// The publication of a payload on a catalog key.
pub open spec fn publication(
    config: PolicyConfig,
    key: Seq<char>,
    payload: Seq<u8>,
    status_leaf: Seq<char>,
) -> Command {
    Command {
        delivery: Delivery::Publish,
        target: key_in(config.vehicle_topic_prefix@, key),
        payload,
        status_leaf,
        budget: None,
        encoding: topic_encoding(key),
    }
}

/// The query of a command with a payload.
pub open spec fn query(
    target: Seq<char>,
    name: Seq<char>,
    payload: Seq<u8>,
    status_leaf: Seq<char>,
) -> Command {
    Command {
        delivery: Delivery::Query,
        target,
        payload,
        status_leaf,
        budget: None,
        encoding: request_encoding(name),
    }
}

fn make_command(
    delivery: Delivery,
    target: String,
    payload: &[u8],
    status_leaf: &str,
    encoding: Option<String>,
) -> (command: AuthorizedCommand)
    ensures
        forall|text: Option<Seq<char>>| #[trigger]
            same_text(encoding, text) ==> command.tells(
                Command {
                    delivery,
                    target: target@,
                    payload: payload@,
                    status_leaf: status_leaf@,
                    budget: None,
                    encoding: text,
                },
            ),
        command.delivery == delivery,
{
    AuthorizedCommand {
        delivery,
        target,
        payload: slice_to_vec(payload),
        status_leaf: status_leaf.to_owned(),
        velocity_device: None,
        velocity_remaining: None,
        velocity_credential_id: None,
        velocity_limit: None,
        velocity_used: None,
        velocity_budget_version: None,
        encoding,
    }
}

fn make_query(target: String, name: &str, payload: &[u8], status_leaf: &str) -> (command:
    AuthorizedCommand)
    ensures
        command.tells(query(target@, name@, payload@, status_leaf@)),
{
    let encoding = command_request_encoding(name);
    assert(same_text(encoding, request_encoding(name@)));
    make_command(Delivery::Query, target, payload, status_leaf, encoding)
}

// ---------------------------------------------------------------------------------------------
// What each intent asks for
// ---------------------------------------------------------------------------------------------

/// Two printed limits in brackets.
pub open spec fn interval_text(minimum: Seq<char>, maximum: Seq<char>) -> Seq<char> {
    "["@ + minimum + ", "@ + maximum + "]"@
}

fn interval(minimum: &str, maximum: &str) -> (text: String)
    ensures
        text@ == interval_text(minimum@, maximum@),
{
    let start = joined(joined("[", minimum).as_str(), ", ");
    joined(joined(start.as_str(), maximum).as_str(), "]")
}

/// Why a parameter value may not be set, or nothing.
pub open spec fn value_refusal(
    kind: u8,
    value: Binary64,
    name: Seq<char>,
    limits: Option<Bounds>,
) -> Option<Refusal> {
    if kind != FLOAT_KIND {
        Some(Refusal::Rejected("public parameters must use ParamKind::Float"@))
    } else {
        match limits {
            None => Some(
                Refusal::Rejected(
                    "public parameter "@ + quoted_text(name) + " is not allowlisted"@,
                ),
            ),
            Some(limits) => if !value.finite() {
                Some(Refusal::Rejected("parameter "@ + name + " must be finite"@))
            } else if value.below(limits.minimum) || limits.maximum.below(value) {
                Some(
                    Refusal::Rejected(
                        "parameter "@ + name + " must be within "@ + interval_text(
                            limits.minimum_text,
                            limits.maximum_text,
                        ),
                    ),
                )
            } else {
                None
            },
        }
    }
}

/// What optional limits hold.
pub open spec fn optional_bounds(limits: Option<&Limits>) -> Option<Bounds> {
    match limits {
        Some(limits) => Some(limits@),
        None => None,
    }
}

/// Whether a parameter value may be set.
pub fn validate_gain(
    kind: u8,
    value: Binary64,
    name: &str,
    limits: Option<&Limits>,
) -> (result: Result<(), PolicyError>)
    ensures
        match value_refusal(kind, value, name@, optional_bounds(limits)) {
            None => result is Ok,
            Some(refusal) => result is Err && result->Err_0.tells(refusal),
        },
{
    if kind != FLOAT_KIND {
        return rejected("public parameters must use ParamKind::Float");
    }
    let limits = match limits {
        Some(limits) => limits,
        None => {
            let start = joined("public parameter ", quoted(name).as_str());
            return rejected(joined(start.as_str(), " is not allowlisted").as_str());
        },
    };
    if !value.is_finite() {
        return rejected(joined(joined("parameter ", name).as_str(), " must be finite").as_str());
    }
    if value.is_below(&limits.minimum) || limits.maximum.is_below(&value) {
        let start = joined(joined("parameter ", name).as_str(), " must be within ");
        let limits = interval(limits.minimum_text.as_str(), limits.maximum_text.as_str());
        return rejected(joined(start.as_str(), limits.as_str()).as_str());
    }
    Ok(())
}

/// The parameter that a payload asks to set.
pub open spec fn parameter_outcome(payload: Seq<u8>) -> Result<Parameter, Refusal> {
    match param_set_request(payload) {
        Err(error) => Err(Refusal::InvalidPayload(error)),
        Ok(None) => Err(Refusal::InvalidPayload("ParamSetRequest has no value"@)),
        Ok(Some(parameter)) => Ok(parameter),
    }
}

fn parameter_of(payload: &[u8]) -> (result: Result<ParameterFields, PolicyError>)
    ensures
        match parameter_outcome(payload@) {
            Ok(parameter) => result is Ok && result->Ok_0@ == parameter,
            Err(refusal) => result is Err && result->Err_0.tells(refusal),
        },
{
    match read_param_set(payload) {
        Ok(Some(parameter)) => Ok(parameter),
        Ok(None) => Err(invalid("ParamSetRequest has no value")),
        Err(message) => Err(PolicyError::InvalidPayload(message)),
    }
}

/// Why a parameter may not be set by a velocity request, or nothing.
pub open spec fn velocity_judgement(config: PolicyConfig, parameter: Parameter) -> Option<Refusal> {
    let name = text_or_empty(parameter.name);
    if parameter.kind != FLOAT_KIND || name != VELOCITY_SETPOINT@ {
        value_refusal(parameter.kind, parameter.value, name, None)
    } else if !parameter.value.finite() {
        Some(Refusal::Rejected("velocity components must be finite"@))
    } else if parameter.value.below(config.velocity_min_mps) || config.velocity_max_mps.below(
        parameter.value,
    ) {
        Some(
            Refusal::Rejected(
                "velocity "@ + parameter.value_text + " m/s is outside "@ + interval_text(
                    config.velocity_min_text@,
                    config.velocity_max_text@,
                ),
            ),
        )
    } else {
        None
    }
}

/// The team and the vehicle's payload of a velocity request that may be sent while attempts are
/// left.
pub open spec fn velocity_request(config: PolicyConfig, payload: Seq<u8>) -> Result<
    (Seq<char>, Seq<u8>),
    Refusal,
> {
    match envelope_outcome(payload, VELOCITY_MAGIC@, None) {
        Err(refusal) => Err(refusal),
        Ok((team, body)) => match parameter_outcome(body) {
            Err(refusal) => Err(refusal),
            Ok(parameter) => match velocity_judgement(config, parameter) {
                Some(refusal) => Err(refusal),
                None => Ok((team, body)),
            },
        },
    }
}

/// What a velocity request comes to.
pub open spec fn velocity_outcome(policy: CommandPolicy, payload: Seq<u8>) -> Result<
    Command,
    Refusal,
> {
    match velocity_request(policy.config, payload) {
        Err(refusal) => Err(refusal),
        Ok((team, body)) => {
            let budget = policy.velocity_budget.budget_of(team);
            if budget.used >= budget.limit {
                Err(Refusal::Rejected(BUDGET_EXHAUSTED@))
            } else {
                Ok(
                    Command {
                        budget: Some(Budget { used: (budget.used + 1) as u32, ..budget }),
                        ..query(policy.config.parameter_key@, "param_set"@, body, "velocity"@)
                    },
                )
            }
        },
    }
}

/// What a budget query comes to.
pub open spec fn budget_outcome(policy: CommandPolicy, payload: Seq<u8>) -> Result<
    Command,
    Refusal,
> {
    match envelope_outcome(payload, VELOCITY_BUDGET_MAGIC@, Some(0)) {
        Err(refusal) => Err(refusal),
        Ok((team, _)) => Ok(
            Command {
                delivery: Delivery::Budget,
                target: Seq::empty(),
                payload: Seq::empty(),
                status_leaf: "velocity"@,
                budget: Some(policy.velocity_budget.budget_of(team)),
                encoding: None,
            },
        ),
    }
}

/// What is said of a payload of the wrong size.
pub open spec fn size_complaint(actual: nat, expected: usize) -> Seq<char> {
    "payload is "@ + decimal_text(actual) + " bytes, expected "@ + decimal_text(expected as nat)
}

/// The value of a radio channel.
pub open spec fn channel_value(payload: Seq<u8>, channel: int) -> int {
    payload[10 + 2 * channel] + 256 * payload[11 + 2 * channel]
}

/// The value is one that a radio channel may have.
pub open spec fn channel_valid(payload: Seq<u8>, channel: int) -> bool {
    900 <= channel_value(payload, channel) <= 2100
}

/// The first of `count` channels whose value is out of range, from `channel` on.
pub open spec fn first_bad_channel(payload: Seq<u8>, channel: int, count: int) -> Option<int>
    decreases count - channel,
{
    if channel >= count {
        None
    } else if !channel_valid(payload, channel) {
        Some(channel)
    } else {
        first_bad_channel(payload, channel + 1, count)
    }
}

/// Why a radio message may not be sent, or nothing.
pub open spec fn radio_refusal(payload: Seq<u8>) -> Option<Refusal> {
    if payload.len() != RADIO_BYTES {
        Some(Refusal::InvalidPayload(size_complaint(payload.len(), RADIO_BYTES)))
    } else if !(5 <= payload[8] <= 18) {
        Some(Refusal::Rejected("radio channel_count must be within [5, 18]"@))
    } else if !(1 <= payload[9] <= 100) {
        Some(Refusal::Rejected("radio link quality must be within [1, 100]"@))
    } else {
        match first_bad_channel(payload, 0, payload[8] as int) {
            Some(channel) => Some(
                Refusal::Rejected(
                    "radio channel "@ + decimal_text(channel as nat)
                        + " is outside [900, 2100] us"@,
                ),
            ),
            None => None,
        }
    }
}

/// The axes of a manual control message are all in range.
pub open spec fn axes_valid(payload: Seq<u8>) -> bool {
    forall|i: int| 0 <= i < MANUAL_AXES ==> -1000 <= #[trigger] axis(payload, i) <= 1000
}

/// What is wrong with a manual control message, or nothing.
pub open spec fn manual_refusal(payload: Seq<u8>) -> Option<Refusal> {
    if payload.len() != MANUAL_CONTROL_PAYLOAD_SIZE {
        Some(Refusal::InvalidPayload(size_complaint(payload.len(), MANUAL_CONTROL_PAYLOAD_SIZE)))
    } else if !axes_valid(payload) {
        Some(Refusal::Rejected("manual axes must be within [-1000, 1000]"@))
    } else if axes_in_use(payload) > MANUAL_ACTIVE_AXES_MASK {
        Some(Refusal::Rejected("manual active_axes contains unknown bits"@))
    } else if !is_set(payload[35], ACTIVE_FLAG) || !is_set(payload[35], VALID_FLAG) {
        Some(Refusal::Rejected("manual command must be active and valid"@))
    } else {
        None
    }
}

/// The name has a character besides white space and is not too long.
pub open spec fn name_fits(name: Seq<char>) -> bool {
    0 < byte_length(trimmed(name)) <= PARAMETER_NAME_BYTES
}

/// The limits of a parameter that checked requests may set without an attempt.
pub open spec fn gain_limits(limits: Map<Seq<char>, Bounds>, name: Seq<char>) -> Option<Bounds> {
    if name != VELOCITY_SETPOINT@ && limits.dom().contains(name) {
        Some(limits[name])
    } else {
        None
    }
}

/// Why a parameter may not be set, or nothing.
pub open spec fn gain_judgement(limits: Map<Seq<char>, Bounds>, parameter: Parameter) -> Option<
    Refusal,
> {
    let name = text_or_empty(parameter.name);
    if !name_fits(name) {
        Some(Refusal::Rejected("parameter name must contain 1 to 128 characters"@))
    } else {
        value_refusal(
            parameter.kind,
            parameter.value,
            trimmed(name),
            gain_limits(limits, trimmed(name)),
        )
    }
}

/// Why a payload may not set a parameter, or nothing.
pub open spec fn gain_refusal(policy: CommandPolicy, payload: Seq<u8>) -> Option<Refusal> {
    match parameter_outcome(payload) {
        Err(refusal) => Some(refusal),
        Ok(parameter) => gain_judgement(bounds_of(policy.parameter_limits@), parameter),
    }
}

/// Why a payload may not read a parameter, or nothing.
pub open spec fn parameters_refusal(payload: Seq<u8>) -> Option<Refusal> {
    match param_get_request(payload) {
        Err(error) => Some(Refusal::InvalidPayload(error)),
        Ok(name) => if name_fits(text_or_empty(name)) {
            None
        } else {
            Some(Refusal::Rejected("parameter name must contain 1 to 128 characters"@))
        },
    }
}

/// The point has finite coordinates.
pub open spec fn point_finite(
    point: (crate::binary64::Binary32, crate::binary64::Binary32, crate::binary64::Binary32),
) -> bool {
    point.0.finite() && point.1.finite() && point.2.finite()
}

/// The segment has its place in the sequence and the right frame.
pub open spec fn segment_ordered(segments: Seq<Segment>, index: int) -> bool {
    segments[index].sequence == index && segments[index].frame == LOCAL_ENU_FRAME
}

/// The first complaint about the segments from `index` on.
pub open spec fn segments_complaint(segments: Seq<Segment>, index: int) -> Option<Seq<char>>
    decreases segments.len() - index,
{
    if index >= segments.len() {
        None
    } else if !segment_ordered(segments, index) {
        Some("trajectory segments must be ordered Local ENU segments"@)
    } else if !point_finite(segments[index].start) || !point_finite(segments[index].end) {
        Some("trajectory coordinates must be finite"@)
    } else {
        segments_complaint(segments, index + 1)
    }
}

/// Why a trajectory may not be set, or nothing.
pub open spec fn trajectory_judgement(trajectory: Trajectory) -> Option<Refusal> {
    match trajectory.segments {
        None => Some(Refusal::InvalidPayload("TrajectorySetRequest has no segments"@)),
        Some(segments) => if !(1 <= segments.len() <= 6) || trajectory.total != segments.len() {
            Some(Refusal::Rejected("trajectory must contain one to six complete segments"@))
        } else {
            match segments_complaint(segments, 0) {
                Some(complaint) => Some(Refusal::Rejected(complaint)),
                None => None,
            }
        },
    }
}

/// Why a payload may not set a trajectory, or nothing.
pub open spec fn trajectory_refusal(payload: Seq<u8>) -> Option<Refusal> {
    match trajectory_request(payload) {
        Err(error) => Some(Refusal::InvalidPayload(error)),
        Ok(trajectory) => trajectory_judgement(trajectory),
    }
}

/// A letter, a digit, an underscore, a hyphen or a dot.
pub open spec fn is_leaf_char(c: char) -> bool {
    is_alphanumeric(c) || c == '_' || c == '-' || c == '.'
}

/// A target that is one safe segment.
pub open spec fn is_safe_leaf(leaf: Seq<char>) -> bool {
    &&& 0 < leaf.len() <= RAW_LEAF_BYTES
    &&& forall|i: int| 0 <= i < leaf.len() ==> is_leaf_char(#[trigger] leaf[i])
}

/// A target that steers the vehicle.
pub open spec fn is_control_leaf(leaf: Seq<char>) -> bool {
    leaf == "manual"@ || leaf == "manual_control_command"@ || leaf == "pos_sp"@ || leaf
        == "local_position_command"@
}

/// What raw bytes for a target come to. Checked requests may not steer the vehicle.
pub open spec fn raw_outcome(
    config: PolicyConfig,
    leaf: Seq<char>,
    payload: Seq<u8>,
    checked: bool,
) -> Result<Command, Refusal> {
    if !is_safe_leaf(leaf) {
        Err(Refusal::Rejected("raw target must be one safe topic leaf"@))
    } else if checked && is_control_leaf(leaf) {
        Err(Refusal::Rejected("raw target is reserved for trusted controls"@))
    } else if payload.len() == 0 || payload.len() > config.raw_max_bytes {
        Err(
            Refusal::Rejected(
                "raw payload must contain 1 to "@ + decimal_text(config.raw_max_bytes as nat)
                    + " bytes"@,
            ),
        )
    } else {
        Ok(publication(config, leaf, payload, "raw/"@ + leaf))
    }
}

/// The largest payload of a firmware intent, if its segments are those of one.
pub open spec fn firmware_bound(segments: Seq<Seq<char>>) -> Option<usize> {
    if segments.len() == 2 && is_update_id(segments[0]) && segments[1] == "start"@ {
        Some(FIRMWARE_PREPARE_MAX_BYTES)
    } else if segments.len() == 2 && is_update_id(segments[0]) && segments[1] == "commit"@ {
        Some(FIRMWARE_COMMIT_MAX_BYTES)
    } else if segments.len() == 3 && is_update_id(segments[0]) && segments[1] == "chunk"@
        && parsed_unsigned(segments[2], u32::MAX as nat) is Some {
        Some(FIRMWARE_CHUNK_MAX_BYTES)
    } else {
        None
    }
}

/// What a firmware intent comes to.
pub open spec fn firmware_outcome(suffix: Seq<char>, payload: Seq<u8>) -> Result<
    Command,
    Refusal,
> {
    match firmware_bound(pieces(suffix, '/')) {
        None => Err(Refusal::UnknownIntent("firmware/"@ + suffix)),
        Some(bound) => if payload.len() == 0 || payload.len() > bound {
            Err(
                Refusal::Rejected(
                    "firmware payload must contain 1 to "@ + decimal_text(bound as nat)
                        + " bytes"@,
                ),
            )
        } else {
            Ok(
                Command {
                    delivery: Delivery::Firmware,
                    target: suffix,
                    payload,
                    status_leaf: "firmware/"@ + pieces(suffix, '/')[0],
                    budget: None,
                    encoding: None,
                },
            )
        },
    }
}

/// A refusal where there is one, and the command otherwise.
pub open spec fn unless_refused(refusal: Option<Refusal>, command: Command) -> Result<
    Command,
    Refusal,
> {
    match refusal {
        Some(refusal) => Err(refusal),
        None => Ok(command),
    }
}

/// What follows the intent prefix in a key.
pub open spec fn intent_suffix(config: PolicyConfig, key: Seq<char>) -> Option<Seq<char>> {
    let prefix = without_trailing(config.intent_prefix@, '/') + "/"@;
    if begins_with(key, prefix) {
        Some(key.skip(prefix.len() as int))
    } else {
        None
    }
}

/// The update that the key of a firmware intent names: what stands before the next slash.
pub open spec fn intent_update(config: PolicyConfig, key: Seq<char>) -> Option<Seq<char>> {
    match intent_suffix(config, key) {
        None => None,
        Some(suffix) => if begins_with(suffix, "firmware/"@) {
            Some(pieces(suffix.skip("firmware/"@.len() as int), '/')[0])
        } else {
            None
        },
    }
}

/// What a checked request comes to.
pub open spec fn checked_outcome(
    policy: CommandPolicy,
    key: Seq<char>,
    payload: Seq<u8>,
) -> Result<Command, Refusal> {
    let config = policy.config;
    let namespace = config.vehicle_topic_prefix@;
    match intent_suffix(config, key) {
        None => Err(Refusal::WrongNamespace),
        Some(suffix) => if suffix == "velocity"@ {
            velocity_outcome(policy, payload)
        } else if suffix == "velocity_budget"@ {
            budget_outcome(policy, payload)
        } else if suffix == "radio"@ {
            unless_refused(
                radio_refusal(payload),
                publication(config, "rc"@, payload, "radio"@),
            )
        } else if suffix == "gain"@ {
            unless_refused(
                gain_refusal(policy, payload),
                query(config.parameter_key@, "param_set"@, payload, "gain"@),
            )
        } else if suffix == "parameters"@ {
            unless_refused(
                parameters_refusal(payload),
                query(
                    command_key(namespace, "param_get"@),
                    "param_get"@,
                    payload,
                    "parameters"@,
                ),
            )
        } else if suffix == "trajectory"@ {
            unless_refused(
                trajectory_refusal(payload),
                query(
                    command_key(namespace, "trajectory_set"@),
                    "trajectory_set"@,
                    payload,
                    "trajectory"@,
                ),
            )
        } else if begins_with(suffix, "raw/"@) {
            raw_outcome(config, suffix.skip("raw/"@.len() as int), payload, true)
        } else if begins_with(suffix, "firmware/"@) {
            firmware_outcome(suffix.skip("firmware/"@.len() as int), payload)
        } else {
            Err(Refusal::UnknownIntent(suffix))
        },
    }
}

/// What a request of the trusted local website comes to. Its values are not checked.
pub open spec fn trusted_outcome(config: PolicyConfig, key: Seq<char>, payload: Seq<u8>) -> Result<
    Command,
    Refusal,
> {
    let namespace = config.vehicle_topic_prefix@;
    match intent_suffix(config, key) {
        None => Err(Refusal::WrongNamespace),
        Some(suffix) => if suffix == "gain"@ {
            Ok(query(config.parameter_key@, "param_set"@, payload, "gain"@))
        } else if suffix == "parameters"@ {
            Ok(
                query(
                    command_key(namespace, "param_get"@),
                    "param_get"@,
                    payload,
                    "parameters"@,
                ),
            )
        } else if suffix == "trajectory"@ {
            Ok(
                query(
                    command_key(namespace, "trajectory_set"@),
                    "trajectory_set"@,
                    payload,
                    "trajectory"@,
                ),
            )
        } else if suffix == "manual"@ {
            Ok(publication(config, "manual"@, payload, "manual"@))
        } else if suffix == "radio"@ {
            Ok(publication(config, "rc"@, payload, "radio"@))
        } else if begins_with(suffix, "raw/"@) {
            raw_outcome(config, suffix.skip("raw/"@.len() as int), payload, false)
        } else if begins_with(suffix, "firmware/"@) {
            firmware_outcome(suffix.skip("firmware/"@.len() as int), payload)
        } else {
            Err(Refusal::UnknownIntent(suffix))
        },
    }
}

/// The attempts after a checked request: one more for the team of an accepted velocity request.
pub open spec fn ledger_after(policy: CommandPolicy, key: Seq<char>, payload: Seq<u8>) -> Map<
    Seq<char>,
    u32,
> {
    let used = policy.velocity_budget.used@;
    if intent_suffix(policy.config, key) == Some("velocity"@) && velocity_outcome(
        policy,
        payload,
    ) is Ok {
        let team = velocity_request(policy.config, payload)->Ok_0.0;
        used.insert(team, (used_by(used, team) + 1) as u32)
    } else {
        used
    }
}

/// The result is the outcome.
pub open spec fn result_tells(
    result: Result<AuthorizedCommand, PolicyError>,
    outcome: Result<Command, Refusal>,
) -> bool {
    match outcome {
        Ok(command) => result is Ok && result->Ok_0.tells(command),
        Err(refusal) => result is Err && result->Err_0.tells(refusal),
    }
}

// ---------------------------------------------------------------------------------------------
// Deciding
// ---------------------------------------------------------------------------------------------

fn wrong_size(actual: usize, expected: usize) -> (error: PolicyError)
    ensures
        error.tells(Refusal::InvalidPayload(size_complaint(actual as nat, expected))),
{
    let start = joined("payload is ", decimal(actual as u64).as_str());
    let middle = joined(start.as_str(), " bytes, expected ");
    invalid(joined(middle.as_str(), decimal(expected as u64).as_str()).as_str())
}

/// Whether a manual control message comes from an operator in control: its axes are in range, and
/// it is active and valid. Checked requests never carry one; this is for those who send them.
pub fn check_manual(payload: &[u8]) -> (result: Result<(), PolicyError>)
    ensures
        match manual_refusal(payload@) {
            None => result is Ok,
            Some(refusal) => result is Err && result->Err_0.tells(refusal),
        },
{
    let total: usize = payload.len();
    if total != MANUAL_CONTROL_PAYLOAD_SIZE {
        return Err(wrong_size(total, MANUAL_CONTROL_PAYLOAD_SIZE));
    }
    let axes = read_axes(payload);
    for index in 0..axes.len()
        invariant
            axes@.len() == MANUAL_AXES,
            payload@.len() == MANUAL_CONTROL_PAYLOAD_SIZE,
            forall|i: int| 0 <= i < MANUAL_AXES ==> (#[trigger] axes@[i]) == axis(payload@, i),
            forall|i: int| 0 <= i < index ==> -1000 <= #[trigger] axis(payload@, i) <= 1000,
    {
        let value: i16 = axes[index];
        assert(value == axis(payload@, index as int));
        if value < -1000 || value > 1000 {
            return rejected("manual axes must be within [-1000, 1000]");
        }
    }
    if read_active_axes(payload) > MANUAL_ACTIVE_AXES_MASK {
        return rejected("manual active_axes contains unknown bits");
    }
    let (flags, _): (u8, u8) = read_switches(payload);
    if !flag_set(flags, ACTIVE_FLAG) || !flag_set(flags, VALID_FLAG) {
        return rejected("manual command must be active and valid");
    }
    Ok(())
}

/// Whether a radio message may be sent.
pub fn check_radio(payload: &[u8]) -> (result: Result<(), PolicyError>)
    ensures
        match radio_refusal(payload@) {
            None => result is Ok,
            Some(refusal) => result is Err && result->Err_0.tells(refusal),
        },
{
    let total: usize = payload.len();
    if total != RADIO_BYTES {
        return Err(wrong_size(total, RADIO_BYTES));
    }
    let (count, quality): (u8, u8) = read_radio(payload);
    if count < 5 || count > 18 {
        return rejected("radio channel_count must be within [5, 18]");
    }
    if quality < 1 || quality > 100 {
        return rejected("radio link quality must be within [1, 100]");
    }
    for channel in 0..count as usize
        invariant
            count <= 18,
            count == payload@[8],
            5 <= payload@[8],
            1 <= payload@[9] <= 100,
            payload@.len() == RADIO_BYTES,
            first_bad_channel(payload@, 0, count as int) == first_bad_channel(
                payload@,
                channel as int,
                count as int,
            ),
    {
        let offset: usize = 10 + channel * 2;
        let value: u32 = payload[offset] as u32 + 256 * payload[offset + 1] as u32;
        assert(value == channel_value(payload@, channel as int));
        if value < 900 || value > 2100 {
            let start = joined("radio channel ", decimal(channel as u64).as_str());
            return rejected(joined(start.as_str(), " is outside [900, 2100] us").as_str());
        }
    }
    Ok(())
}

/// The name without the white space around it, if it names a parameter.
pub fn check_name(name: &Option<String>) -> (trimmed_name: Option<String>)
    ensures
        trimmed_name is Some == name_fits(text_or_empty(crate::tables::optional_view(*name))),
        trimmed_name is Some ==> trimmed_name->0@ == trimmed(
            text_or_empty(crate::tables::optional_view(*name)),
        ),
{
    match name {
        Some(name) => {
            let bare = trim(name.as_str());
            let length: usize = text_bytes(bare.as_str());
            if length == 0 || length > PARAMETER_NAME_BYTES {
                None
            } else {
                Some(bare)
            }
        },
        None => {
            assert(trimmed(Seq::<char>::empty()).len() == 0);
            None
        },
    }
}

fn check_parameters(payload: &[u8]) -> (result: Result<(), PolicyError>)
    ensures
        match parameters_refusal(payload@) {
            None => result is Ok,
            Some(refusal) => result is Err && result->Err_0.tells(refusal),
        },
{
    match read_param_get(payload) {
        Err(message) => Err(PolicyError::InvalidPayload(message)),
        Ok(name) => match check_name(&name) {
            Some(_) => Ok(()),
            None => rejected("parameter name must contain 1 to 128 characters"),
        },
    }
}

fn finite_point(
    point: (crate::binary64::Binary32, crate::binary64::Binary32, crate::binary64::Binary32),
) -> (result: bool)
    ensures
        result == point_finite(point),
{
    point.0.is_finite() && point.1.is_finite() && point.2.is_finite()
}

fn check_segments(segments: &Vec<Segment>) -> (result: Result<(), PolicyError>)
    requires
        segments@.len() <= 6,
    ensures
        match segments_complaint(segments@, 0) {
            None => result is Ok,
            Some(complaint) => result is Err && result->Err_0.tells(Refusal::Rejected(complaint)),
        },
{
    for index in 0..segments.len()
        invariant
            segments@.len() <= 6,
            segments_complaint(segments@, 0) == segments_complaint(segments@, index as int),
    {
        let segment = segments[index];
        if segment.sequence != index as u32 || segment.frame != LOCAL_ENU_FRAME {
            return rejected("trajectory segments must be ordered Local ENU segments");
        }
        if !finite_point(segment.start) || !finite_point(segment.end) {
            return rejected("trajectory coordinates must be finite");
        }
    }
    Ok(())
}

/// Whether a trajectory may be set.
pub fn judge_trajectory(trajectory: TrajectoryFields) -> (result: Result<(), PolicyError>)
    ensures
        match trajectory_judgement(trajectory@) {
            None => result is Ok,
            Some(refusal) => result is Err && result->Err_0.tells(refusal),
        },
{
    let segments = match trajectory.segments {
        Some(segments) => segments,
        None => return Err(invalid("TrajectorySetRequest has no segments")),
    };
    if segments.len() < 1 || segments.len() > 6 || trajectory.total as usize != segments.len() {
        return rejected("trajectory must contain one to six complete segments");
    }
    check_segments(&segments)
}

fn check_trajectory(payload: &[u8]) -> (result: Result<(), PolicyError>)
    ensures
        match trajectory_refusal(payload@) {
            None => result is Ok,
            Some(refusal) => result is Err && result->Err_0.tells(refusal),
        },
{
    match read_trajectory(payload) {
        Ok(trajectory) => judge_trajectory(trajectory),
        Err(message) => Err(PolicyError::InvalidPayload(message)),
    }
}

/// Whether a velocity request may set the parameter.
pub fn judge_velocity(config: &PolicyConfig, parameter: &ParameterFields) -> (result: Result<
    (),
    PolicyError,
>)
    ensures
        match velocity_judgement(*config, parameter@) {
            None => result is Ok,
            Some(refusal) => result is Err && result->Err_0.tells(refusal),
        },
{
    let name = match &parameter.name {
        Some(name) => name.clone(),
        None => String::new(),
    };
    assert(name@ =~= text_or_empty(parameter@.name));
    if parameter.kind != FLOAT_KIND || *name.as_str() != *VELOCITY_SETPOINT {
        return validate_gain(parameter.kind, parameter.value, name.as_str(), None);
    }
    if !parameter.value.is_finite() {
        return rejected("velocity components must be finite");
    }
    if parameter.value.is_below(&config.velocity_min_mps) || config.velocity_max_mps.is_below(
        &parameter.value,
    ) {
        let start = joined(
            joined("velocity ", parameter.value_text.as_str()).as_str(),
            " m/s is outside ",
        );
        let limits = interval(
            config.velocity_min_text.as_str(),
            config.velocity_max_text.as_str(),
        );
        return rejected(joined(start.as_str(), limits.as_str()).as_str());
    }
    Ok(())
}

/// Whether a checked request may set the parameter without an attempt.
pub fn judge_gain(limits: &TextMap<Limits>, parameter: &ParameterFields) -> (result: Result<
    (),
    PolicyError,
>)
    requires
        limits.well_formed(),
    ensures
        match gain_judgement(bounds_of(limits@), parameter@) {
            None => result is Ok,
            Some(refusal) => result is Err && result->Err_0.tells(refusal),
        },
{
    let name = match check_name(&parameter.name) {
        Some(name) => name,
        None => return rejected("parameter name must contain 1 to 128 characters"),
    };
    let allowed = if *name.as_str() == *VELOCITY_SETPOINT {
        None
    } else {
        limits.get(name.as_str())
    };
    validate_gain(parameter.kind, parameter.value, name.as_str(), allowed)
}

fn safe_leaf(leaf: &str) -> (result: bool)
    ensures
        result == is_safe_leaf(leaf@),
{
    let chars = characters(leaf);
    if chars.len() == 0 || chars.len() > RAW_LEAF_BYTES {
        return false;
    }
    for index in 0..chars.len()
        invariant
            chars@ == leaf@,
            forall|i: int| 0 <= i < index ==> is_leaf_char(#[trigger] chars@[i]),
    {
        let c = chars[index];
        if !(alphanumeric(c) || c == '_' || c == '-' || c == '.') {
            assert(!is_leaf_char(leaf@[index as int]));
            return false;
        }
    }
    true
}

fn find_firmware_bound(parts: &Vec<String>) -> (bound: Option<usize>)
    ensures
        bound == firmware_bound(views(parts@)),
{
    assert(parts@.len() > 0 ==> views(parts@)[0] == parts@[0]@);
    assert(parts@.len() > 1 ==> views(parts@)[1] == parts@[1]@);
    assert(parts@.len() > 2 ==> views(parts@)[2] == parts@[2]@);
    if parts.len() < 2 || parts.len() > 3 || !safe_id(parts[0].as_str()) {
        return None;
    }
    let operation = parts[1].as_str();
    if parts.len() == 2 {
        if *operation == *"start" {
            return Some(FIRMWARE_PREPARE_MAX_BYTES);
        }
        if *operation == *"commit" {
            return Some(FIRMWARE_COMMIT_MAX_BYTES);
        }
        return None;
    }
    if *operation == *"chunk" && parse_unsigned(
        parts[2].as_str(),
        u32::MAX as u64,
    ).is_some() {
        return Some(FIRMWARE_CHUNK_MAX_BYTES);
    }
    None
}

fn bounds_text(start: &str, bound: usize) -> (text: String)
    ensures
        text@ == start@ + decimal_text(bound as nat) + " bytes"@,
{
    joined(joined(start, decimal(bound as u64).as_str()).as_str(), " bytes")
}

fn authorize_firmware(suffix: &str, payload: &[u8]) -> (result: Result<
    AuthorizedCommand,
    PolicyError,
>)
    ensures
        result_tells(result, firmware_outcome(suffix@, payload@)),
{
    let parts = split(suffix, '/');
    proof {
        lemma_pieces_nonempty(suffix@, '/');
        assert(views(parts@)[0] == parts@[0]@);
    }
    let bound: usize = match find_firmware_bound(&parts) {
        Some(bound) => bound,
        None => return Err(PolicyError::UnknownIntent(joined("firmware/", suffix))),
    };
    if payload.len() == 0 || payload.len() > bound {
        return rejected(bounds_text("firmware payload must contain 1 to ", bound).as_str());
    }
    let status_leaf = joined("firmware/", parts[0].as_str());
    assert(same_text(None, None));
    Ok(
        make_command(
            Delivery::Firmware,
            suffix.to_owned(),
            payload,
            status_leaf.as_str(),
            None,
        ),
    )
}

/// The limits that apply: the default ones where the configuration names no document, those of the
/// document where it could be read and is valid, and none otherwise.
pub open spec fn limits_in_force(
    config: PolicyConfig,
    document: Option<ParameterLimitsFile>,
) -> Map<Seq<char>, Bounds> {
    if config.parameter_limits_path is None {
        default_limits_map()
    } else {
        match document {
            None => Map::empty(),
            Some(file) => match limits_outcome(file) {
                Ok(limits) => limits,
                Err(_) => Map::empty(),
            },
        }
    }
}

/// The limits that apply.
pub fn load_parameter_limits(
    config: &PolicyConfig,
    document: Option<ParameterLimitsFile>,
) -> (limits: TextMap<Limits>)
    ensures
        limits.well_formed(),
        bounds_of(limits@) == limits_in_force(*config, document),
{
    if config.parameter_limits_path.is_none() {
        return default_parameter_limits();
    }
    match document {
        None => TextMap::new(),
        Some(file) => match parse_parameter_limits(&file) {
            Ok(limits) => limits,
            Err(_) => TextMap::new(),
        },
    }
}

impl CommandPolicy {
    /// The ledger and the limits are well formed.
    pub open spec fn well_formed(self) -> bool {
        self.velocity_budget.well_formed() && self.parameter_limits.well_formed()
    }

    /// A policy whose ledger is empty. `document` is what the configured limits path holds; none
    /// where it could not be read.
    pub fn new(config: PolicyConfig, document: Option<ParameterLimitsFile>) -> (policy: Self)
        ensures
            policy.well_formed(),
            policy.config == config,
            policy.velocity_budget.limit == config.velocity_budget,
            policy.velocity_budget.used@ == Map::<Seq<char>, u32>::empty(),
            bounds_of(policy.parameter_limits@) == limits_in_force(config, document),
    {
        let parameter_limits = load_parameter_limits(&config, document);
        CommandPolicy {
            velocity_budget: VelocityBudget::new(config.velocity_budget),
            parameter_limits,
            config,
        }
    }

    fn suffix_of(&self, key: &str) -> (suffix: Option<String>)
        ensures
            same_text(suffix, intent_suffix(self.config, key@)),
    {
        let bare = drop_trailing(self.config.intent_prefix.as_str(), '/');
        strip_prefix(key, joined(bare.as_str(), "/").as_str())
    }

    /// The update that the key of a firmware intent names, whatever the intent asks for.
    pub fn update_of(&self, key: &str) -> (update_id: Option<String>)
        ensures
            same_text(update_id, intent_update(self.config, key@)),
    {
        let suffix = match self.suffix_of(key) {
            Some(suffix) => suffix,
            None => return None,
        };
        let firmware = match strip_prefix(suffix.as_str(), "firmware/") {
            Some(firmware) => firmware,
            None => return None,
        };
        let parts = split(firmware.as_str(), '/');
        proof {
            lemma_pieces_nonempty(firmware@, '/');
            assert(views(parts@)[0] == parts@[0]@);
        }
        Some(parts[0].clone())
    }

    fn publish_topic(&self, key: &str, payload: &[u8], status_leaf: &str) -> (command:
        AuthorizedCommand)
        ensures
            command.tells(publication(self.config, key@, payload@, status_leaf@)),
    {
        let encoding = encoding_by_key(key);
        assert(same_text(encoding, topic_encoding(key@)));
        let target = topic_key(self.config.vehicle_topic_prefix.as_str(), key);
        make_command(Delivery::Publish, target, payload, status_leaf, encoding)
    }

    fn vehicle_command_key(&self, name: &str) -> (key: String)
        ensures
            key@ == command_key(self.config.vehicle_topic_prefix@, name@),
    {
        topic_key(
            self.config.vehicle_topic_prefix.as_str(),
            joined(joined(CMD_KEY_PREFIX, "/").as_str(), name).as_str(),
        )
    }

    fn authorize_velocity(&mut self, payload: &[u8]) -> (result: Result<
        AuthorizedCommand,
        PolicyError,
    >)
        requires
            old(self).well_formed(),
        ensures
            final(self).well_formed(),
            final(self).config == old(self).config,
            final(self).parameter_limits == old(self).parameter_limits,
            final(self).velocity_budget.limit == old(self).velocity_budget.limit,
            result_tells(result, velocity_outcome(*old(self), payload@)),
            final(self).velocity_budget.used@ == if velocity_outcome(*old(self), payload@) is Ok {
                let team = velocity_request(old(self).config, payload@)->Ok_0.0;
                old(self).velocity_budget.used@.insert(
                    team,
                    (used_by(old(self).velocity_budget.used@, team) + 1) as u32,
                )
            } else {
                old(self).velocity_budget.used@
            },
    {
        let (team, body) = match credential_envelope(payload, &VELOCITY_MAGIC, None) {
            Ok(opened) => opened,
            Err(error) => return Err(error),
        };
        let parameter = match parameter_of(body) {
            Ok(parameter) => parameter,
            Err(error) => return Err(error),
        };
        if let Err(error) = judge_velocity(&self.config, &parameter) {
            return Err(error);
        }
        proof {
            let named = decode_utf8(payload@.subrange(5, 5 + payload@[4] as int));
            assert(team@ == lower(named));
            lemma_lower_idempotent(named);
        }
        let state = match self.velocity_budget.consume(team.as_str()) {
            Ok(state) => state,
            Err(message) => return Err(PolicyError::Rejected(message)),
        };
        let mut command = make_query(
            self.config.parameter_key.clone(),
            "param_set",
            body,
            "velocity",
        );
        let ghost plain = query(old(self).config.parameter_key@, "param_set"@, body@, "velocity"@);
        assert(command.tells(plain));
        apply_budget_state(&mut command, &state);
        Ok(command)
    }

    fn authorize_velocity_budget(&self, payload: &[u8]) -> (result: Result<
        AuthorizedCommand,
        PolicyError,
    >)
        requires
            self.well_formed(),
        ensures
            result_tells(result, budget_outcome(*self, payload@)),
    {
        let (team, _) = match credential_envelope(payload, &VELOCITY_BUDGET_MAGIC, Some(0)) {
            Ok(opened) => opened,
            Err(error) => return Err(error),
        };
        proof {
            let named = decode_utf8(payload@.subrange(5, 5 + payload@[4] as int));
            assert(team@ == lower(named));
            lemma_lower_idempotent(named);
        }
        let state = self.velocity_budget.state(team.as_str());
        let empty: Vec<u8> = Vec::new();
        assert(same_text(None, None));
        let mut command = make_command(
            Delivery::Budget,
            String::new(),
            empty.as_slice(),
            "velocity",
            None,
        );
        let ghost plain = Command {
            delivery: Delivery::Budget,
            target: Seq::empty(),
            payload: Seq::empty(),
            status_leaf: "velocity"@,
            budget: None,
            encoding: None,
        };
        assert(command.target@ =~= plain.target);
        assert(command.payload@ =~= plain.payload);
        assert(command.tells(plain));
        apply_budget_state(&mut command, &state);
        Ok(command)
    }

    fn authorize_gain(&self, payload: &[u8]) -> (result: Result<AuthorizedCommand, PolicyError>)
        requires
            self.well_formed(),
        ensures
            result_tells(
                result,
                unless_refused(
                    gain_refusal(*self, payload@),
                    query(self.config.parameter_key@, "param_set"@, payload@, "gain"@),
                ),
            ),
    {
        let parameter = match parameter_of(payload) {
            Ok(parameter) => parameter,
            Err(error) => return Err(error),
        };
        if let Err(error) = judge_gain(&self.parameter_limits, &parameter) {
            return Err(error);
        }
        Ok(make_query(self.config.parameter_key.clone(), "param_set", payload, "gain"))
    }

    fn authorize_raw(&self, leaf: &str, payload: &[u8], checked: bool) -> (result: Result<
        AuthorizedCommand,
        PolicyError,
    >)
        ensures
            result_tells(result, raw_outcome(self.config, leaf@, payload@, checked)),
    {
        if !safe_leaf(leaf) {
            return rejected("raw target must be one safe topic leaf");
        }
        if checked && (*leaf == *"manual" || *leaf == *"manual_control_command" || *leaf
            == *"pos_sp" || *leaf == *"local_position_command") {
            return rejected("raw target is reserved for trusted controls");
        }
        if payload.len() == 0 || payload.len() > self.config.raw_max_bytes {
            return rejected(
                bounds_text("raw payload must contain 1 to ", self.config.raw_max_bytes).as_str(),
            );
        }
        Ok(self.publish_topic(leaf, payload, joined("raw/", leaf).as_str()))
    }

    fn parameters_query(&self, payload: &[u8]) -> (command: AuthorizedCommand)
        ensures
            command.tells(
                query(
                    command_key(self.config.vehicle_topic_prefix@, "param_get"@),
                    "param_get"@,
                    payload@,
                    "parameters"@,
                ),
            ),
    {
        make_query(self.vehicle_command_key("param_get"), "param_get", payload, "parameters")
    }

    fn trajectory_query(&self, payload: &[u8]) -> (command: AuthorizedCommand)
        ensures
            command.tells(
                query(
                    command_key(self.config.vehicle_topic_prefix@, "trajectory_set"@),
                    "trajectory_set"@,
                    payload@,
                    "trajectory"@,
                ),
            ),
    {
        make_query(
            self.vehicle_command_key("trajectory_set"),
            "trajectory_set",
            payload,
            "trajectory",
        )
    }

    /// Decides on a checked request.
    pub fn authorize(&mut self, key: &str, payload: &[u8]) -> (result: Result<
        AuthorizedCommand,
        PolicyError,
    >)
        requires
            old(self).well_formed(),
        ensures
            final(self).well_formed(),
            final(self).config == old(self).config,
            final(self).parameter_limits == old(self).parameter_limits,
            final(self).velocity_budget.limit == old(self).velocity_budget.limit,
            result_tells(result, checked_outcome(*old(self), key@, payload@)),
            final(self).velocity_budget.used@ == ledger_after(*old(self), key@, payload@),
    {
        let suffix = match self.suffix_of(key) {
            Some(suffix) => suffix,
            None => return Err(PolicyError::WrongNamespace),
        };
        let intent = suffix.as_str();
        if *intent == *"velocity" {
            return self.authorize_velocity(payload);
        }
        if *intent == *"velocity_budget" {
            return self.authorize_velocity_budget(payload);
        }
        if *intent == *"radio" {
            return match check_radio(payload) {
                Ok(_) => Ok(self.publish_topic("rc", payload, "radio")),
                Err(error) => Err(error),
            };
        }
        if *intent == *"gain" {
            return self.authorize_gain(payload);
        }
        if *intent == *"parameters" {
            return match check_parameters(payload) {
                Ok(_) => Ok(self.parameters_query(payload)),
                Err(error) => Err(error),
            };
        }
        if *intent == *"trajectory" {
            return match check_trajectory(payload) {
                Ok(_) => Ok(self.trajectory_query(payload)),
                Err(error) => Err(error),
            };
        }
        if let Some(leaf) = strip_prefix(intent, "raw/") {
            return self.authorize_raw(leaf.as_str(), payload, true);
        }
        if let Some(firmware) = strip_prefix(intent, "firmware/") {
            return authorize_firmware(firmware.as_str(), payload);
        }
        Err(PolicyError::UnknownIntent(suffix))
    }

    /// Decides on a request of the trusted local website: its target is constrained, its values
    /// are not.
    pub fn authorize_trusted(&self, key: &str, payload: &[u8]) -> (result: Result<
        AuthorizedCommand,
        PolicyError,
    >)
        ensures
            result_tells(result, trusted_outcome(self.config, key@, payload@)),
    {
        let suffix = match self.suffix_of(key) {
            Some(suffix) => suffix,
            None => return Err(PolicyError::WrongNamespace),
        };
        let intent = suffix.as_str();
        if *intent == *"gain" {
            return Ok(make_query(self.config.parameter_key.clone(), "param_set", payload, "gain"));
        }
        if *intent == *"parameters" {
            return Ok(self.parameters_query(payload));
        }
        if *intent == *"trajectory" {
            return Ok(self.trajectory_query(payload));
        }
        if *intent == *"manual" {
            return Ok(self.publish_topic("manual", payload, "manual"));
        }
        if *intent == *"radio" {
            return Ok(self.publish_topic("rc", payload, "radio"));
        }
        if let Some(leaf) = strip_prefix(intent, "raw/") {
            return self.authorize_raw(leaf.as_str(), payload, false);
        }
        if let Some(firmware) = strip_prefix(intent, "firmware/") {
            return authorize_firmware(firmware.as_str(), payload);
        }
        Err(PolicyError::UnknownIntent(suffix))
    }

    /// Gives an attempt back when its command could not be delivered.
    pub fn refund_velocity(&mut self, credential_id: &str) -> (state: BudgetState)
        requires
            old(self).well_formed(),
        ensures
            final(self).well_formed(),
            final(self).config == old(self).config,
            final(self).parameter_limits == old(self).parameter_limits,
            final(self).velocity_budget.limit == old(self).velocity_budget.limit,
            state.tells(final(self).velocity_budget.budget_of(lower(credential_id@))),
            final(self).velocity_budget.used@ == if used_by(
                old(self).velocity_budget.used@,
                lower(credential_id@),
            ) == 0 {
                old(self).velocity_budget.used@
            } else {
                old(self).velocity_budget.used@.insert(
                    lower(credential_id@),
                    (used_by(old(self).velocity_budget.used@, lower(credential_id@)) - 1) as u32,
                )
            },
    {
        self.velocity_budget.refund(credential_id)
    }

    /// How the team stands that an envelope names.
    pub fn velocity_state_for_payload(&self, payload: &[u8]) -> (result: Result<
        BudgetState,
        PolicyError,
    >)
        requires
            self.well_formed(),
        ensures
            match team_outcome(payload@) {
                Ok(team) => result is Ok && result->Ok_0.tells(
                    self.velocity_budget.budget_of(lower(team)),
                ),
                Err(refusal) => result is Err && result->Err_0.tells(refusal),
            },
    {
        match team_name_from_any_velocity_envelope(payload) {
            Ok(team) => Ok(self.velocity_budget.state(team.as_str())),
            Err(error) => Err(error),
        }
    }

    /// The identifier of the team that an envelope names.
    pub fn credential_id_for_payload(payload: &[u8]) -> (id: Option<String>)
        ensures
            id is Some == team_outcome(payload@) is Ok,
            id is Some ==> id->0@ == lower(team_outcome(payload@)->Ok_0),
    {
        match team_name_from_any_velocity_envelope(payload) {
            Ok(team) => Some(credential_id(team.as_str())),
            Err(_) => None,
        }
    }
}

// ---------------------------------------------------------------------------------------------
// Laws
// ---------------------------------------------------------------------------------------------

/// Refused requests use no attempt up, nor do those that ask for anything but a velocity.
pub proof fn lemma_only_accepted_velocity_uses_attempts(
    policy: CommandPolicy,
    key: Seq<char>,
    payload: Seq<u8>,
)
    ensures
        checked_outcome(policy, key, payload) is Err ==> ledger_after(policy, key, payload)
            == policy.velocity_budget.used@,
        intent_suffix(policy.config, key) != Some("velocity"@) ==> ledger_after(
            policy,
            key,
            payload,
        ) == policy.velocity_budget.used@,
{
}

/// An accepted velocity request uses exactly one attempt of its own team, and never more than the
/// team has.
pub proof fn lemma_accepted_velocity_uses_one_attempt(
    policy: CommandPolicy,
    key: Seq<char>,
    payload: Seq<u8>,
)
    requires
        intent_suffix(policy.config, key) == Some("velocity"@),
        checked_outcome(policy, key, payload) is Ok,
    ensures
        ({
            let team = velocity_request(policy.config, payload)->Ok_0.0;
            let before = policy.velocity_budget.used@;
            let after = ledger_after(policy, key, payload);
            &&& used_by(after, team) == used_by(before, team) + 1
            &&& used_by(after, team) <= policy.velocity_budget.limit
            &&& forall|other: Seq<char>|
                other != team ==> #[trigger] used_by(after, other) == used_by(before, other)
            &&& checked_outcome(policy, key, payload)->Ok_0.budget == Some(
                Budget {
                    team,
                    limit: policy.velocity_budget.limit,
                    used: used_by(after, team),
                },
            )
        }),
{
}

/// A ledger whose teams can be written to its file keeps that property whatever is requested.
pub proof fn lemma_ledger_can_always_be_written(
    policy: CommandPolicy,
    key: Seq<char>,
    payload: Seq<u8>,
)
    requires
        forall|team: Seq<char>| #[trigger]
            policy.velocity_budget.used@.dom().contains(team) ==> is_ledger_name(team),
    ensures
        forall|team: Seq<char>| #[trigger]
            ledger_after(policy, key, payload).dom().contains(team) ==> is_ledger_name(team),
{
    if velocity_request(policy.config, payload) is Ok {
        lemma_team_names_fit_the_ledger(
            decode_utf8(payload.subrange(5, 5 + payload[4] as int)),
        );
    }
}

/// A checked request never publishes on a target that steers the vehicle.
pub proof fn lemma_checked_requests_do_not_steer(
    policy: CommandPolicy,
    key: Seq<char>,
    payload: Seq<u8>,
)
    requires
        checked_outcome(policy, key, payload) is Ok,
        checked_outcome(policy, key, payload)->Ok_0.delivery is Publish,
    ensures
        exists|leaf: Seq<char>|
            is_safe_leaf(leaf) && !is_control_leaf(leaf) && checked_outcome(
                policy,
                key,
                payload,
            )->Ok_0.target == #[trigger] key_in(policy.config.vehicle_topic_prefix@, leaf),
{
    let suffix = intent_suffix(policy.config, key)->0;
    let leaf = if suffix == "radio"@ {
        "rc"@
    } else {
        suffix.skip("raw/"@.len() as int)
    };
    reveal_strlit("rc");
    reveal_strlit("manual");
    reveal_strlit("manual_control_command");
    reveal_strlit("pos_sp");
    reveal_strlit("local_position_command");
    if suffix == "radio"@ {
        assert("rc"@.len() == 2);
        assert(is_leaf_char('r') && is_leaf_char('c'));
        assert("rc"@[0] == 'r' && "rc"@[1] == 'c');
    }
    assert(is_safe_leaf(leaf) && !is_control_leaf(leaf));
    assert(checked_outcome(policy, key, payload)->Ok_0.target == key_in(
        policy.config.vehicle_topic_prefix@,
        leaf,
    ));
}

/// A checked request sets a parameter only to a finite value within its limits: those of the
/// configuration for a velocity, and those of the limits in force for any other.
pub proof fn lemma_checked_writes_are_within_limits(
    policy: CommandPolicy,
    key: Seq<char>,
    payload: Seq<u8>,
)
    requires
        checked_outcome(policy, key, payload) is Ok,
        intent_suffix(policy.config, key) == Some("gain"@) || intent_suffix(policy.config, key)
            == Some("velocity"@),
    ensures
        ({
            let command = checked_outcome(policy, key, payload)->Ok_0;
            let parameter = parameter_outcome(command.payload)->Ok_0;
            let name = text_or_empty(parameter.name);
            let limits = if intent_suffix(policy.config, key) == Some("velocity"@) {
                (policy.config.velocity_min_mps, policy.config.velocity_max_mps)
            } else {
                let bounds = bounds_of(policy.parameter_limits@)[trimmed(name)];
                (bounds.minimum, bounds.maximum)
            };
            &&& parameter_outcome(command.payload) is Ok
            &&& parameter.kind == FLOAT_KIND
            &&& parameter.value.finite()
            &&& !parameter.value.below(limits.0)
            &&& !limits.1.below(parameter.value)
            &&& intent_suffix(policy.config, key) == Some("velocity"@) <==> trimmed(name)
                == VELOCITY_SETPOINT@
        }),
{
    reveal_strlit("gain");
    reveal_strlit("velocity");
    assert("gain"@.len() != "velocity"@.len());
    reveal_strlit("velocity_budget");
    reveal_strlit("radio");
    assert("radio"@.len() != "gain"@.len());
    assert("velocity_budget"@.len() != "gain"@.len());
    if intent_suffix(policy.config, key) == Some("velocity"@) {
        reveal_strlit("velocity.setpoint");
        let name = VELOCITY_SETPOINT@;
        assert(name[0] == 'v' && name[name.len() - 1] == 't');
        assert(trimmed(name) == name);
    }
}

/// Requests of the trusted website are forwarded byte for byte, and use no attempt.
pub proof fn lemma_trusted_bytes_are_exact(
    config: PolicyConfig,
    key: Seq<char>,
    payload: Seq<u8>,
)
    requires
        trusted_outcome(config, key, payload) is Ok,
    ensures
        trusted_outcome(config, key, payload)->Ok_0.payload == payload,
        trusted_outcome(config, key, payload)->Ok_0.budget is None,
{
}

/// Checked requests are forwarded byte for byte too, but for velocity requests, which lose their
/// envelope, and budget queries, which the vehicle never sees.
pub proof fn lemma_checked_bytes_are_exact(
    policy: CommandPolicy,
    key: Seq<char>,
    payload: Seq<u8>,
)
    requires
        checked_outcome(policy, key, payload) is Ok,
    ensures
        ({
            let command = checked_outcome(policy, key, payload)->Ok_0;
            let suffix = intent_suffix(policy.config, key);
            if suffix == Some("velocity"@) {
                &&& command.payload == payload.skip(5 + payload[4] as int)
                &&& command.target == policy.config.parameter_key@
            } else if suffix == Some("velocity_budget"@) {
                command.delivery is Budget && command.payload.len() == 0
            } else {
                command.payload == payload && command.budget is None
            }
        }),
{
}

} // verus!
