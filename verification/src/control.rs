//! What browsers say to the bridge: which topics they want, and what the vehicle is to do.

use crate::json::{
    field_views, json_text_at, json_texts_at, number_field, object_json, optional_views,
    read_text_at, read_texts_at, text_field, write_object, Json, JsonField,
};
use crate::tables::optional_view;
use crate::text::{decimal, decimal_text, joined, views};
use vstd::prelude::*;

verus! {

/// What a message asks of the bridge itself.
#[derive(Debug, PartialEq, Eq)]
pub enum Control {
    /// The message is no control message.
    NotControl,
    /// The browser wants a fresh catalog.
    Refresh,
    /// The browser wants these keys, and a fresh catalog.
    Select(Vec<String>),
}

/// What a message asks of the bridge itself.
pub ghost enum Wish {
    NotControl,
    Refresh,
    Select(Seq<Seq<char>>),
}

/// The answer to a command.
#[derive(Debug, Clone, PartialEq, Eq)]
pub struct CommandAck {
    pub command_id: String,
    pub command: String,
    pub status: String,
    pub reason: String,
    pub sequence: u64,
    pub received_at_ms: u64,
}

/// What the vehicle is doing.
#[derive(Debug, Clone, PartialEq, Eq)]
pub struct VehicleRuntime {
    pub mode: String,
    pub armed: bool,
}

/// What the bridge knows of the vehicle.
#[derive(Debug, Clone, PartialEq, Eq)]
pub struct AppState {
    pub vehicle_id: String,
    pub command_sequence: u64,
    pub runtime: VehicleRuntime,
}

/// What the vehicle is doing.
pub ghost struct Doing {
    pub mode: Seq<char>,
    pub armed: bool,
}

impl View for Control {
    type V = Wish;

    open spec fn view(&self) -> Wish {
        match *self {
            Control::NotControl => Wish::NotControl,
            Control::Refresh => Wish::Refresh,
            Control::Select(keys) => Wish::Select(views(keys@)),
        }
    }
}

impl View for VehicleRuntime {
    type V = Doing;

    open spec fn view(&self) -> Doing {
        Doing { mode: self.mode@, armed: self.armed }
    }
}

/// The texts among the items, in their order.
pub open spec fn only_texts(items: Seq<Option<Seq<char>>>) -> Seq<Seq<char>>
    decreases items.len(),
{
    if items.len() == 0 {
        Seq::empty()
    } else {
        match items.last() {
            Some(text) => only_texts(items.drop_last()).push(text),
            None => only_texts(items.drop_last()),
        }
    }
}

/// What the fields of a message ask for. Any control action but a selection asks for a refresh.
pub open spec fn wish(
    kind: Option<Seq<char>>,
    action: Option<Seq<char>>,
    keys: Option<Seq<Option<Seq<char>>>>,
) -> Wish {
    if kind != Some("control"@) {
        Wish::NotControl
    } else if action == Some("setSubscriptions"@) {
        Wish::Select(
            match keys {
                Some(items) => only_texts(items),
                None => Seq::empty(),
            },
        )
    } else {
        Wish::Refresh
    }
}

/// What a message asks for.
pub open spec fn wish_of(document: Seq<char>) -> Wish {
    match json_text_at(document, "kind"@) {
        None => Wish::NotControl,
        Some(kind) => wish(
            kind,
            match json_text_at(document, "action"@) {
                Some(action) => action,
                None => None,
            },
            match json_texts_at(document, "keys"@) {
                Some(keys) => keys,
                None => None,
            },
        ),
    }
}

fn is_text(text: &Option<String>, expected: &str) -> (result: bool)
    ensures
        result == (optional_view(*text) == Some(expected@)),
{
    match text {
        Some(text) => *text.as_str() == *expected,
        None => false,
    }
}

/// What the fields of a message ask for.
pub fn control_of(
    kind: Option<String>,
    action: Option<String>,
    keys: Option<Vec<Option<String>>>,
) -> (control: Control)
    ensures
        control@ == wish(
            optional_view(kind),
            optional_view(action),
            match keys {
                Some(items) => Some(optional_views(items@)),
                None => None,
            },
        ),
{
    if !is_text(&kind, "control") {
        return Control::NotControl;
    }
    if !is_text(&action, "setSubscriptions") {
        return Control::Refresh;
    }
    let mut selected: Vec<String> = Vec::new();
    assert(views(selected@) =~= Seq::empty());
    if let Some(items) = keys {
        assert(optional_views(items@).take(0) =~= Seq::empty());
        for index in 0..items.len()
            invariant
                views(selected@) == only_texts(optional_views(items@).take(index as int)),
        {
            let ghost before = selected@;
            let ghost next = optional_views(items@).take(index + 1);
            assert(next.drop_last() =~= optional_views(items@).take(index as int));
            assert(next.last() == optional_view(items@[index as int]));
            if let Some(text) = &items[index] {
                selected.push(text.clone());
                assert(views(selected@) =~= views(before).push(text@));
            }
        }
        assert(optional_views(items@).take(items@.len() as int) =~= optional_views(items@));
    }
    Control::Select(selected)
}

/// What a message asks of the bridge itself.
pub fn handle_control(text: &str) -> (control: Control)
    ensures
        control@ == wish_of(text@),
{
    let kind = match read_text_at(text, "kind") {
        Some(kind) => kind,
        None => return Control::NotControl,
    };
    let action = match read_text_at(text, "action") {
        Some(action) => action,
        None => None,
    };
    let keys = match read_texts_at(text, "keys") {
        Some(keys) => keys,
        None => None,
    };
    control_of(kind, action, keys)
}

/// The answer to a message that could not be parsed. `sequence` counts such messages.
pub fn parse_error_ack(sequence: u64, reason: String, now_ms: u64) -> (ack: CommandAck)
    ensures
        ack.command_id@ == "parse-error-"@ + decimal_text(sequence as nat),
        ack.command@ == "unknown"@,
        ack.status@ == "rejected"@,
        ack.reason@ == reason@,
        ack.sequence == sequence,
        ack.received_at_ms == now_ms,
{
    CommandAck {
        command_id: joined("parse-error-", decimal(sequence).as_str()),
        command: "unknown".to_owned(),
        status: "rejected".to_owned(),
        reason,
        sequence,
        received_at_ms: now_ms,
    }
}

/// The fields of an answer.
pub open spec fn ack_fields(ack: CommandAck) -> Seq<(Seq<char>, Json)> {
    seq![
        ("kind"@, Json::Text("commandAck"@)),
        ("commandId"@, Json::Text(ack.command_id@)),
        ("command"@, Json::Text(ack.command@)),
        ("status"@, Json::Text(ack.status@)),
        ("reason"@, Json::Text(ack.reason@)),
        ("sequence"@, Json::Number(ack.sequence)),
        ("receivedAtMs"@, Json::Number(ack.received_at_ms)),
    ]
}

/// The fields of an answer.
pub fn document_fields(ack: &CommandAck) -> (fields: Vec<JsonField>)
    ensures
        field_views(fields@) == ack_fields(*ack),
{
    let mut fields: Vec<JsonField> = Vec::new();
    fields.push(text_field("kind", "commandAck"));
    fields.push(text_field("commandId", ack.command_id.as_str()));
    fields.push(text_field("command", ack.command.as_str()));
    fields.push(text_field("status", ack.status.as_str()));
    fields.push(text_field("reason", ack.reason.as_str()));
    fields.push(number_field("sequence", ack.sequence));
    fields.push(number_field("receivedAtMs", ack.received_at_ms));
    assert(field_views(fields@) =~= ack_fields(*ack));
    fields
}

/// The document that an answer is sent as.
pub fn ack_document(ack: &CommandAck) -> (text: String)
    ensures
        text@ == object_json(ack_fields(*ack)),
{
    write_object(document_fields(ack))
}

/// What a browser is answered.
#[derive(Debug, PartialEq, Eq)]
pub enum Answer {
    /// A fresh catalog.
    Catalog,
    /// These keys are forwarded from now on, and the answer is a fresh catalog.
    Select(Vec<String>),
    /// The message is a command; its own answer is due.
    Command,
    /// The message could not be parsed.
    Refused(CommandAck),
}

/// One browser's connection: how many of its messages could not be parsed.
#[derive(Debug, Clone, PartialEq, Eq)]
pub struct Connection {
    pub unparsed: u64,
}

impl Connection {
    /// A connection that has carried nothing yet.
    pub fn new() -> (connection: Self)
        ensures
            connection.unparsed == 0,
    {
        Connection { unparsed: 0 }
    }

    /// What a message is answered, given what it asks of the bridge itself. `fault` is what the
    /// parser of commands says of it, if it is no command.
    pub fn answer(&mut self, control: Control, fault: Option<String>, now_ms: u64) -> (answer:
        Answer)
        requires
            old(self).unparsed < u64::MAX,
        ensures
            match control@ {
                Wish::Refresh => answer is Catalog && *final(self) == *old(self),
                Wish::Select(keys) => {
                    &&& answer is Select
                    &&& views(answer->Select_0@) == keys
                    &&& *final(self) == *old(self)
                },
                Wish::NotControl => match fault {
                    None => answer is Command && *final(self) == *old(self),
                    Some(reason) => {
                        &&& final(self).unparsed == old(self).unparsed + 1
                        &&& answer is Refused
                        &&& answer->Refused_0.command_id@ == "parse-error-"@ + decimal_text(
                            final(self).unparsed as nat,
                        )
                        &&& answer->Refused_0.command@ == "unknown"@
                        &&& answer->Refused_0.status@ == "rejected"@
                        &&& answer->Refused_0.reason@ == reason@
                        &&& answer->Refused_0.sequence == final(self).unparsed
                        &&& answer->Refused_0.received_at_ms == now_ms
                    },
                },
            },
    {
        match control {
            Control::Refresh => Answer::Catalog,
            Control::Select(keys) => Answer::Select(keys),
            Control::NotControl => match fault {
                None => Answer::Command,
                Some(reason) => {
                    self.unparsed = self.unparsed + 1;
                    Answer::Refused(parse_error_ack(self.unparsed, reason, now_ms))
                },
            },
        }
    }
}

/// What the vehicle does after a command; `mode` is the mode that the command names, if any.
pub open spec fn effect(doing: Doing, command: Seq<char>, mode: Option<Seq<char>>) -> Doing {
    if command == "arm"@ {
        Doing { armed: true, ..doing }
    } else if command == "disarm"@ {
        Doing { armed: false, ..doing }
    } else if command == "setMode"@ {
        match mode {
            Some(mode) => Doing { mode, ..doing },
            None => doing,
        }
    } else if command == "land"@ {
        Doing { mode: "land"@, ..doing }
    } else if command == "return"@ {
        Doing { mode: "return"@, ..doing }
    } else {
        doing
    }
}

impl AppState {
    /// A vehicle that holds its position, armed, and has had no command yet.
    pub fn new(vehicle_id: String) -> (state: Self)
        ensures
            state.vehicle_id == vehicle_id,
            state.command_sequence == 0,
            state.runtime@ == (Doing { mode: "hold"@, armed: true }),
    {
        AppState {
            vehicle_id,
            command_sequence: 0,
            runtime: VehicleRuntime { mode: "hold".to_owned(), armed: true },
        }
    }

    /// Takes a command's sequence number, unless one as high has been taken before.
    pub fn accept_command_sequence(&mut self, sequence: u64) -> (accepted: bool)
        ensures
            accepted == (sequence > old(self).command_sequence),
            final(self).command_sequence == if accepted {
                sequence
            } else {
                old(self).command_sequence
            },
            final(self).runtime == old(self).runtime,
            final(self).vehicle_id == old(self).vehicle_id,
    {
        if sequence <= self.command_sequence {
            return false;
        }
        self.command_sequence = sequence;
        true
    }

    /// Carries out what a command says of the vehicle.
    pub fn apply_command_effect(&mut self, command: &str, mode: Option<String>)
        ensures
            final(self).runtime@ == effect(old(self).runtime@, command@, optional_view(mode)),
            final(self).command_sequence == old(self).command_sequence,
            final(self).vehicle_id == old(self).vehicle_id,
    {
        if *command == *"arm" {
            self.runtime.armed = true;
        } else if *command == *"disarm" {
            self.runtime.armed = false;
        } else if *command == *"setMode" {
            if let Some(mode) = mode {
                self.runtime.mode = mode;
            }
        } else if *command == *"land" {
            self.runtime.mode = "land".to_owned();
        } else if *command == *"return" {
            self.runtime.mode = "return".to_owned();
        }
    }
}

/// The sequence numbers that are taken, one after the other, of those that come in.
pub open spec fn taken(current: u64, incoming: Seq<u64>) -> Seq<u64>
    decreases incoming.len(),
{
    if incoming.len() == 0 {
        Seq::empty()
    } else if incoming[0] > current {
        seq![incoming[0]] + taken(incoming[0], incoming.drop_first())
    } else {
        taken(current, incoming.drop_first())
    }
}

/// No sequence number is taken twice: those taken only ever grow.
pub proof fn lemma_taken_sequences_grow(current: u64, incoming: Seq<u64>)
    ensures
        forall|i: int| 0 <= i < taken(current, incoming).len() ==> current < #[trigger] taken(
            current,
            incoming,
        )[i],
        forall|i: int, j: int|
            0 <= i < j < taken(current, incoming).len() ==> #[trigger] taken(current, incoming)[i]
                < #[trigger] taken(current, incoming)[j],
    decreases incoming.len(),
{
    if incoming.len() > 0 {
        let rest = incoming.drop_first();
        let next = if incoming[0] > current { incoming[0] } else { current };
        lemma_taken_sequences_grow(next, rest);
        let all = taken(current, incoming);
        let later = taken(next, rest);
        if incoming[0] > current {
            assert forall|i: int| 0 <= i < all.len() implies current < #[trigger] all[i] by {
                if i > 0 {
                    assert(all[i] == later[i - 1]);
                }
            }
            assert forall|i: int, j: int| 0 <= i < j < all.len() implies #[trigger] all[i]
                < #[trigger] all[j] by {
                assert(all[j] == later[j - 1]);
                if i > 0 {
                    assert(all[i] == later[i - 1]);
                }
            }
        }
    }
}

} // verus!
