//! The wire form of the protocol: which JSON value stands for which message,
//! and the lines that carry them.
//!
//! For every message type there are three things here. `wire_*` says exactly
//! which JSON value the encoder writes for a message. `parse_*` says which
//! message a reader takes from a JSON value, where it takes one at all: members
//! that the protocol does not name are ignored, optional members may be left
//! out. The `encode_*` and `decode_*` functions compute the two.

use crate::json::{
    array_value, distinct_keys, json_field, json_fields, json_items, json_null, json_parse,
    json_render, json_text, json_u64, member, members_of, null_value, number_value,
    object_value, parse_text, render_text, text_value,
};
use crate::protocol::{
    commands_view, EventView, HostRequest, HostRequestPayload, MessageLevel, MessageView,
    PayloadView, PluginCommand, PluginCommandView, PluginEvent, PluginMessage, PluginResponse,
    RequestView, ResponseView, clone_values, text_of,
};
use crate::text::{contains_char, same_text};
use serde_json::Value;
use vstd::prelude::*;
use vstd::string::StringExecFns;

verus! {

/// `v` is an object whose members are exactly those named by `keys`.
pub open spec fn has_members(v: Value, keys: Set<Seq<char>>) -> bool {
    match json_fields(v) {
        Some(members) => members.dom() =~= keys,
        None => false,
    }
}

/// The text of the member of `v` under `key`, where `v` is an object that has
/// such a member and it is a string.
pub open spec fn field_text(v: Value, key: Seq<char>) -> Option<Seq<char>> {
    match json_field(v, key) {
        Some(f) => json_text(f),
        None => None,
    }
}

/// An optional string as a reader takes it: left out or `null` for none, a
/// string for some; anything else is refused (the outer `None`).
pub open spec fn parse_optional_text(field: Option<Value>) -> Option<Option<Seq<char>>> {
    match field {
        None => Some(None),
        Some(f) => if json_null(f) {
            Some(None)
        } else {
            match json_text(f) {
                Some(t) => Some(Some(t)),
                None => None,
            }
        },
    }
}

/// In an object built from pairs with distinct keys, each pair is a member.
proof fn lemma_members_of(pairs: Seq<(String, Value)>)
    requires
        distinct_keys(pairs),
    ensures
        forall|i: int|
            0 <= i < pairs.len() ==> members_of(pairs).contains_key((#[trigger] pairs[i]).0@)
                && members_of(pairs)[pairs[i].0@] == pairs[i].1,
{
    assert forall|i: int| 0 <= i < pairs.len() implies members_of(pairs).contains_key(
        (#[trigger] pairs[i]).0@,
    ) && members_of(pairs)[pairs[i].0@] == pairs[i].1 by {
        let key = pairs[i].0@;
        let j = choose|j: int| 0 <= j < pairs.len() && (#[trigger] pairs[j]).0@ == key;
        if j < i {
            assert(pairs[j].0@ != pairs[i].0@);
        } else if i < j {
            assert(pairs[i].0@ != pairs[j].0@);
        }
    }
}

/// The object with the given members, whose keys differ: each pair is a
/// member of it, and it has no other.
pub(crate) fn object_of(pairs: Vec<(String, Value)>) -> (r: Value)
    requires
        distinct_keys(pairs@),
    ensures
        json_fields(r) == Some(members_of(pairs@)),
        forall|i: int|
            0 <= i < pairs.len() ==> json_field(r, (#[trigger] pairs[i]).0@) == Some(pairs[i].1),
{
    proof {
        lemma_members_of(pairs@);
    }
    object_value(pairs)
}

/// The object with the one member `key`.
pub(crate) fn object_1(key: &str, value: Value) -> (r: Value)
    ensures
        has_members(r, set![key@]),
        json_field(r, key@) == Some(value),
{
    let pairs = vec![(key.to_owned(), value)];
    proof {
        assert(pairs@[0].0@ == key@);
        assert(members_of(pairs@).dom() =~= set![key@]);
    }
    object_of(pairs)
}

/// The object with the two members `key_a` and `key_b`.
pub(crate) fn object_2(key_a: &str, a: Value, key_b: &str, b: Value) -> (r: Value)
    requires
        key_a@ != key_b@,
    ensures
        has_members(r, set![key_a@, key_b@]),
        json_field(r, key_a@) == Some(a),
        json_field(r, key_b@) == Some(b),
{
    let pairs = vec![(key_a.to_owned(), a), (key_b.to_owned(), b)];
    proof {
        assert(pairs@[0].0@ == key_a@);
        assert(pairs@[1].0@ == key_b@);
        assert(members_of(pairs@).dom() =~= set![key_a@, key_b@]);
    }
    object_of(pairs)
}

/// The object with the three members `key_a`, `key_b` and `key_c`.
pub(crate) fn object_3(key_a: &str, a: Value, key_b: &str, b: Value, key_c: &str, c: Value) -> (r:
    Value)
    requires
        key_a@ != key_b@,
        key_a@ != key_c@,
        key_b@ != key_c@,
    ensures
        has_members(r, set![key_a@, key_b@, key_c@]),
        json_field(r, key_a@) == Some(a),
        json_field(r, key_b@) == Some(b),
        json_field(r, key_c@) == Some(c),
{
    let pairs = vec![(key_a.to_owned(), a), (key_b.to_owned(), b), (key_c.to_owned(), c)];
    proof {
        assert(pairs@[0].0@ == key_a@);
        assert(pairs@[1].0@ == key_b@);
        assert(pairs@[2].0@ == key_c@);
        assert(members_of(pairs@).dom() =~= set![key_a@, key_b@, key_c@]);
    }
    object_of(pairs)
}

/// The member names and tags of the protocol differ from one another.
proof fn lemma_names_differ()
    ensures
        "id"@ != "payload"@,
        "id"@ != "title"@,
        "id"@ != "description"@,
        "title"@ != "description"@,
        "type"@ != "workspace_root"@,
        "type"@ != "command"@,
        "type"@ != "arguments"@,
        "command"@ != "arguments"@,
        "type"@ != "id"@,
        "type"@ != "result"@,
        "id"@ != "result"@,
        "type"@ != "event"@,
        "type"@ != "commands"@,
        "type"@ != "message"@,
        "type"@ != "level"@,
        "initialize"@ != "execute"@,
        "initialize"@ != "shutdown"@,
        "execute"@ != "shutdown"@,
        "response"@ != "event"@,
        "initialized"@ != "command_result"@,
        "initialized"@ != "command_error"@,
        "command_result"@ != "command_error"@,
        "command_result"@ != "acknowledge"@,
        "command_error"@ != "acknowledge"@,
        "show_message"@ != "log"@,
        "error"@ != "warning"@,
        "error"@ != "info"@,
        "error"@ != "log"@,
        "warning"@ != "info"@,
        "warning"@ != "log"@,
        "info"@ != "log"@,
        "level"@ != "message"@,
        "initialized"@ != "acknowledge"@,
{
    reveal_strlit("id");
    reveal_strlit("payload");
    reveal_strlit("title");
    reveal_strlit("description");
    reveal_strlit("type");
    reveal_strlit("workspace_root");
    reveal_strlit("command");
    reveal_strlit("arguments");
    reveal_strlit("result");
    reveal_strlit("event");
    reveal_strlit("commands");
    reveal_strlit("message");
    reveal_strlit("level");
    reveal_strlit("initialize");
    reveal_strlit("execute");
    reveal_strlit("shutdown");
    reveal_strlit("response");
    reveal_strlit("initialized");
    reveal_strlit("command_result");
    reveal_strlit("command_error");
    reveal_strlit("acknowledge");
    reveal_strlit("show_message");
    reveal_strlit("log");
    reveal_strlit("error");
    reveal_strlit("warning");
    reveal_strlit("info");
    assert("id"@.len() != "payload"@.len());
    assert("id"@.len() != "title"@.len());
    assert("id"@.len() != "description"@.len());
    assert("title"@.len() != "description"@.len());
    assert("type"@.len() != "workspace_root"@.len());
    assert("type"@.len() != "command"@.len());
    assert("type"@.len() != "arguments"@.len());
    assert("command"@.len() != "arguments"@.len());
    assert("type"@.len() != "id"@.len());
    assert("type"@.len() != "result"@.len());
    assert("id"@.len() != "result"@.len());
    assert("type"@.len() != "event"@.len());
    assert("type"@.len() != "commands"@.len());
    assert("type"@.len() != "message"@.len());
    assert("type"@.len() != "level"@.len());
    assert("initialize"@.len() != "execute"@.len());
    assert("initialize"@.len() != "shutdown"@.len());
    assert("execute"@.len() != "shutdown"@.len());
    assert("response"@.len() != "event"@.len());
    assert("initialized"@.len() != "command_result"@.len());
    assert("initialized"@.len() != "command_error"@.len());
    assert("command_result"@.len() != "command_error"@.len());
    assert("command_result"@.len() != "acknowledge"@.len());
    assert("command_error"@.len() != "acknowledge"@.len());
    assert("show_message"@.len() != "log"@.len());
    assert("error"@.len() != "warning"@.len());
    assert("error"@.len() != "info"@.len());
    assert("error"@.len() != "log"@.len());
    assert("warning"@.len() != "info"@.len());
    assert("warning"@.len() != "log"@.len());
    assert("info"@.len() != "log"@.len());
    assert("level"@.len() != "message"@.len());
    assert("initialized"@[0] != "acknowledge"@[0]);
}

/// The tag that stands for a severity level.
pub open spec fn level_tag(level: MessageLevel) -> Seq<char> {
    match level {
        MessageLevel::Error => "error"@,
        MessageLevel::Warning => "warning"@,
        MessageLevel::Info => "info"@,
        MessageLevel::Log => "log"@,
    }
}

/// The severity level that a reader takes from a JSON value.
pub open spec fn parse_level(v: Value) -> Option<MessageLevel> {
    match json_text(v) {
        Some(tag) => if tag == "error"@ {
            Some(MessageLevel::Error)
        } else if tag == "warning"@ {
            Some(MessageLevel::Warning)
        } else if tag == "info"@ {
            Some(MessageLevel::Info)
        } else if tag == "log"@ {
            Some(MessageLevel::Log)
        } else {
            None
        },
        None => None,
    }
}

/// A severity level is written as its tag.
pub open spec fn wire_level(v: Value, level: MessageLevel) -> bool {
    json_text(v) == Some(level_tag(level))
}

/// Writes a severity level.
pub fn encode_level(level: MessageLevel) -> (r: Value)
    ensures
        wire_level(r, level),
{
    let tag = match level {
        MessageLevel::Error => "error",
        MessageLevel::Warning => "warning",
        MessageLevel::Info => "info",
        MessageLevel::Log => "log",
    };
    text_value(tag.to_owned())
}

/// Reads a severity level.
pub fn decode_level(v: &Value) -> (r: Option<MessageLevel>)
    ensures
        r == parse_level(*v),
{
    match v.as_str() {
        Some(tag) => if same_text(tag, "error") {
            Some(MessageLevel::Error)
        } else if same_text(tag, "warning") {
            Some(MessageLevel::Warning)
        } else if same_text(tag, "info") {
            Some(MessageLevel::Info)
        } else if same_text(tag, "log") {
            Some(MessageLevel::Log)
        } else {
            None
        },
        None => None,
    }
}

/// Reads the string member of `v` under `key`.
fn decode_field_text<'a>(v: &'a Value, key: &str) -> (r: Option<&'a str>)
    ensures
        match r {
            Some(text) => field_text(*v, key@) == Some(text@),
            None => field_text(*v, key@) is None,
        },
{
    match member(v, key) {
        Some(f) => f.as_str(),
        None => None,
    }
}

/// Reads an optional string.
fn decode_optional_text(field: Option<&Value>) -> (r: Option<Option<String>>)
    ensures
        match r {
            Some(text) => parse_optional_text(
                match field {
                    Some(f) => Some(*f),
                    None => None,
                },
            ) == Some(text_of(text)),
            None => parse_optional_text(
                match field {
                    Some(f) => Some(*f),
                    None => None,
                },
            ) is None,
        },
{
    match field {
        None => Some(None),
        Some(f) => if f.is_null() {
            Some(None)
        } else {
            match f.as_str() {
                Some(t) => Some(Some(t.to_owned())),
                None => None,
            }
        },
    }
}

/// The command descriptor that a reader takes from a JSON value: `id` and
/// `title` are required strings, `description` an optional one.
pub open spec fn parse_command(v: Value) -> Option<PluginCommandView> {
    match (
        field_text(v, "id"@),
        field_text(v, "title"@),
        parse_optional_text(json_field(v, "description"@)),
    ) {
        (Some(id), Some(title), Some(description)) => Some(
            PluginCommandView { id, title, description },
        ),
        _ => None,
    }
}

/// A string is written as a JSON string.
pub open spec fn wire_text(v: Value, text: Seq<char>) -> bool {
    json_text(v) == Some(text) && !json_null(v)
}

/// An optional string is written as a JSON string, or as `null` for none.
pub open spec fn wire_optional_text(v: Value, text: Option<Seq<char>>) -> bool {
    match text {
        Some(t) => wire_text(v, t),
        None => json_null(v),
    }
}

/// The member of `v` under `key` is the string `text`.
pub open spec fn has_text(v: Value, key: Seq<char>, text: Seq<char>) -> bool {
    match json_field(v, key) {
        Some(f) => wire_text(f, text),
        None => false,
    }
}

/// A command descriptor is written as an object with `id` and `title`, and
/// with `description` where there is one.
pub open spec fn wire_command(v: Value, command: PluginCommandView) -> bool {
    &&& has_text(v, "id"@, command.id)
    &&& has_text(v, "title"@, command.title)
    &&& match command.description {
        Some(description) => {
            &&& has_members(v, set!["id"@, "title"@, "description"@])
            &&& has_text(v, "description"@, description)
        },
        None => has_members(v, set!["id"@, "title"@]),
    }
}

/// Writes a command descriptor.
pub fn encode_command(command: &PluginCommand) -> (r: Value)
    ensures
        wire_command(r, command@),
{
    proof {
        lemma_names_differ();
    }
    let id = text_value(command.id.clone());
    let title = text_value(command.title.clone());
    match &command.description {
        Some(description) => object_3(
            "id",
            id,
            "title",
            title,
            "description",
            text_value(description.clone()),
        ),
        None => object_2("id", id, "title", title),
    }
}

/// Reads a command descriptor.
pub fn decode_command(v: &Value) -> (r: Option<PluginCommand>)
    ensures
        match r {
            Some(command) => parse_command(*v) == Some(command@),
            None => parse_command(*v) is None,
        },
{
    let id = match decode_field_text(v, "id") {
        Some(id) => id,
        None => { return None; },
    };
    let title = match decode_field_text(v, "title") {
        Some(title) => title,
        None => { return None; },
    };
    let description = match decode_optional_text(member(v, "description")) {
        Some(description) => description,
        None => { return None; },
    };
    Some(PluginCommand { id: id.to_owned(), title: title.to_owned(), description })
}

/// What is written for a command descriptor is read back as the same.
pub proof fn lemma_command_round_trip(v: Value, command: PluginCommandView)
    requires
        wire_command(v, command),
    ensures
        parse_command(v) == Some(command),
{
    let members = json_fields(v).unwrap();
    match command.description {
        Some(description) => {
            assert(members.dom().contains("description"@));
        },
        None => {
            lemma_names_differ();
            assert(!members.dom().contains("description"@));
        },
    }
}

/// The command list that a reader takes from the elements of a JSON array:
/// every element has to be a command descriptor.
pub open spec fn parse_commands(items: Seq<Value>) -> Option<Seq<PluginCommandView>> {
    if forall|i: int| 0 <= i < items.len() ==> parse_command(#[trigger] items[i]) is Some {
        Some(Seq::new(items.len(), |i: int| parse_command(items[i]).unwrap()))
    } else {
        None
    }
}

/// A command list is written element by element, in order.
pub open spec fn wire_commands(items: Seq<Value>, commands: Seq<PluginCommandView>) -> bool {
    &&& items.len() == commands.len()
    &&& forall|i: int| 0 <= i < items.len() ==> wire_command(#[trigger] items[i], commands[i])
}

/// Writes a command list.
pub fn encode_commands(commands: &Vec<PluginCommand>) -> (r: Vec<Value>)
    ensures
        wire_commands(r@, commands_view(commands@)),
{
    let mut items: Vec<Value> = Vec::new();
    let mut i: usize = 0;
    while i < commands.len()
        invariant
            i <= commands.len(),
            items.len() == i,
            forall|k: int| 0 <= k < i ==> wire_command(#[trigger] items[k], commands[k]@),
        decreases commands.len() - i,
    {
        items.push(encode_command(&commands[i]));
        i += 1;
    }
    items
}

/// Reads a command list.
pub fn decode_commands(items: &Vec<Value>) -> (r: Option<Vec<PluginCommand>>)
    ensures
        match r {
            Some(commands) => parse_commands(items@) == Some(commands_view(commands@)),
            None => parse_commands(items@) is None,
        },
{
    let mut commands: Vec<PluginCommand> = Vec::new();
    let mut i: usize = 0;
    while i < items.len()
        invariant
            i <= items.len(),
            commands.len() == i,
            forall|k: int| 0 <= k < i ==> parse_command(#[trigger] items[k]) == Some(commands[k]@),
        decreases items.len() - i,
    {
        match decode_command(&items[i]) {
            Some(command) => {
                commands.push(command);
            },
            None => {
                assert(parse_command(items@[i as int]) is None);
                return None;
            },
        }
        i += 1;
    }
    assert(parse_commands(items@).unwrap() =~= commands_view(commands@));
    Some(commands)
}

/// What is written for a command list is read back as the same.
pub proof fn lemma_commands_round_trip(items: Seq<Value>, commands: Seq<PluginCommandView>)
    requires
        wire_commands(items, commands),
    ensures
        parse_commands(items) == Some(commands),
{
    assert forall|i: int| 0 <= i < items.len() implies parse_command(#[trigger] items[i]) == Some(
        commands[i],
    ) by {
        lemma_command_round_trip(items[i], commands[i]);
    }
    assert(parse_commands(items).unwrap() =~= commands);
}

/// The event that a reader takes from a JSON value: `type` is the kind,
/// `level` the severity, `message` the text.
pub open spec fn parse_event(v: Value) -> Option<EventView> {
    match (field_text(v, "type"@), json_field(v, "level"@), field_text(v, "message"@)) {
        (Some(tag), Some(l), Some(message)) => match parse_level(l) {
            Some(level) => if tag == "show_message"@ {
                Some(EventView::ShowMessage { level, message })
            } else if tag == "log"@ {
                Some(EventView::Log { level, message })
            } else {
                None
            },
            None => None,
        },
        _ => None,
    }
}

/// The tag that stands for a kind of event.
pub open spec fn event_tag(event: EventView) -> Seq<char> {
    match event {
        EventView::ShowMessage { .. } => "show_message"@,
        EventView::Log { .. } => "log"@,
    }
}

/// The severity of an event.
pub open spec fn event_level(event: EventView) -> MessageLevel {
    match event {
        EventView::ShowMessage { level, .. } => level,
        EventView::Log { level, .. } => level,
    }
}

/// The text of an event.
pub open spec fn event_message(event: EventView) -> Seq<char> {
    match event {
        EventView::ShowMessage { message, .. } => message,
        EventView::Log { message, .. } => message,
    }
}

/// An event is written as an object with `type`, `level` and `message`.
pub open spec fn wire_event(v: Value, event: EventView) -> bool {
    &&& has_members(v, set!["type"@, "level"@, "message"@])
    &&& has_text(v, "type"@, event_tag(event))
    &&& match json_field(v, "level"@) {
        Some(l) => wire_level(l, event_level(event)),
        None => false,
    }
    &&& has_text(v, "message"@, event_message(event))
}

/// Writes an event. A reader takes the same event from what is written.
pub fn encode_event(event: &PluginEvent) -> (r: Value)
    ensures
        wire_event(r, event@),
        parse_event(r) == Some(event@),
{
    proof {
        lemma_names_differ();
    }
    let r = match event {
        PluginEvent::ShowMessage { level, message } => object_3(
            "type",
            text_value("show_message".to_owned()),
            "level",
            encode_level(*level),
            "message",
            text_value(message.clone()),
        ),
        PluginEvent::Log { level, message } => object_3(
            "type",
            text_value("log".to_owned()),
            "level",
            encode_level(*level),
            "message",
            text_value(message.clone()),
        ),
    };
    proof {
        lemma_event_round_trip(r, event@);
    }
    r
}

/// Reads an event.
pub fn decode_event(v: &Value) -> (r: Option<PluginEvent>)
    ensures
        match r {
            Some(event) => parse_event(*v) == Some(event@),
            None => parse_event(*v) is None,
        },
{
    let tag = match decode_field_text(v, "type") {
        Some(tag) => tag,
        None => { return None; },
    };
    let level = match member(v, "level") {
        Some(l) => match decode_level(l) {
            Some(level) => level,
            None => { return None; },
        },
        None => { return None; },
    };
    let message = match decode_field_text(v, "message") {
        Some(message) => message,
        None => { return None; },
    };
    if same_text(tag, "show_message") {
        Some(PluginEvent::ShowMessage { level, message: message.to_owned() })
    } else if same_text(tag, "log") {
        Some(PluginEvent::Log { level, message: message.to_owned() })
    } else {
        None
    }
}

/// What is written for a severity level is read back as the same.
pub proof fn lemma_level_round_trip(v: Value, level: MessageLevel)
    requires
        wire_level(v, level),
    ensures
        parse_level(v) == Some(level),
{
    lemma_names_differ();
}

/// What is written for an event is read back as the same.
pub proof fn lemma_event_round_trip(v: Value, event: EventView)
    requires
        wire_event(v, event),
    ensures
        parse_event(v) == Some(event),
{
    lemma_names_differ();
    lemma_level_round_trip(json_field(v, "level"@).unwrap(), event_level(event));
}

/// The response that a reader takes from a JSON value, by its `type`. A
/// `command_result` without `result`, or with `null`, has no value.
pub open spec fn parse_response(v: Value) -> Option<ResponseView> {
    match field_text(v, "type"@) {
        Some(tag) => if tag == "initialized"@ {
            match json_field(v, "commands"@) {
                Some(list) => match json_items(list) {
                    Some(items) => match parse_commands(items) {
                        Some(commands) => Some(ResponseView::Initialized { commands }),
                        None => None,
                    },
                    None => None,
                },
                None => None,
            }
        } else if tag == "command_result"@ {
            match json_field(v, "result"@) {
                Some(value) => if json_null(value) {
                    Some(ResponseView::CommandResult { result: None })
                } else {
                    Some(ResponseView::CommandResult { result: Some(value) })
                },
                None => Some(ResponseView::CommandResult { result: None }),
            }
        } else if tag == "command_error"@ {
            match field_text(v, "message"@) {
                Some(message) => Some(ResponseView::CommandError { message }),
                None => None,
            }
        } else if tag == "acknowledge"@ {
            Some(ResponseView::Acknowledge)
        } else {
            None
        },
        None => None,
    }
}

/// A response is written as an object with its `type` and the members of its
/// kind; a `command_result` without a value carries `null`.
pub open spec fn wire_response(v: Value, response: ResponseView) -> bool {
    match response {
        ResponseView::Initialized { commands } => {
            &&& has_members(v, set!["type"@, "commands"@])
            &&& has_text(v, "type"@, "initialized"@)
            &&& match json_field(v, "commands"@) {
                Some(list) => match json_items(list) {
                    Some(items) => wire_commands(items, commands),
                    None => false,
                },
                None => false,
            }
        },
        ResponseView::CommandResult { result } => {
            &&& has_members(v, set!["type"@, "result"@])
            &&& has_text(v, "type"@, "command_result"@)
            &&& match json_field(v, "result"@) {
                Some(value) => match result {
                    Some(x) => value == x,
                    None => json_null(value),
                },
                None => false,
            }
        },
        ResponseView::CommandError { message } => {
            &&& has_members(v, set!["type"@, "message"@])
            &&& has_text(v, "type"@, "command_error"@)
            &&& has_text(v, "message"@, message)
        },
        ResponseView::Acknowledge => {
            &&& has_members(v, set!["type"@])
            &&& has_text(v, "type"@, "acknowledge"@)
        },
    }
}

/// Whether a response comes back from the wire as it went: a `command_result`
/// whose value is `null` comes back without a value.
pub open spec fn response_survives(response: ResponseView) -> bool {
    match response {
        ResponseView::CommandResult { result: Some(value) } => !json_null(value),
        _ => true,
    }
}

/// Writes a response. A reader takes the same response from what is
/// written, but for a `command_result` whose value is `null`.
pub fn encode_response(response: &PluginResponse) -> (r: Value)
    ensures
        wire_response(r, response@),
        response_survives(response@) ==> parse_response(r) == Some(response@),
{
    proof {
        lemma_names_differ();
    }
    let r = match response {
        PluginResponse::Initialized { commands } => object_2(
            "type",
            text_value("initialized".to_owned()),
            "commands",
            array_value(encode_commands(commands)),
        ),
        PluginResponse::CommandResult { result } => {
            let value = match result {
                Some(value) => value.clone(),
                None => null_value(),
            };
            object_2("type", text_value("command_result".to_owned()), "result", value)
        },
        PluginResponse::CommandError { message } => object_2(
            "type",
            text_value("command_error".to_owned()),
            "message",
            text_value(message.clone()),
        ),
        PluginResponse::Acknowledge => object_1("type", text_value("acknowledge".to_owned())),
    };
    proof {
        if response_survives(response@) {
            lemma_response_round_trip(r, response@);
        }
    }
    r
}

/// Reads a response.
pub fn decode_response(v: &Value) -> (r: Option<PluginResponse>)
    ensures
        match r {
            Some(response) => parse_response(*v) == Some(response@),
            None => parse_response(*v) is None,
        },
{
    let tag = match decode_field_text(v, "type") {
        Some(tag) => tag,
        None => { return None; },
    };
    if same_text(tag, "initialized") {
        let items = match member(v, "commands") {
            Some(list) => match list.as_array() {
                Some(items) => items,
                None => { return None; },
            },
            None => { return None; },
        };
        match decode_commands(items) {
            Some(commands) => Some(PluginResponse::Initialized { commands }),
            None => None,
        }
    } else if same_text(tag, "command_result") {
        match member(v, "result") {
            Some(value) => if value.is_null() {
                Some(PluginResponse::CommandResult { result: None })
            } else {
                Some(PluginResponse::CommandResult { result: Some(value.clone()) })
            },
            None => Some(PluginResponse::CommandResult { result: None }),
        }
    } else if same_text(tag, "command_error") {
        match decode_field_text(v, "message") {
            Some(message) => Some(PluginResponse::CommandError { message: message.to_owned() }),
            None => None,
        }
    } else if same_text(tag, "acknowledge") {
        Some(PluginResponse::Acknowledge)
    } else {
        None
    }
}

/// What is written for a response is read back as the same, but for a
/// `command_result` whose value is `null`.
pub proof fn lemma_response_round_trip(v: Value, response: ResponseView)
    requires
        wire_response(v, response),
        response_survives(response),
    ensures
        parse_response(v) == Some(response),
{
    lemma_names_differ();
    match response {
        ResponseView::Initialized { commands } => {
            lemma_commands_round_trip(
                json_items(json_field(v, "commands"@).unwrap()).unwrap(),
                commands,
            );
        },
        _ => {},
    }
}

/// The message that a reader takes from a JSON value: a `response` with the
/// request's `id` and its `result`, or an `event`.
pub open spec fn parse_message(v: Value) -> Option<MessageView> {
    match field_text(v, "type"@) {
        Some(tag) => if tag == "response"@ {
            match (json_field(v, "id"@), json_field(v, "result"@)) {
                (Some(n), Some(r)) => match (json_u64(n), parse_response(r)) {
                    (Some(id), Some(result)) => Some(MessageView::Response { id, result }),
                    _ => None,
                },
                _ => None,
            }
        } else if tag == "event"@ {
            match json_field(v, "event"@) {
                Some(e) => match parse_event(e) {
                    Some(event) => Some(MessageView::Event { event }),
                    None => None,
                },
                None => None,
            }
        } else {
            None
        },
        None => None,
    }
}

/// A message is written as an object with its `type` and the members of its
/// kind.
pub open spec fn wire_message(v: Value, message: MessageView) -> bool {
    match message {
        MessageView::Response { id, result } => {
            &&& has_members(v, set!["type"@, "id"@, "result"@])
            &&& has_text(v, "type"@, "response"@)
            &&& match json_field(v, "id"@) {
                Some(n) => json_u64(n) == Some(id),
                None => false,
            }
            &&& match json_field(v, "result"@) {
                Some(r) => wire_response(r, result),
                None => false,
            }
        },
        MessageView::Event { event } => {
            &&& has_members(v, set!["type"@, "event"@])
            &&& has_text(v, "type"@, "event"@)
            &&& match json_field(v, "event"@) {
                Some(e) => wire_event(e, event),
                None => false,
            }
        },
    }
}

/// Whether a message comes back from the wire as it went.
pub open spec fn message_survives(message: MessageView) -> bool {
    match message {
        MessageView::Response { result, .. } => response_survives(result),
        MessageView::Event { .. } => true,
    }
}

/// Writes a message of a plugin. A reader takes the same message from what
/// is written, but for a `command_result` whose value is `null`.
pub fn encode_message(message: &PluginMessage) -> (r: Value)
    ensures
        wire_message(r, message@),
        message_survives(message@) ==> parse_message(r) == Some(message@),
{
    proof {
        lemma_names_differ();
    }
    let r = match message {
        PluginMessage::Response { id, result } => object_3(
            "type",
            text_value("response".to_owned()),
            "id",
            number_value(*id),
            "result",
            encode_response(result),
        ),
        PluginMessage::Event { event } => object_2(
            "type",
            text_value("event".to_owned()),
            "event",
            encode_event(event),
        ),
    };
    proof {
        if message_survives(message@) {
            lemma_message_round_trip(r, message@);
        }
    }
    r
}

/// Reads a message of a plugin.
pub fn decode_message(v: &Value) -> (r: Option<PluginMessage>)
    ensures
        match r {
            Some(message) => parse_message(*v) == Some(message@),
            None => parse_message(*v) is None,
        },
{
    let tag = match decode_field_text(v, "type") {
        Some(tag) => tag,
        None => { return None; },
    };
    if same_text(tag, "response") {
        let id = match member(v, "id") {
            Some(n) => match n.as_u64() {
                Some(id) => id,
                None => { return None; },
            },
            None => { return None; },
        };
        match member(v, "result") {
            Some(r) => match decode_response(r) {
                Some(result) => Some(PluginMessage::Response { id, result }),
                None => None,
            },
            None => None,
        }
    } else if same_text(tag, "event") {
        match member(v, "event") {
            Some(e) => match decode_event(e) {
                Some(event) => Some(PluginMessage::Event { event }),
                None => None,
            },
            None => None,
        }
    } else {
        None
    }
}

/// What is written for a message is read back as the same, but for a
/// `command_result` whose value is `null`.
pub proof fn lemma_message_round_trip(v: Value, message: MessageView)
    requires
        wire_message(v, message),
        message_survives(message),
    ensures
        parse_message(v) == Some(message),
{
    lemma_names_differ();
    match message {
        MessageView::Response { id, result } => {
            lemma_response_round_trip(json_field(v, "result"@).unwrap(), result);
        },
        MessageView::Event { event } => {
            lemma_event_round_trip(json_field(v, "event"@).unwrap(), event);
        },
    }
}

/// The argument list that a reader takes from the `arguments` member: the
/// elements of the array, none where the member is left out.
pub open spec fn parse_arguments(field: Option<Value>) -> Option<Seq<Value>> {
    match field {
        Some(list) => json_items(list),
        None => Some(Seq::empty()),
    }
}

/// The payload that a reader takes from a JSON value, by its `type`.
pub open spec fn parse_payload(v: Value) -> Option<PayloadView> {
    match field_text(v, "type"@) {
        Some(tag) => if tag == "initialize"@ {
            match parse_optional_text(json_field(v, "workspace_root"@)) {
                Some(workspace_root) => Some(PayloadView::Initialize { workspace_root }),
                None => None,
            }
        } else if tag == "execute"@ {
            match (field_text(v, "command"@), parse_arguments(json_field(v, "arguments"@))) {
                (Some(command), Some(arguments)) => Some(
                    PayloadView::Execute { command, arguments },
                ),
                _ => None,
            }
        } else if tag == "shutdown"@ {
            Some(PayloadView::Shutdown)
        } else {
            None
        },
        None => None,
    }
}

/// A payload is written as an object with its `type` and the members of its
/// kind; an `initialize` without a workspace root carries `null`.
pub open spec fn wire_payload(v: Value, payload: PayloadView) -> bool {
    match payload {
        PayloadView::Initialize { workspace_root } => {
            &&& has_members(v, set!["type"@, "workspace_root"@])
            &&& has_text(v, "type"@, "initialize"@)
            &&& match json_field(v, "workspace_root"@) {
                Some(root) => wire_optional_text(root, workspace_root),
                None => false,
            }
        },
        PayloadView::Execute { command, arguments } => {
            &&& has_members(v, set!["type"@, "command"@, "arguments"@])
            &&& has_text(v, "type"@, "execute"@)
            &&& has_text(v, "command"@, command)
            &&& match json_field(v, "arguments"@) {
                Some(list) => json_items(list) == Some(arguments),
                None => false,
            }
        },
        PayloadView::Shutdown => {
            &&& has_members(v, set!["type"@])
            &&& has_text(v, "type"@, "shutdown"@)
        },
    }
}

/// Writes a request payload.
pub fn encode_payload(payload: &HostRequestPayload) -> (r: Value)
    ensures
        wire_payload(r, payload@),
{
    proof {
        lemma_names_differ();
    }
    match payload {
        HostRequestPayload::Initialize { workspace_root } => {
            let root = match workspace_root {
                Some(root) => text_value(root.clone()),
                None => null_value(),
            };
            object_2("type", text_value("initialize".to_owned()), "workspace_root", root)
        },
        HostRequestPayload::Execute { command, arguments } => object_3(
            "type",
            text_value("execute".to_owned()),
            "command",
            text_value(command.clone()),
            "arguments",
            array_value(clone_values(arguments)),
        ),
        HostRequestPayload::Shutdown => object_1("type", text_value("shutdown".to_owned())),
    }
}

/// Reads a request payload.
pub fn decode_payload(v: &Value) -> (r: Option<HostRequestPayload>)
    ensures
        match r {
            Some(payload) => parse_payload(*v) == Some(payload@),
            None => parse_payload(*v) is None,
        },
{
    let tag = match decode_field_text(v, "type") {
        Some(tag) => tag,
        None => { return None; },
    };
    if same_text(tag, "initialize") {
        match decode_optional_text(member(v, "workspace_root")) {
            Some(workspace_root) => Some(HostRequestPayload::Initialize { workspace_root }),
            None => None,
        }
    } else if same_text(tag, "execute") {
        let command = match decode_field_text(v, "command") {
            Some(command) => command,
            None => { return None; },
        };
        let arguments = match member(v, "arguments") {
            Some(list) => match list.as_array() {
                Some(items) => clone_values(items),
                None => { return None; },
            },
            None => Vec::new(),
        };
        Some(HostRequestPayload::Execute { command: command.to_owned(), arguments })
    } else if same_text(tag, "shutdown") {
        Some(HostRequestPayload::Shutdown)
    } else {
        None
    }
}

/// What is written for a payload is read back as the same.
pub proof fn lemma_payload_round_trip(v: Value, payload: PayloadView)
    requires
        wire_payload(v, payload),
    ensures
        parse_payload(v) == Some(payload),
{
    lemma_names_differ();
}

/// Why a JSON value is no request.
#[derive(Debug, Clone, Copy, PartialEq, Eq, Structural)]
pub enum RequestFault {
    /// It has the shape of a request with this id, but its payload is of a
    /// `type` that the protocol does not know.
    UnknownRequest { id: u64 },
    /// It does not have the shape of a request.
    Malformed,
}

/// Whether a payload names a `type` that is none of the protocol's.
pub open spec fn unknown_payload(v: Value) -> bool {
    match field_text(v, "type"@) {
        Some(tag) => tag != "initialize"@ && tag != "execute"@ && tag != "shutdown"@,
        None => false,
    }
}

/// The request that a reader takes from a JSON value: an object with the
/// request's `id` and its `payload`.
pub open spec fn parse_request(v: Value) -> Result<RequestView, RequestFault> {
    match (json_field(v, "id"@), json_field(v, "payload"@)) {
        (Some(n), Some(p)) => match json_u64(n) {
            Some(id) => match parse_payload(p) {
                Some(payload) => Ok(RequestView { id, payload }),
                None => if unknown_payload(p) {
                    Err(RequestFault::UnknownRequest { id })
                } else {
                    Err(RequestFault::Malformed)
                },
            },
            None => Err(RequestFault::Malformed),
        },
        _ => Err(RequestFault::Malformed),
    }
}

/// A request is written as an object with `id` and `payload`.
pub open spec fn wire_request(v: Value, request: RequestView) -> bool {
    &&& has_members(v, set!["id"@, "payload"@])
    &&& match json_field(v, "id"@) {
        Some(n) => json_u64(n) == Some(request.id),
        None => false,
    }
    &&& match json_field(v, "payload"@) {
        Some(p) => wire_payload(p, request.payload),
        None => false,
    }
}

/// Writes a request of the host. A reader takes the same request from what
/// is written.
pub fn encode_request(request: &HostRequest) -> (r: Value)
    ensures
        wire_request(r, request@),
        parse_request(r) == Ok::<RequestView, RequestFault>(request@),
{
    proof {
        lemma_names_differ();
    }
    let r = object_2("id", number_value(request.id), "payload", encode_payload(&request.payload));
    proof {
        lemma_request_round_trip(r, request@);
    }
    r
}

/// Reads a request of the host.
pub fn decode_request(v: &Value) -> (r: Result<HostRequest, RequestFault>)
    ensures
        match r {
            Ok(request) => parse_request(*v) == Ok::<RequestView, RequestFault>(request@),
            Err(fault) => parse_request(*v) == Err::<RequestView, RequestFault>(fault),
        },
{
    let id = match member(v, "id") {
        Some(n) => match n.as_u64() {
            Some(id) => id,
            None => { return Err(RequestFault::Malformed); },
        },
        None => { return Err(RequestFault::Malformed); },
    };
    let p = match member(v, "payload") {
        Some(p) => p,
        None => { return Err(RequestFault::Malformed); },
    };
    match decode_payload(p) {
        Some(payload) => Ok(HostRequest { id, payload }),
        None => {
            match decode_field_text(p, "type") {
                Some(tag) => if !same_text(tag, "initialize") && !same_text(tag, "execute")
                    && !same_text(tag, "shutdown") {
                    Err(RequestFault::UnknownRequest { id })
                } else {
                    Err(RequestFault::Malformed)
                },
                None => Err(RequestFault::Malformed),
            }
        },
    }
}

/// What is written for a request is read back as the same.
pub proof fn lemma_request_round_trip(v: Value, request: RequestView)
    requires
        wire_request(v, request),
    ensures
        parse_request(v) == Ok::<RequestView, RequestFault>(request),
{
    lemma_names_differ();
    lemma_payload_round_trip(json_field(v, "payload"@).unwrap(), request.payload);
}

/// Why a message could not be put on a line.
#[derive(Debug, Clone, Copy, PartialEq, Eq, Structural)]
pub enum LineError {
    /// The JSON writer failed.
    Unwritable,
    /// The JSON text holds a raw newline, which would split the message.
    EmbeddedNewline,
}

/// What putting the text of a JSON writer on a line comes to: a text
/// without a newline gets one at its end; a text that holds one cannot be a
/// line; and there is no line where the writer gave no text.
pub open spec fn line_of_text(rendered: Option<Seq<char>>) -> Result<Seq<char>, LineError> {
    match rendered {
        Some(text) => if text.contains('\n') {
            Err(LineError::EmbeddedNewline)
        } else {
            Ok(text.push('\n'))
        },
        None => Err(LineError::Unwritable),
    }
}

/// `r` is what writing the JSON value `v` as one line comes to: the line of
/// its compact text, or the reason why there is none.
pub open spec fn writes(r: Result<String, LineError>, v: Value) -> bool {
    match r {
        Ok(line) => line_of_text(json_render(v)) == Ok::<Seq<char>, LineError>(line@),
        Err(e) => line_of_text(json_render(v)) == Err::<Seq<char>, LineError>(e),
    }
}

/// `line` carries the JSON value `v`: the compact text of `v`, which holds no
/// newline, and one newline after it.
pub open spec fn is_line_of(line: Seq<char>, v: Value) -> bool {
    line_of_text(json_render(v)) == Ok::<Seq<char>, LineError>(line)
}

/// Whether a newline stands anywhere in the text.
pub fn has_newline(text: &str) -> (r: bool)
    ensures
        r == text@.contains('\n'),
{
    contains_char(text, '\n')
}

/// Ends a JSON text with a newline, making it one line of the protocol. A
/// text that holds a newline already cannot be a line and is refused.
pub fn frame(text: String) -> (r: Result<String, LineError>)
    ensures
        match r {
            Ok(line) => !text@.contains('\n') && line@ == text@.push('\n'),
            Err(e) => text@.contains('\n') && e == LineError::EmbeddedNewline,
        },
{
    if has_newline(text.as_str()) {
        Err(LineError::EmbeddedNewline)
    } else {
        proof {
            reveal_strlit("\n");
        }
        let line = text.concat("\n");
        assert(line@ =~= text@.push('\n'));
        Ok(line)
    }
}

/// Writes a JSON value as one line: the text that the JSON writer gives for
/// it, with a newline at its end. Fails with `Unwritable` where the writer
/// fails, and with `EmbeddedNewline` where its text holds a newline.
pub fn write_line(v: &Value) -> (r: Result<String, LineError>)
    ensures
        writes(r, *v),
{
    match render_text(v) {
        Ok(text) => frame(text),
        Err(_) => Err(LineError::Unwritable),
    }
}

/// Writes a request of the host as one line: the line of a JSON value of the
/// request's wire form. Fails with `Unwritable` where the JSON writer fails on
/// that value, and with `EmbeddedNewline` where its text holds a newline.
pub fn encode_request_line(request: &HostRequest) -> (r: Result<String, LineError>)
    ensures
        exists|v: Value| wire_request(v, request@) && #[trigger] writes(r, v),
{
    let v = encode_request(request);
    write_line(&v)
}

/// Writes a message of a plugin as one line: the line of a JSON value of the
/// message's wire form. Fails with `Unwritable` where the JSON writer fails on
/// that value, and with `EmbeddedNewline` where its text holds a newline.
pub fn encode_message_line(message: &PluginMessage) -> (r: Result<String, LineError>)
    ensures
        exists|v: Value| wire_message(v, message@) && #[trigger] writes(r, v),
{
    let v = encode_message(message);
    write_line(&v)
}

/// The message that a reader takes from a line: the line has to be one JSON
/// document, and that a message.
pub open spec fn parse_message_line(line: Seq<char>) -> Option<MessageView> {
    match json_parse(line) {
        Some(v) => parse_message(v),
        None => None,
    }
}

/// Reads a message of a plugin from a line.
pub fn decode_message_line(line: &str) -> (r: Option<PluginMessage>)
    ensures
        match r {
            Some(message) => parse_message_line(line@) == Some(message@),
            None => parse_message_line(line@) is None,
        },
{
    match parse_text(line) {
        Ok(v) => decode_message(&v),
        Err(_) => None,
    }
}

/// The request that a reader takes from a line: the line has to be one JSON
/// document, and that a request.
pub open spec fn parse_request_line(line: Seq<char>) -> Result<RequestView, RequestFault> {
    match json_parse(line) {
        Some(v) => parse_request(v),
        None => Err(RequestFault::Malformed),
    }
}

/// Reads a request of the host from a line.
pub fn decode_request_line(line: &str) -> (r: Result<HostRequest, RequestFault>)
    ensures
        match r {
            Ok(request) => parse_request_line(line@) == Ok::<RequestView, RequestFault>(request@),
            Err(fault) => parse_request_line(line@) == Err::<RequestView, RequestFault>(fault),
        },
{
    match parse_text(line) {
        Ok(v) => decode_request(&v),
        Err(_) => Err(RequestFault::Malformed),
    }
}

} // verus!
