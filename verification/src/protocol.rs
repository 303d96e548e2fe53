//! The wire vocabulary shared by the host and its plugins: request and
//! response envelopes, payload and event variants, severity levels and the
//! command descriptor. Each type has a view that contracts speak of.

use serde_json::Value;
use vstd::prelude::*;
use vstd::std_specs::cmp::PartialEqSpecImpl;

verus! {

/// The view of an optional string.
pub open spec fn text_of(text: Option<String>) -> Option<Seq<char>> {
    match text {
        Some(s) => Some(s@),
        None => None,
    }
}

/// A command exported by a plugin.
#[derive(Debug)]
pub struct PluginCommand {
    /// Fully qualified command identifier.
    pub id: String,
    /// Human readable title surfaced in the editor.
    pub title: String,
    /// Optional command description shown in UIs.
    pub description: Option<String>,
}

/// What a [`PluginCommand`] says.
pub struct PluginCommandView {
    pub id: Seq<char>,
    pub title: Seq<char>,
    pub description: Option<Seq<char>>,
}

impl View for PluginCommand {
    type V = PluginCommandView;

    open spec fn view(&self) -> PluginCommandView {
        PluginCommandView {
            id: self.id@,
            title: self.title@,
            description: text_of(self.description),
        }
    }
}

/// The views of a list of commands, in order.
pub open spec fn commands_view(commands: Seq<PluginCommand>) -> Seq<PluginCommandView> {
    commands.map_values(|c: PluginCommand| c@)
}

/// The ids of a list of commands, in order.
pub open spec fn command_ids(commands: Seq<PluginCommandView>) -> Seq<Seq<char>> {
    commands.map_values(|c: PluginCommandView| c.id)
}

/// Copies an optional string.
pub(crate) fn clone_text(text: &Option<String>) -> (r: Option<String>)
    ensures
        text_of(r) == text_of(*text),
{
    match text {
        Some(s) => Some(s.clone()),
        None => None,
    }
}

impl PluginCommand {
    /// Create a new command declaration without a description.
    pub fn new(id: &str, title: &str) -> (r: Self)
        ensures
            r@ == (PluginCommandView { id: id@, title: title@, description: None }),
    {
        PluginCommand { id: id.to_owned(), title: title.to_owned(), description: None }
    }

    /// Attach a description to the command declaration.
    pub fn with_description(self, description: &str) -> (r: Self)
        ensures
            r@ == (PluginCommandView { description: Some(description@), ..self@ }),
    {
        PluginCommand { id: self.id, title: self.title, description: Some(description.to_owned()) }
    }
}

impl Clone for PluginCommand {
    fn clone(&self) -> (r: Self)
        ensures
            r@ == self@,
    {
        PluginCommand {
            id: self.id.clone(),
            title: self.title.clone(),
            description: clone_text(&self.description),
        }
    }
}

impl PartialEq for PluginCommand {
    fn eq(&self, other: &Self) -> (r: bool) {
        let same_description = match (&self.description, &other.description) {
            (Some(a), Some(b)) => *a == *b,
            (None, None) => true,
            _ => false,
        };
        self.id == other.id && self.title == other.title && same_description
    }
}

impl Eq for PluginCommand {

}

impl PartialEqSpecImpl for PluginCommand {
    open spec fn obeys_eq_spec() -> bool {
        true
    }

    open spec fn eq_spec(&self, other: &Self) -> bool {
        self@ == other@
    }
}

/// Copies a list of commands.
pub(crate) fn clone_commands(commands: &Vec<PluginCommand>) -> (r: Vec<PluginCommand>)
    ensures
        commands_view(r@) == commands_view(commands@),
{
    let mut copy: Vec<PluginCommand> = Vec::new();
    let mut i: usize = 0;
    while i < commands.len()
        invariant
            i <= commands.len(),
            copy.len() == i,
            forall|k: int| 0 <= k < i ==> copy[k]@ == commands[k]@,
        decreases commands.len() - i,
    {
        copy.push(commands[i].clone());
        i += 1;
    }
    assert(commands_view(copy@) =~= commands_view(commands@));
    copy
}

/// Copies a list of JSON values.
pub(crate) fn clone_values(values: &Vec<Value>) -> (r: Vec<Value>)
    ensures
        r@ == values@,
{
    let mut copy: Vec<Value> = Vec::new();
    let mut i: usize = 0;
    while i < values.len()
        invariant
            i <= values.len(),
            copy.len() == i,
            forall|k: int| 0 <= k < i ==> copy[k] == values[k],
        decreases values.len() - i,
    {
        copy.push(values[i].clone());
        i += 1;
    }
    assert(copy@ =~= values@);
    copy
}

/// Copies an optional JSON value.
pub(crate) fn clone_value(value: &Option<Value>) -> (r: Option<Value>)
    ensures
        r == *value,
{
    match value {
        Some(v) => Some(v.clone()),
        None => None,
    }
}

/// Severity levels understood by the host for logging and UI messages.
#[derive(Debug, Clone, Copy, PartialEq, Eq, Structural)]
pub enum MessageLevel {
    /// Error severity.
    Error,
    /// Warning severity.
    Warning,
    /// Informational severity.
    Info,
    /// Verbose log message.
    Log,
}

/// Host -> plugin request payload variants.
#[derive(Debug, PartialEq)]
pub enum HostRequestPayload {
    /// Initial handshake providing workspace information.
    Initialize {
        /// Optional workspace root resolved by the host.
        workspace_root: Option<String>,
    },
    /// Execute a previously registered command.
    Execute {
        /// Command identifier.
        command: String,
        /// Command arguments forwarded from the editor.
        arguments: Vec<Value>,
    },
    /// Terminate the plugin process gracefully.
    Shutdown,
}

/// What a [`HostRequestPayload`] says.
pub enum PayloadView {
    Initialize { workspace_root: Option<Seq<char>> },
    Execute { command: Seq<char>, arguments: Seq<Value> },
    Shutdown,
}

impl View for HostRequestPayload {
    type V = PayloadView;

    open spec fn view(&self) -> PayloadView {
        match *self {
            HostRequestPayload::Initialize { workspace_root } => PayloadView::Initialize {
                workspace_root: text_of(workspace_root),
            },
            HostRequestPayload::Execute { command, arguments } => PayloadView::Execute {
                command: command@,
                arguments: arguments@,
            },
            HostRequestPayload::Shutdown => PayloadView::Shutdown,
        }
    }
}

impl Clone for HostRequestPayload {
    fn clone(&self) -> (r: Self)
        ensures
            r@ == self@,
    {
        match self {
            HostRequestPayload::Initialize { workspace_root } => HostRequestPayload::Initialize {
                workspace_root: clone_text(workspace_root),
            },
            HostRequestPayload::Execute { command, arguments } => HostRequestPayload::Execute {
                command: command.clone(),
                arguments: clone_values(arguments),
            },
            HostRequestPayload::Shutdown => HostRequestPayload::Shutdown,
        }
    }
}

/// Request message sent from the host to a plugin.
#[derive(Debug, PartialEq)]
pub struct HostRequest {
    /// Unique request identifier.
    pub id: u64,
    /// Payload of the request.
    pub payload: HostRequestPayload,
}

/// What a [`HostRequest`] says.
pub struct RequestView {
    pub id: u64,
    pub payload: PayloadView,
}

impl View for HostRequest {
    type V = RequestView;

    open spec fn view(&self) -> RequestView {
        RequestView { id: self.id, payload: self.payload@ }
    }
}

impl Clone for HostRequest {
    fn clone(&self) -> (r: Self)
        ensures
            r@ == self@,
    {
        HostRequest { id: self.id, payload: self.payload.clone() }
    }
}

/// Response kinds emitted by a plugin.
#[derive(Debug, PartialEq)]
pub enum PluginResponse {
    /// Successful initialization containing command metadata.
    Initialized {
        /// Commands exposed by the plugin.
        commands: Vec<PluginCommand>,
    },
    /// Command executed successfully.
    CommandResult {
        /// Optional command return value.
        result: Option<Value>,
    },
    /// Command execution failed with an error message.
    CommandError {
        /// Human readable error string.
        message: String,
    },
    /// Acknowledge completion (used for shutdown, etc.).
    Acknowledge,
}

/// What a [`PluginResponse`] says.
pub enum ResponseView {
    Initialized { commands: Seq<PluginCommandView> },
    CommandResult { result: Option<Value> },
    CommandError { message: Seq<char> },
    Acknowledge,
}

impl View for PluginResponse {
    type V = ResponseView;

    open spec fn view(&self) -> ResponseView {
        match *self {
            PluginResponse::Initialized { commands } => ResponseView::Initialized {
                commands: commands_view(commands@),
            },
            PluginResponse::CommandResult { result } => ResponseView::CommandResult { result },
            PluginResponse::CommandError { message } => ResponseView::CommandError {
                message: message@,
            },
            PluginResponse::Acknowledge => ResponseView::Acknowledge,
        }
    }
}

impl Clone for PluginResponse {
    fn clone(&self) -> (r: Self)
        ensures
            r@ == self@,
    {
        match self {
            PluginResponse::Initialized { commands } => PluginResponse::Initialized {
                commands: clone_commands(commands),
            },
            PluginResponse::CommandResult { result } => PluginResponse::CommandResult {
                result: clone_value(result),
            },
            PluginResponse::CommandError { message } => PluginResponse::CommandError {
                message: message.clone(),
            },
            PluginResponse::Acknowledge => PluginResponse::Acknowledge,
        }
    }
}

/// Out-of-band events emitted by a plugin.
#[derive(Debug, PartialEq)]
pub enum PluginEvent {
    /// Request the host to surface a status / error message to the user.
    ShowMessage {
        /// Message severity.
        level: MessageLevel,
        /// Message contents.
        message: String,
    },
    /// Emit a log message that should end up in the editor's logs.
    Log {
        /// Log severity.
        level: MessageLevel,
        /// Log message.
        message: String,
    },
}

/// What a [`PluginEvent`] says.
pub enum EventView {
    ShowMessage { level: MessageLevel, message: Seq<char> },
    Log { level: MessageLevel, message: Seq<char> },
}

impl View for PluginEvent {
    type V = EventView;

    open spec fn view(&self) -> EventView {
        match *self {
            PluginEvent::ShowMessage { level, message } => EventView::ShowMessage {
                level,
                message: message@,
            },
            PluginEvent::Log { level, message } => EventView::Log { level, message: message@ },
        }
    }
}

impl Clone for PluginEvent {
    fn clone(&self) -> (r: Self)
        ensures
            r@ == self@,
    {
        match self {
            PluginEvent::ShowMessage { level, message } => PluginEvent::ShowMessage {
                level: *level,
                message: message.clone(),
            },
            PluginEvent::Log { level, message } => PluginEvent::Log {
                level: *level,
                message: message.clone(),
            },
        }
    }
}

/// Message emitted by the plugin process towards the host.
#[derive(Debug, PartialEq)]
pub enum PluginMessage {
    /// Response to a host request.
    Response {
        /// Correlates with the originating host request.
        id: u64,
        /// Outcome of the request.
        result: PluginResponse,
    },
    /// Asynchronous event notification.
    Event {
        /// Event payload.
        event: PluginEvent,
    },
}

/// What a [`PluginMessage`] says.
pub enum MessageView {
    Response { id: u64, result: ResponseView },
    Event { event: EventView },
}

impl View for PluginMessage {
    type V = MessageView;

    open spec fn view(&self) -> MessageView {
        match *self {
            PluginMessage::Response { id, result } => MessageView::Response { id, result: result@ },
            PluginMessage::Event { event } => MessageView::Event { event: event@ },
        }
    }
}

impl Clone for PluginMessage {
    fn clone(&self) -> (r: Self)
        ensures
            r@ == self@,
    {
        match self {
            PluginMessage::Response { id, result } => PluginMessage::Response {
                id: *id,
                result: result.clone(),
            },
            PluginMessage::Event { event } => PluginMessage::Event { event: event.clone() },
        }
    }
}

/// The views of a list of messages, in order.
pub open spec fn messages_view(messages: Seq<PluginMessage>) -> Seq<MessageView> {
    messages.map_values(|m: PluginMessage| m@)
}

/// The views of a list of events, in order.
pub open spec fn events_view(events: Seq<PluginEvent>) -> Seq<EventView> {
    events.map_values(|e: PluginEvent| e@)
}

} // verus!
