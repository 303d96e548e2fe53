//! The runtime that a plugin embeds: it keeps the plugin's handshake state and
//! command registry, dispatches each host request to the plugin's handlers and
//! hands back the messages to write, events first, the reply last.

use crate::protocol::{
    clone_commands, command_ids, commands_view, events_view, messages_view, text_of, EventView,
    HostRequest, HostRequestPayload, MessageLevel, MessageView, PayloadView, PluginCommand,
    PluginCommandView, PluginEvent, PluginMessage, PluginResponse, RequestView, ResponseView,
};
use crate::text::{blank, is_blank, same_text, texts_view};
use crate::wire::{
    decode_request_line, encode_message_line, is_line_of, parse_request_line, wire_message,
    writes, LineError, RequestFault,
};
use serde_json::Value;
use vstd::prelude::*;
use vstd::string::StringExecFns;

verus! {

/// The failure that a handler reports; its message travels to the host.
#[derive(Debug, PartialEq)]
pub struct PluginError {
    /// Human readable description of what went wrong.
    pub message: String,
}

impl View for PluginError {
    type V = Seq<char>;

    open spec fn view(&self) -> Seq<char> {
        self.message@
    }
}

impl PluginError {
    /// A failure with the given message.
    pub fn new(message: &str) -> (r: Self)
        ensures
            r@ == message@,
    {
        PluginError { message: message.to_owned() }
    }

    /// The message, as the host will show it.
    pub fn to_string(&self) -> (r: String)
        ensures
            r@ == self@,
    {
        self.message.clone()
    }
}

/// The message of the failure that a second registration of `id` gets.
pub open spec fn duplicate_command_text(id: Seq<char>) -> Seq<char> {
    "command `"@ + id + "` registered multiple times"@
}

/// The message that answers an `initialize` after the first.
pub open spec fn already_initialized_text() -> Seq<char> {
    "plugin already initialized"@
}

/// The message that answers a request of a kind that the protocol does not
/// know.
pub open spec fn unknown_request_text() -> Seq<char> {
    "unknown request"@
}

/// The message that answers an `execute` before `initialize`.
pub open spec fn not_initialized_text() -> Seq<char> {
    "plugin not initialized"@
}

/// Registrar passed to [`Plugin::initialize`] allowing command registration.
pub trait Registrar {
    /// The commands registered so far, in order of registration.
    spec fn registered(&self) -> Seq<PluginCommandView>;

    /// Register a command with the runtime. An id can be registered once: a
    /// second registration fails and leaves the registrar as it was.
    fn register_command(&mut self, command: PluginCommand) -> (r: Result<(), PluginError>)
        ensures
            r is Ok <==> !command_ids(old(self).registered()).contains(command@.id),
            r is Ok ==> final(self).registered() == old(self).registered().push(command@),
            r matches Err(e) ==> final(self).registered() == old(self).registered() && e@
                == duplicate_command_text(command@.id),
    ;
}

/// The commands that a plugin has registered, each id once.
pub struct CommandRegistry {
    commands: Vec<PluginCommand>,
}

impl CommandRegistry {
    #[verifier::type_invariant]
    spec fn distinct_ids(&self) -> bool {
        forall|i: int, j: int|
            0 <= i < j < self.commands.len() ==> self.commands[i]@.id != self.commands[j]@.id
    }

    /// An empty registry.
    pub fn new() -> (r: Self)
        ensures
            r.registered() == Seq::<PluginCommandView>::empty(),
    {
        let r = CommandRegistry { commands: Vec::new() };
        assert(commands_view(r.commands@) =~= Seq::<PluginCommandView>::empty());
        r
    }

    /// Whether a command with this id has been registered.
    pub fn contains(&self, id: &str) -> (r: bool)
        ensures
            r == command_ids(self.registered()).contains(id@),
    {
        let mut i: usize = 0;
        while i < self.commands.len()
            invariant
                i <= self.commands.len(),
                forall|k: int| 0 <= k < i ==> self.commands[k]@.id != id@,
            decreases self.commands.len() - i,
        {
            if same_text(self.commands[i].id.as_str(), id) {
                assert(command_ids(self.registered())[i as int] == id@);
                return true;
            }
            i += 1;
        }
        false
    }

    /// A copy of the registered commands, in order of registration; no id
    /// occurs twice among them.
    pub fn commands(&self) -> (r: Vec<PluginCommand>)
        ensures
            commands_view(r@) == self.registered(),
            command_ids(self.registered()).no_duplicates(),
    {
        proof {
            use_type_invariant(self);
            let ids = command_ids(self.registered());
            assert forall|i: int, j: int| 0 <= i < ids.len() && 0 <= j < ids.len() && i != j implies ids[i]
                != ids[j] by {
                if i < j {
                    assert(self.commands[i]@.id != self.commands[j]@.id);
                } else {
                    assert(self.commands[j]@.id != self.commands[i]@.id);
                }
            }
        }
        clone_commands(&self.commands)
    }
}

impl Registrar for CommandRegistry {
    closed spec fn registered(&self) -> Seq<PluginCommandView> {
        commands_view(self.commands@)
    }

    fn register_command(&mut self, command: PluginCommand) -> (r: Result<(), PluginError>) {
        proof {
            use_type_invariant(&*self);
        }
        if self.contains(command.id.as_str()) {
            let message = String::from_str("command `").concat(command.id.as_str()).concat(
                "` registered multiple times",
            );
            Err(PluginError { message })
        } else {
            let ghost before = self.commands@;
            let ghost added = command@;
            let mut commands: Vec<PluginCommand> = Vec::new();
            core::mem::swap(&mut commands, &mut self.commands);
            commands.push(command);
            proof {
                assert(commands_view(commands@) =~= commands_view(before).push(added));
                assert forall|i: int, j: int| 0 <= i < j < commands.len() implies commands[i]@.id
                    != commands[j]@.id by {
                    if j == commands.len() - 1 {
                        assert(command_ids(commands_view(before))[i] == commands[i]@.id);
                    }
                }
            }
            self.commands = commands;
            Ok(())
        }
    }
}

/// Context available during plugin initialization. Messages for the host are
/// collected here and written before the reply to `initialize`.
pub struct InitializeContext {
    events: Vec<PluginEvent>,
    workspace_root: Option<String>,
}

impl InitializeContext {
    /// The events emitted through this context so far, oldest first.
    pub closed spec fn emitted(&self) -> Seq<EventView> {
        events_view(self.events@)
    }

    /// The workspace root that the host announced, if any.
    pub closed spec fn root(&self) -> Option<Seq<char>> {
        text_of(self.workspace_root)
    }

    /// A context for one `initialize` request, with nothing emitted yet.
    pub fn new(workspace_root: Option<String>) -> (r: Self)
        ensures
            r.emitted() == Seq::<EventView>::empty(),
            r.root() == text_of(workspace_root),
    {
        let r = InitializeContext { events: Vec::new(), workspace_root };
        assert(events_view(r.events@) =~= Seq::<EventView>::empty());
        r
    }

    /// Returns the workspace root provided by the host, if available.
    pub fn workspace_root(&self) -> (r: Option<&str>)
        ensures
            match r {
                Some(root) => self.root() == Some(root@),
                None => self.root() is None,
            },
    {
        match &self.workspace_root {
            Some(root) => Some(root.as_str()),
            None => None,
        }
    }

    /// The events that were emitted through this context, oldest first.
    pub fn into_events(self) -> (r: Vec<PluginEvent>)
        ensures
            events_view(r@) == self.emitted(),
    {
        self.events
    }

    /// Emit a user facing message through the host.
    pub fn show_message(&mut self, level: MessageLevel, message: &str)
        ensures
            final(self).emitted() == old(self).emitted().push(
                EventView::ShowMessage { level, message: message@ },
            ),
            final(self).root() == old(self).root(),
    {
        let ghost before = self.events@;
        self.events.push(PluginEvent::ShowMessage { level, message: message.to_owned() });
        assert(events_view(self.events@) =~= events_view(before).push(
            EventView::ShowMessage { level, message: message@ },
        ));
    }

    /// Emit a log message routed to the host logs.
    pub fn log(&mut self, level: MessageLevel, message: &str)
        ensures
            final(self).emitted() == old(self).emitted().push(
                EventView::Log { level, message: message@ },
            ),
            final(self).root() == old(self).root(),
    {
        let ghost before = self.events@;
        self.events.push(PluginEvent::Log { level, message: message.to_owned() });
        assert(events_view(self.events@) =~= events_view(before).push(
            EventView::Log { level, message: message@ },
        ));
    }
}

/// Execution context made available to command handlers. Messages for the
/// host are collected here and written before the reply to `execute`.
pub struct CommandContext<'a> {
    events: Vec<PluginEvent>,
    plugin_name: &'a str,
}

impl<'a> CommandContext<'a> {
    /// The events emitted through this context so far, oldest first.
    pub closed spec fn emitted(&self) -> Seq<EventView> {
        events_view(self.events@)
    }

    /// The name of the plugin whose command runs.
    pub closed spec fn name(&self) -> Seq<char> {
        self.plugin_name@
    }

    /// A context for one `execute` request, with nothing emitted yet.
    pub fn new(plugin_name: &'a str) -> (r: Self)
        ensures
            r.emitted() == Seq::<EventView>::empty(),
            r.name() == plugin_name@,
    {
        let r = CommandContext { events: Vec::new(), plugin_name };
        assert(events_view(r.events@) =~= Seq::<EventView>::empty());
        r
    }

    /// The name of the plugin whose command runs.
    pub fn plugin_name(&self) -> (r: &'a str)
        ensures
            r@ == self.name(),
    {
        self.plugin_name
    }

    /// The events that were emitted through this context, oldest first.
    pub fn into_events(self) -> (r: Vec<PluginEvent>)
        ensures
            events_view(r@) == self.emitted(),
    {
        self.events
    }

    /// Emit a user facing message via the host.
    pub fn show_message(&mut self, level: MessageLevel, message: &str)
        ensures
            final(self).emitted() == old(self).emitted().push(
                EventView::ShowMessage { level, message: message@ },
            ),
            final(self).name() == old(self).name(),
    {
        let ghost before = self.events@;
        self.events.push(PluginEvent::ShowMessage { level, message: message.to_owned() });
        assert(events_view(self.events@) =~= events_view(before).push(
            EventView::ShowMessage { level, message: message@ },
        ));
    }

    /// Emit a log message.
    pub fn log(&mut self, level: MessageLevel, message: &str)
        ensures
            final(self).emitted() == old(self).emitted().push(
                EventView::Log { level, message: message@ },
            ),
            final(self).name() == old(self).name(),
    {
        let ghost before = self.events@;
        self.events.push(PluginEvent::Log { level, message: message.to_owned() });
        assert(events_view(self.events@) =~= events_view(before).push(
            EventView::Log { level, message: message@ },
        ));
    }
}

/// Plugins implement this trait to participate in the runtime.
pub trait Plugin: Send {
    /// Name of the plugin used for diagnostics.
    fn name(&self) -> &'static str;

    /// Called once when the host sends the initialization message.
    fn initialize<R: Registrar>(
        &mut self,
        ctx: &mut InitializeContext,
        registrar: &mut R,
    ) -> Result<(), PluginError>;

    /// Execute a registered command.
    fn execute(
        &mut self,
        command: &str,
        arguments: Vec<Value>,
        ctx: &mut CommandContext<'_>,
    ) -> Result<Option<Value>, PluginError>;
}

/// Why the runtime gave up.
#[derive(Debug, PartialEq)]
pub enum RuntimeError {
    /// A line from the host was not a request of the protocol.
    MalformedRequest {
        /// The offending line.
        line: String,
    },
    /// The plugin's `initialize` handler failed.
    InitializeFailed {
        /// Name of the plugin.
        plugin: String,
        /// What the handler reported.
        message: String,
    },
    /// A message for the host could not be put on one line.
    Unwritable {
        /// Why there is no line.
        cause: LineError,
    },
}

/// How the runtime goes on after a request.
#[derive(Debug, PartialEq)]
pub enum StepOutcome {
    /// Read the next request.
    Continue,
    /// The host asked for shutdown: stop reading.
    Shutdown,
    /// Stop with an error.
    Failed(RuntimeError),
}

/// What handling one request produced.
#[derive(Debug, PartialEq)]
pub struct Step {
    /// The messages to write to the host, in this order.
    pub messages: Vec<PluginMessage>,
    /// Whether to go on.
    pub outcome: StepOutcome,
}

/// What handling one line produced.
#[derive(Debug, PartialEq)]
pub struct LineStep {
    /// The lines to write to the host, in this order, each with its newline.
    pub lines: Vec<String>,
    /// Whether to go on.
    pub outcome: StepOutcome,
}

/// What a run over some lines of input produced.
#[derive(Debug, PartialEq)]
pub struct RunReport {
    /// The lines to write to the host, in this order, each with its newline.
    pub lines: Vec<String>,
    /// How many lines of the input were read.
    pub consumed: usize,
    /// How the run ended: `Continue` where the input ran out.
    pub outcome: StepOutcome,
}

/// The line carries the message: it is the one line that some JSON value of
/// the message's wire form is written as.
pub open spec fn carries_one(line: Seq<char>, message: MessageView) -> bool {
    exists|v: Value| wire_message(v, message) && #[trigger] is_line_of(line, v)
}

/// The lines carry the messages, one each, in order.
pub open spec fn carries(lines: Seq<String>, messages: Seq<MessageView>) -> bool {
    &&& lines.len() == messages.len()
    &&& forall|i: int| 0 <= i < lines.len() ==> carries_one((#[trigger] lines[i])@, messages[i])
}

/// What comes of writing the messages of a step that ended with `intended`:
/// either every message is on its line and the step ends as intended, or the
/// lines stop before the first message that has no line, and the runtime
/// fails with the reason why a JSON value of that message's wire form has
/// none.
pub open spec fn written(
    lines: Seq<String>,
    messages: Seq<MessageView>,
    outcome: StepOutcome,
    intended: StepOutcome,
) -> bool {
    ||| carries(lines, messages) && outcome == intended
    ||| {
        &&& lines.len() < messages.len()
        &&& carries(lines, messages.take(lines.len() as int))
        &&& exists|v: Value, cause: LineError|
            {
                &&& wire_message(v, messages[lines.len() as int])
                &&& #[trigger] writes(Err::<String, LineError>(cause), v)
                &&& outcome == StepOutcome::Failed(RuntimeError::Unwritable { cause })
            }
    }
}

/// The events as messages for the host, in order.
pub open spec fn event_messages_view(events: Seq<EventView>) -> Seq<MessageView> {
    events.map_values(|event: EventView| MessageView::Event { event })
}

/// The reply that refuses request `id` with `message`.
pub open spec fn refusal_view(id: u64, message: Seq<char>) -> MessageView {
    MessageView::Response { id, result: ResponseView::CommandError { message } }
}

/// The reply to `execute` for what the handler returned: its value as a
/// `command_result`, its failure as a `command_error` with the failure's
/// message.
pub open spec fn execute_reply_view(id: u64, returned: Result<Option<Value>, PluginError>) -> MessageView {
    match returned {
        Ok(result) => MessageView::Response { id, result: ResponseView::CommandResult { result } },
        Err(e) => refusal_view(id, e@),
    }
}

/// The messages that answer `execute`: the events that the handler emitted,
/// then the reply for what it returned.
pub open spec fn execute_messages(
    id: u64,
    events: Seq<EventView>,
    returned: Result<Option<Value>, PluginError>,
) -> Seq<MessageView> {
    event_messages_view(events).push(execute_reply_view(id, returned))
}

/// The messages that answer the first `initialize`: the events that the
/// handler emitted, then, where it succeeded, `initialized` with the commands
/// that are registered.
pub open spec fn initialize_messages(
    id: u64,
    events: Seq<EventView>,
    returned: Result<(), PluginError>,
    commands: Seq<PluginCommandView>,
) -> Seq<MessageView> {
    match returned {
        Ok(_) => event_messages_view(events).push(
            MessageView::Response { id, result: ResponseView::Initialized { commands } },
        ),
        Err(_) => event_messages_view(events),
    }
}

/// The reply to `execute` for what the handler returned.
pub fn execute_reply(id: u64, returned: Result<Option<Value>, PluginError>) -> (r: PluginMessage)
    ensures
        r@ == execute_reply_view(id, returned),
{
    match returned {
        Ok(result) => PluginMessage::Response { id, result: PluginResponse::CommandResult { result } },
        Err(e) => PluginMessage::Response {
            id,
            result: PluginResponse::CommandError { message: e.message },
        },
    }
}

/// The reply that refuses a request with `message`.
pub fn refusal(id: u64, message: &str) -> (r: PluginMessage)
    ensures
        r@ == refusal_view(id, message@),
{
    PluginMessage::Response {
        id,
        result: PluginResponse::CommandError { message: message.to_owned() },
    }
}

/// Wraps the events, in order, as messages for the host.
pub fn event_messages(events: Vec<PluginEvent>) -> (r: Vec<PluginMessage>)
    ensures
        messages_view(r@) == event_messages_view(events_view(events@)),
{
    let mut messages: Vec<PluginMessage> = Vec::new();
    for event in it: events
        invariant
            it.seq() == events@,
            messages.len() == it.index(),
            forall|k: int|
                0 <= k < messages.len() ==> (#[trigger] messages[k])@ == (MessageView::Event {
                    event: events[k]@,
                }),
    {
        messages.push(PluginMessage::Event { event });
    }
    assert(messages_view(messages@) =~= event_messages_view(events_view(events@)));
    messages
}

/// What the runtime does once the `execute` handler is through: it writes the
/// handler's events, then the reply for what the handler returned, and goes
/// on.
pub fn execute_step(
    id: u64,
    events: Vec<PluginEvent>,
    returned: Result<Option<Value>, PluginError>,
) -> (step: Step)
    ensures
        messages_view(step.messages@) == execute_messages(id, events_view(events@), returned),
        step.outcome is Continue,
{
    let mut messages = event_messages(events);
    let ghost before = messages_view(messages@);
    messages.push(execute_reply(id, returned));
    assert(messages_view(messages@) =~= before.push(execute_reply_view(id, returned)));
    Step { messages, outcome: StepOutcome::Continue }
}

/// What the runtime does once the `initialize` handler is through: it writes
/// the handler's events; where the handler succeeded it answers `initialized`
/// with the registered commands and goes on, where it failed the runtime
/// stops with the plugin's name and the failure's message.
pub fn initialize_step(
    id: u64,
    plugin: &str,
    events: Vec<PluginEvent>,
    returned: Result<(), PluginError>,
    commands: Vec<PluginCommand>,
) -> (step: Step)
    ensures
        messages_view(step.messages@) == initialize_messages(
            id,
            events_view(events@),
            returned,
            commands_view(commands@),
        ),
        match returned {
            Ok(_) => step.outcome is Continue,
            Err(e) => step.outcome matches StepOutcome::Failed(
                RuntimeError::InitializeFailed { plugin: p, message: m },
            ) && p@ == plugin@ && m@ == e@,
        },
{
    let mut messages = event_messages(events);
    match returned {
        Ok(()) => {
            let ghost before = messages_view(messages@);
            let ghost said = commands_view(commands@);
            messages.push(
                PluginMessage::Response { id, result: PluginResponse::Initialized { commands } },
            );
            assert(messages_view(messages@) =~= before.push(
                MessageView::Response { id, result: ResponseView::Initialized { commands: said } },
            ));
            Step { messages, outcome: StepOutcome::Continue }
        },
        Err(e) => Step {
            messages,
            outcome: StepOutcome::Failed(
                RuntimeError::InitializeFailed { plugin: plugin.to_owned(), message: e.message },
            ),
        },
    }
}

/// The state of a plugin's event loop: the plugin, whether the handshake has
/// happened, and the commands it registered.
pub struct Runtime<P: Plugin> {
    plugin: P,
    initialized: bool,
    registry: CommandRegistry,
}

/// What handling a request comes to, from the runtime `before` to the runtime
/// `after`:
///
/// - `initialize` after the handshake, and `execute` before it, are refused
///   with a `command_error` and change nothing;
/// - the first `initialize` is answered as [`initialize_messages`] says for
///   some events and some outcome of the handler: where that is success the
///   handshake has happened and the runtime goes on, else it has not and the
///   runtime stops;
/// - `execute` after the handshake is answered as [`execute_messages`] says
///   for some events and some outcome of the handler, and the runtime goes on
///   with the same commands;
/// - `shutdown` is acknowledged, stops the runtime and changes nothing.
pub open spec fn answers<P: Plugin>(
    before: Runtime<P>,
    request: RequestView,
    messages: Seq<MessageView>,
    outcome: StepOutcome,
    after: Runtime<P>,
) -> bool {
    match request.payload {
        PayloadView::Initialize { .. } => if before.is_initialized() {
            &&& messages == seq![refusal_view(request.id, already_initialized_text())]
            &&& outcome is Continue
            &&& after == before
        } else {
            exists|events: Seq<EventView>, returned: Result<(), PluginError>|
                {
                    &&& messages == #[trigger] initialize_messages(
                        request.id,
                        events,
                        returned,
                        after.registered(),
                    )
                    &&& after.is_initialized() == (returned is Ok)
                    &&& match returned {
                        Ok(_) => outcome is Continue,
                        Err(e) => outcome matches StepOutcome::Failed(
                            RuntimeError::InitializeFailed { message, .. },
                        ) && message@ == e@,
                    }
                }
        },
        PayloadView::Execute { .. } => if before.is_initialized() {
            &&& outcome is Continue
            &&& after.is_initialized()
            &&& after.registered() == before.registered()
            &&& exists|events: Seq<EventView>, returned: Result<Option<Value>, PluginError>|
                messages == #[trigger] execute_messages(request.id, events, returned)
        } else {
            &&& messages == seq![refusal_view(request.id, not_initialized_text())]
            &&& outcome is Continue
            &&& after == before
        },
        PayloadView::Shutdown => {
            &&& messages == seq![
                MessageView::Response { id: request.id, result: ResponseView::Acknowledge },
            ]
            &&& outcome is Shutdown
            &&& after == before
        },
    }
}

/// What handling a line comes to, from the runtime `before` to the runtime
/// `after`: a blank line is skipped; a line that is no request stops the
/// runtime; a request of an unknown kind is refused; any other request is
/// answered as [`answers`] says, and the messages are written as [`written`]
/// says.
pub open spec fn line_answers<P: Plugin>(
    before: Runtime<P>,
    line: Seq<char>,
    lines: Seq<String>,
    outcome: StepOutcome,
    after: Runtime<P>,
) -> bool {
    if is_blank(line) {
        lines.len() == 0 && outcome is Continue && after == before
    } else {
        match parse_request_line(line) {
            Ok(request) => exists|messages: Seq<MessageView>, intended: StepOutcome|
                #![trigger answers(before, request, messages, intended, after)]
                answers(before, request, messages, intended, after) && written(
                    lines,
                    messages,
                    outcome,
                    intended,
                ),
            Err(RequestFault::UnknownRequest { id }) => {
                &&& after == before
                &&& written(
                    lines,
                    seq![refusal_view(id, unknown_request_text())],
                    outcome,
                    StepOutcome::Continue,
                )
            },
            Err(RequestFault::Malformed) => {
                &&& lines.len() == 0
                &&& outcome matches StepOutcome::Failed(RuntimeError::MalformedRequest { line: l })
                &&& l@ == line
                &&& after == before
            },
        }
    }
}

/// What reading all of `input` comes to, from the runtime `before` to the
/// runtime `after`: every line but the last was handled and let the runtime
/// go on, the last was handled and ended as `outcome` says, and `lines` are
/// the lines of all of them, in order. See [`line_answers`] for one line.
pub open spec fn runs<P: Plugin>(
    before: Runtime<P>,
    input: Seq<Seq<char>>,
    lines: Seq<String>,
    outcome: StepOutcome,
    after: Runtime<P>,
) -> bool
    decreases input.len(),
{
    if input.len() == 0 {
        lines.len() == 0 && outcome is Continue && after == before
    } else {
        exists|mid: Runtime<P>, last: Seq<String>|
            #![trigger line_answers(mid, input.last(), last, outcome, after)]
            {
                &&& last.len() <= lines.len()
                &&& lines.skip(lines.len() - last.len()) == last
                &&& runs(
                    before,
                    input.drop_last(),
                    lines.take(lines.len() - last.len()),
                    StepOutcome::Continue,
                    mid,
                )
                &&& line_answers(mid, input.last(), last, outcome, after)
            }
    }
}

/// A run goes on by one line.
proof fn lemma_runs_extend<P: Plugin>(
    before: Runtime<P>,
    input: Seq<Seq<char>>,
    mid: Runtime<P>,
    earlier: Seq<String>,
    last: Seq<String>,
    outcome: StepOutcome,
    after: Runtime<P>,
)
    requires
        input.len() > 0,
        runs(before, input.drop_last(), earlier, StepOutcome::Continue, mid),
        line_answers(mid, input.last(), last, outcome, after),
    ensures
        runs(before, input, earlier + last, outcome, after),
{
    let lines = earlier + last;
    assert(lines.skip(lines.len() - last.len()) =~= last);
    assert(lines.take(lines.len() - last.len()) =~= earlier);
}

/// Put the messages on lines, in order, up to the first that cannot be
/// written.
pub fn write_messages(messages: &Vec<PluginMessage>, intended: StepOutcome) -> (r: LineStep)
    ensures
        written(r.lines@, messages_view(messages@), r.outcome, intended),
{
    let mut lines: Vec<String> = Vec::new();
    let mut i: usize = 0;
    while i < messages.len()
        invariant
            i <= messages.len(),
            lines.len() == i,
            forall|k: int| 0 <= k < i ==> carries_one((#[trigger] lines[k])@, messages[k]@),
        decreases messages.len() - i,
    {
        let encoded = encode_message_line(&messages[i]);
        let ghost v = choose|v: Value| wire_message(v, messages[i as int]@) && writes(encoded, v);
        match encoded {
            Ok(line) => {
                assert(wire_message(v, messages[i as int]@) && is_line_of(line@, v));
                lines.push(line);
            },
            Err(cause) => {
                assert(carries(lines@, messages_view(messages@).take(lines.len() as int)));
                assert(wire_message(v, messages_view(messages@)[lines.len() as int]) && writes(
                    Err::<String, LineError>(cause),
                    v,
                ));
                return LineStep {
                    lines,
                    outcome: StepOutcome::Failed(RuntimeError::Unwritable { cause }),
                };
            },
        }
        i += 1;
    }
    assert(carries(lines@, messages_view(messages@)));
    LineStep { lines, outcome: intended }
}

impl<P: Plugin> Runtime<P> {
    /// Whether the plugin has answered `initialize` successfully.
    pub closed spec fn is_initialized(&self) -> bool {
        self.initialized
    }

    /// The commands that the plugin has registered.
    pub closed spec fn registered(&self) -> Seq<PluginCommandView> {
        self.registry.registered()
    }

    /// A runtime for `plugin`, before the handshake.
    pub fn new(plugin: P) -> (r: Self)
        ensures
            !r.is_initialized(),
            r.registered() == Seq::<PluginCommandView>::empty(),
    {
        Runtime { plugin, initialized: false, registry: CommandRegistry::new() }
    }

    /// Whether the plugin has answered `initialize` successfully.
    pub fn initialized(&self) -> (r: bool)
        ensures
            r == self.is_initialized(),
    {
        self.initialized
    }

    /// Dispatch one request and say what to write back.
    ///
    /// `initialize` runs the plugin's handler once: its events, then
    /// `initialized` with the registered commands; a handler failure stops the
    /// runtime. A further `initialize` is refused. `execute` is refused before
    /// the handshake; after it the handler's events are followed by its result
    /// or its error. `shutdown` is acknowledged and ends the loop.
    pub fn handle_request(&mut self, request: HostRequest) -> (step: Step)
        ensures
            answers(
                *old(self),
                request@,
                messages_view(step.messages@),
                step.outcome,
                *final(self),
            ),
    {
        let HostRequest { id, payload } = request;
        match payload {
            HostRequestPayload::Initialize { workspace_root } => {
                if self.initialized {
                    let messages = vec![refusal(id, "plugin already initialized")];
                    assert(messages_view(messages@) =~= seq![messages[0]@]);
                    Step { messages, outcome: StepOutcome::Continue }
                } else {
                    let mut ctx = InitializeContext::new(workspace_root);
                    let returned = self.plugin.initialize(&mut ctx, &mut self.registry);
                    let events = ctx.into_events();
                    let ghost emitted = events_view(events@);
                    let succeeded = returned.is_ok();
                    let step = initialize_step(
                        id,
                        self.plugin.name(),
                        events,
                        returned,
                        self.registry.commands(),
                    );
                    if succeeded {
                        self.initialized = true;
                    }
                    assert(messages_view(step.messages@) == initialize_messages(
                        id,
                        emitted,
                        returned,
                        self.registered(),
                    ));
                    step
                }
            },
            HostRequestPayload::Execute { command, arguments } => {
                if !self.initialized {
                    let messages = vec![refusal(id, "plugin not initialized")];
                    assert(messages_view(messages@) =~= seq![messages[0]@]);
                    Step { messages, outcome: StepOutcome::Continue }
                } else {
                    let mut ctx = CommandContext::new(self.plugin.name());
                    let returned = self.plugin.execute(command.as_str(), arguments, &mut ctx);
                    let events = ctx.into_events();
                    let ghost emitted = events_view(events@);
                    let step = execute_step(id, events, returned);
                    assert(messages_view(step.messages@) == execute_messages(id, emitted, returned));
                    step
                }
            },
            HostRequestPayload::Shutdown => {
                let messages = vec![
                    PluginMessage::Response { id, result: PluginResponse::Acknowledge },
                ];
                assert(messages_view(messages@) =~= seq![messages[0]@]);
                Step { messages, outcome: StepOutcome::Shutdown }
            },
        }
    }

    /// Take in one line of the host's requests and say what to write back:
    /// see [`line_answers`].
    pub fn handle_line(&mut self, line: &str) -> (r: LineStep)
        ensures
            line_answers(*old(self), line@, r.lines@, r.outcome, *final(self)),
    {
        if blank(line) {
            return LineStep { lines: Vec::new(), outcome: StepOutcome::Continue };
        }
        match decode_request_line(line) {
            Ok(request) => {
                let ghost before = *self;
                let ghost asked = request@;
                let step = self.handle_request(request);
                let r = write_messages(&step.messages, step.outcome);
                assert(answers(before, asked, messages_view(step.messages@), step.outcome, *self));
                r
            },
            Err(RequestFault::UnknownRequest { id }) => {
                let messages = vec![refusal(id, "unknown request")];
                assert(messages_view(messages@) =~= seq![messages[0]@]);
                write_messages(&messages, StepOutcome::Continue)
            },
            Err(RequestFault::Malformed) => LineStep {
                lines: Vec::new(),
                outcome: StepOutcome::Failed(RuntimeError::MalformedRequest { line: line.to_owned() }),
            },
        }
    }

    /// Read the lines of `input` in order, until one ends the run or the
    /// input runs out, and say what to write back: see [`runs`] for what the
    /// lines that were read come to.
    pub fn run(&mut self, input: &Vec<String>) -> (r: RunReport)
        ensures
            r.consumed <= input.len(),
            r.outcome is Continue ==> r.consumed == input.len(),
            runs(
                *old(self),
                texts_view(input@).take(r.consumed as int),
                r.lines@,
                r.outcome,
                *final(self),
            ),
    {
        let ghost start = *self;
        let ghost texts = texts_view(input@);
        let mut lines: Vec<String> = Vec::new();
        let mut i: usize = 0;
        while i < input.len()
            invariant
                i <= input.len(),
                start == *old(self),
                texts == texts_view(input@),
                runs(start, texts.take(i as int), lines@, StepOutcome::Continue, *self),
            decreases input.len() - i,
        {
            let ghost mid = *self;
            let ghost earlier = lines@;
            let mut step = self.handle_line(input[i].as_str());
            let ghost last = step.lines@;
            lines.append(&mut step.lines);
            i += 1;
            proof {
                assert(texts.take(i as int).drop_last() =~= texts.take(i - 1));
                assert(texts.take(i as int).last() == input[i - 1]@);
                assert(lines@ =~= earlier + last);
                lemma_runs_extend(start, texts.take(i as int), mid, earlier, last, step.outcome, *self);
            }
            let ghost how = step.outcome;
            let ghost so_far = lines@;
            match step.outcome {
                StepOutcome::Continue => {},
                ended => {
                    let report = RunReport { lines, consumed: i, outcome: ended };
                    assert(report.outcome == how && report.lines@ == so_far);
                    return report;
                },
            }
        }
        RunReport { lines, consumed: i, outcome: StepOutcome::Continue }
    }
}

/// Run the plugin's event loop over the lines of `input`: a fresh runtime for
/// the plugin reads them as [`Runtime::run`] says.
pub fn run<P: Plugin>(plugin: P, input: &Vec<String>) -> (r: RunReport)
    ensures
        r.consumed <= input.len(),
        r.outcome is Continue ==> r.consumed == input.len(),
        exists|before: Runtime<P>, after: Runtime<P>|
            {
                &&& !before.is_initialized()
                &&& before.registered() == Seq::<PluginCommandView>::empty()
                &&& #[trigger] runs(
                    before,
                    texts_view(input@).take(r.consumed as int),
                    r.lines@,
                    r.outcome,
                    after,
                )
            },
{
    let mut runtime = Runtime::new(plugin);
    let ghost before = runtime;
    let r = runtime.run(input);
    assert(runs(before, texts_view(input@).take(r.consumed as int), r.lines@, r.outcome, runtime));
    r
}

} // verus!
