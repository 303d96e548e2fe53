//! The host's side of one plugin: which requests await a reply, what an
//! inbound line means, and what to tell the waiters when the plugin is gone.
//!
//! The process itself, its pipes and the tasks that read them belong to the
//! caller. [`PluginProcess`] is the bookkeeping between them: the writer asks
//! it for the next request line, the reader hands it every line that arrives.

use crate::manifest::PluginEntry;
use crate::paths::{resolve_command, resolve_relative, resolved_command, resolved_relative};
use crate::protocol::{
    text_of, EventView, HostRequest, HostRequestPayload, MessageLevel, MessageView, PayloadView,
    PluginEvent, PluginMessage, PluginResponse, RequestView, ResponseView,
};
use crate::text::texts_view;
use crate::wire::{
    decode_message_line, encode_request_line, is_line_of, parse_message_line, wire_request,
    writes, LineError,
};
use serde_json::Value;
use vstd::prelude::*;
use vstd::string::StringExecFns;

verus! {

/// The kinds of message that the editor's protocol knows, with its numbers.
#[derive(Debug, Clone, Copy, PartialEq, Eq, Structural)]
pub enum MessageType {
    /// An error message.
    Error,
    /// A warning message.
    Warning,
    /// An information message.
    Info,
    /// A log message.
    Log,
}

impl MessageType {
    /// The number that the editor's protocol gives the kind.
    pub open spec fn spec_code(self) -> u8 {
        match self {
            MessageType::Error => 1,
            MessageType::Warning => 2,
            MessageType::Info => 3,
            MessageType::Log => 4,
        }
    }

    /// The number that the editor's protocol gives the kind.
    #[verifier::when_used_as_spec(spec_code)]
    pub fn code(self) -> (r: u8)
        ensures
            r == self.spec_code(),
    {
        match self {
            MessageType::Error => 1,
            MessageType::Warning => 2,
            MessageType::Info => 3,
            MessageType::Log => 4,
        }
    }
}

/// The editor's kind of message for a plugin's severity level.
pub open spec fn message_type_of(level: MessageLevel) -> MessageType {
    match level {
        MessageLevel::Error => MessageType::Error,
        MessageLevel::Warning => MessageType::Warning,
        MessageLevel::Info => MessageType::Info,
        MessageLevel::Log => MessageType::Log,
    }
}

/// Map a plugin's severity level to the editor's kind of message.
pub fn map_message_level(level: MessageLevel) -> (r: MessageType)
    ensures
        r == message_type_of(level),
{
    match level {
        MessageLevel::Error => MessageType::Error,
        MessageLevel::Warning => MessageType::Warning,
        MessageLevel::Info => MessageType::Info,
        MessageLevel::Log => MessageType::Log,
    }
}

/// A notification for the editor.
#[derive(Debug, PartialEq)]
pub enum EditorNotification {
    /// `window/showMessage`.
    ShowMessage { kind: MessageType, message: String },
    /// `window/logMessage`.
    LogMessage { kind: MessageType, message: String },
}

/// What an [`EditorNotification`] says.
pub enum NotificationView {
    ShowMessage { kind: MessageType, message: Seq<char> },
    LogMessage { kind: MessageType, message: Seq<char> },
}

impl View for EditorNotification {
    type V = NotificationView;

    open spec fn view(&self) -> NotificationView {
        match *self {
            EditorNotification::ShowMessage { kind, message } => NotificationView::ShowMessage {
                kind,
                message: message@,
            },
            EditorNotification::LogMessage { kind, message } => NotificationView::LogMessage {
                kind,
                message: message@,
            },
        }
    }
}

/// The notification that forwards an event: `show_message` becomes
/// `window/showMessage`, `log` becomes `window/logMessage`, level and text
/// are kept.
pub open spec fn notification_of(event: EventView) -> NotificationView {
    match event {
        EventView::ShowMessage { level, message } => NotificationView::ShowMessage {
            kind: message_type_of(level),
            message,
        },
        EventView::Log { level, message } => NotificationView::LogMessage {
            kind: message_type_of(level),
            message,
        },
    }
}

/// Turn a plugin's event into the notification that forwards it to the editor.
pub fn handle_event(event: PluginEvent) -> (r: EditorNotification)
    ensures
        r@ == notification_of(event@),
{
    match event {
        PluginEvent::ShowMessage { level, message } => EditorNotification::ShowMessage {
            kind: map_message_level(level),
            message,
        },
        PluginEvent::Log { level, message } => EditorNotification::LogMessage {
            kind: map_message_level(level),
            message,
        },
    }
}

/// How to launch a plugin.
#[derive(Debug, PartialEq)]
pub struct SpawnPlan {
    /// The program to run.
    pub program: String,
    /// Its arguments.
    pub args: Vec<String>,
    /// The environment variables to set, in this order.
    pub env: Vec<(String, String)>,
    /// The working directory, where the manifest names one.
    pub cwd: Option<String>,
}

/// The views of a list of pairs of strings.
pub open spec fn pairs_view(pairs: Seq<(String, String)>) -> Seq<(Seq<char>, Seq<char>)> {
    pairs.map_values(|p: (String, String)| (p.0@, p.1@))
}

/// The variables that the host adds to a plugin's environment: the plugin's
/// name, and the workspace root where there is one.
pub open spec fn host_variables(name: Seq<char>, workspace_root: Option<Seq<char>>) -> Seq<
    (Seq<char>, Seq<char>),
> {
    match workspace_root {
        Some(root) => seq![("HELIX_PLUGIN_NAME"@, name), ("HELIX_WORKSPACE_ROOT"@, root)],
        None => seq![("HELIX_PLUGIN_NAME"@, name)],
    }
}

/// The working directory of a plugin: the manifest's, taken relative to the
/// manifest's directory.
pub open spec fn resolved_cwd(manifest_dir: Seq<char>, cwd: Option<Seq<char>>) -> Option<
    Seq<char>,
> {
    match cwd {
        Some(dir) => Some(resolved_relative(manifest_dir, dir)),
        None => None,
    }
}

/// Copies a list of strings.
fn clone_texts(texts: &Vec<String>) -> (r: Vec<String>)
    ensures
        texts_view(r@) == texts_view(texts@),
{
    let mut copy: Vec<String> = Vec::new();
    let mut i: usize = 0;
    while i < texts.len()
        invariant
            i <= texts.len(),
            copy.len() == i,
            forall|k: int| 0 <= k < i ==> copy[k]@ == texts[k]@,
        decreases texts.len() - i,
    {
        copy.push(texts[i].clone());
        i += 1;
    }
    assert(texts_view(copy@) =~= texts_view(texts@));
    copy
}

/// Copies a list of pairs of strings.
fn clone_pairs(pairs: &Vec<(String, String)>) -> (r: Vec<(String, String)>)
    ensures
        pairs_view(r@) == pairs_view(pairs@),
{
    let mut copy: Vec<(String, String)> = Vec::new();
    let mut i: usize = 0;
    while i < pairs.len()
        invariant
            i <= pairs.len(),
            copy.len() == i,
            forall|k: int| 0 <= k < i ==> copy[k].0@ == pairs[k].0@ && copy[k].1@ == pairs[k].1@,
        decreases pairs.len() - i,
    {
        copy.push((pairs[i].0.clone(), pairs[i].1.clone()));
        i += 1;
    }
    assert(pairs_view(copy@) =~= pairs_view(pairs@));
    copy
}

/// A request that is registered and ready to be written.
#[derive(Debug, PartialEq)]
pub struct Outbound {
    /// The id under which the reply is awaited.
    pub id: u64,
    /// The line to write to the plugin's input, newline included.
    pub line: String,
}

/// Why a request was not made ready.
#[derive(Debug, Clone, Copy, PartialEq, Eq, Structural)]
pub enum SendError {
    /// The plugin has disconnected: nobody would answer.
    Disconnected,
    /// Every request id has been used.
    IdsExhausted,
    /// The request is registered, but could not be put on a line.
    Line(LineError),
}

/// A reply on its way to the one who waits for it.
#[derive(Debug, PartialEq)]
pub struct Delivery<W> {
    /// Who waits.
    pub waiter: W,
    /// What they get.
    pub response: PluginResponse,
}

/// What the reader does with a line from the plugin.
#[derive(Debug, PartialEq)]
pub enum Inbound<W> {
    /// The line is empty: nothing to do.
    Ignored,
    /// The line is no message of the protocol: report it and read on.
    Malformed,
    /// A reply to a pending request: hand it to its waiter.
    Deliver(Delivery<W>),
    /// A reply to a request that is not pending: report it and drop it.
    Unclaimed { id: u64 },
    /// An event: forward it to the editor.
    Notify(EditorNotification),
}

/// The message for a request whose waiter was dropped without an answer.
pub open spec fn terminated_text(name: Seq<char>) -> Seq<char> {
    "plugin `"@ + name + "` terminated before responding"@
}

/// The message that waiters get when the plugin is gone.
pub open spec fn disconnected_text(name: Seq<char>) -> Seq<char> {
    "plugin `"@ + name + "` disconnected"@
}

/// What [`PluginProcess`] keeps.
pub struct ProcessView<W> {
    /// The plugin's name.
    pub name: Seq<char>,
    /// The command line shown in diagnostics.
    pub display_command: Seq<char>,
    /// The id that the next request gets.
    pub next_request_id: u64,
    /// The requests that await a reply, oldest first, each with its waiter.
    pub pending: Seq<(u64, W)>,
    /// Whether the plugin's output is still open.
    pub connected: bool,
}

impl<W> ProcessView<W> {
    /// The ids of the pending requests, oldest first.
    pub open spec fn pending_ids(self) -> Seq<u64> {
        self.pending.map_values(|p: (u64, W)| p.0)
    }

    /// Whether a request with this id is pending.
    pub open spec fn is_pending(self, id: u64) -> bool {
        exists|i: int| 0 <= i < self.pending.len() && (#[trigger] self.pending[i]).0 == id
    }

    /// Where the request with this id stands among the pending ones.
    pub open spec fn position(self, id: u64) -> int {
        choose|i: int| 0 <= i < self.pending.len() && (#[trigger] self.pending[i]).0 == id
    }

    /// The state after a request was registered for `waiter`.
    pub open spec fn issue(self, waiter: W) -> Self {
        ProcessView {
            next_request_id: (self.next_request_id + 1) as u64,
            pending: self.pending.push((self.next_request_id, waiter)),
            ..self
        }
    }

    /// The state after the reply to `id` arrived: the request is no longer
    /// pending; nothing changes where it was not.
    pub open spec fn resolve(self, id: u64) -> Self {
        if self.is_pending(id) {
            ProcessView { pending: self.pending.remove(self.position(id)), ..self }
        } else {
            self
        }
    }

    /// The state after the plugin disconnected: nothing is pending, and
    /// nothing will be.
    pub open spec fn drain(self) -> Self {
        ProcessView { pending: Seq::empty(), connected: false, ..self }
    }

    /// Whether a request can be registered: the plugin is connected and an id
    /// is left.
    pub open spec fn can_issue(self) -> bool {
        self.connected && self.next_request_id < u64::MAX
    }

    /// The ids are handed out in order, each pending one was handed out, and
    /// nothing is pending once the plugin has disconnected.
    pub open spec fn well_formed(self) -> bool {
        &&& self.connected || self.pending.len() == 0
        &&& self.next_request_id >= 1
        &&& forall|i: int|
            0 <= i < self.pending.len() ==> 1 <= (#[trigger] self.pending[i]).0
                < self.next_request_id
        &&& forall|i: int, j: int|
            0 <= i < j < self.pending.len() ==> (#[trigger] self.pending[i]).0 < (
            #[trigger] self.pending[j]).0
    }
}

/// What the waiters get when the plugin is gone: each pending request, oldest
/// first, is answered with a `command_error` that names the plugin.
pub open spec fn is_disconnect_notice<W>(
    deliveries: Seq<Delivery<W>>,
    before: ProcessView<W>,
) -> bool {
    &&& deliveries.len() == before.pending.len()
    &&& forall|i: int|
        0 <= i < deliveries.len() ==> {
            &&& (#[trigger] deliveries[i]).waiter == before.pending[i].1
            &&& deliveries[i].response@ == (ResponseView::CommandError {
                message: disconnected_text(before.name),
            })
        }
}

/// What the reader makes of a message: a reply goes to the waiter of its id
/// and ends the wait, or is unclaimed; an event is forwarded, whatever is
/// pending.
pub open spec fn accepts<W>(
    before: ProcessView<W>,
    message: MessageView,
    inbound: Inbound<W>,
    after: ProcessView<W>,
) -> bool {
    match message {
        MessageView::Response { id, result } => if before.is_pending(id) {
            &&& inbound matches Inbound::Deliver(delivery)
            &&& delivery.waiter == before.pending[before.position(id)].1
            &&& delivery.response@ == result
            &&& after == before.resolve(id)
        } else {
            &&& inbound == Inbound::<W>::Unclaimed { id }
            &&& after == before
        },
        MessageView::Event { event } => {
            &&& inbound matches Inbound::Notify(notification)
            &&& notification@ == notification_of(event)
            &&& after == before
        },
    }
}

/// What making a request ready comes to. Once the plugin has disconnected,
/// or when the ids have run out, it fails and changes nothing. Else the
/// request is registered under the next id, and a JSON value of its wire
/// form is written as one line: the request is handed back on that line, or
/// it fails with the reason why that value has no line.
pub open spec fn sends<W>(
    before: ProcessView<W>,
    payload: PayloadView,
    waiter: W,
    r: Result<Outbound, SendError>,
    after: ProcessView<W>,
) -> bool {
    if !before.connected {
        r == Err::<Outbound, SendError>(SendError::Disconnected) && after == before
    } else if before.next_request_id == u64::MAX {
        r == Err::<Outbound, SendError>(SendError::IdsExhausted) && after == before
    } else {
        &&& after == before.issue(waiter)
        &&& match r {
            Ok(out) => {
                &&& out.id == before.next_request_id
                &&& exists|v: Value|
                    wire_request(v, RequestView { id: out.id, payload }) && #[trigger] is_line_of(
                        out.line@,
                        v,
                    )
            },
            Err(e) => e matches SendError::Line(cause) && exists|v: Value|
                wire_request(v, RequestView { id: before.next_request_id, payload })
                    && #[trigger] writes(Err::<String, LineError>(cause), v),
        }
    }
}

/// Handle to a spawned plugin process.
pub struct PluginProcess<W> {
    name: String,
    display_command: String,
    next_request_id: u64,
    pending: Vec<(u64, W)>,
    connected: bool,
}

impl<W> View for PluginProcess<W> {
    type V = ProcessView<W>;

    closed spec fn view(&self) -> ProcessView<W> {
        ProcessView {
            name: self.name@,
            display_command: self.display_command@,
            next_request_id: self.next_request_id,
            pending: self.pending@,
            connected: self.connected,
        }
    }
}

impl<W> PluginProcess<W> {
    #[verifier::type_invariant]
    spec fn ordered(&self) -> bool {
        self@.well_formed()
    }

    /// Plan the launch of a plugin from its manifest entry and make the
    /// host's record of it: no request pending, the first id is 1.
    ///
    /// The command is resolved against the manifest's directory where it
    /// names a file, and so is the working directory. The entry's variables
    /// come first; the host adds the plugin's name and the workspace root.
    pub fn spawn(manifest_dir: &str, entry: &PluginEntry, workspace_root: Option<&str>) -> (r: (
        Self,
        SpawnPlan,
    ))
        ensures
            r.0@ == (ProcessView::<W> {
                name: entry.name@,
                display_command: resolved_command(manifest_dir@, entry.command@),
                next_request_id: 1,
                pending: Seq::empty(),
                connected: true,
            }),
            r.1.program@ == resolved_command(manifest_dir@, entry.command@),
            texts_view(r.1.args@) == texts_view(entry.args@),
            pairs_view(r.1.env@) == pairs_view(entry.env@) + host_variables(
                entry.name@,
                match workspace_root {
                    Some(root) => Some(root@),
                    None => None,
                },
            ),
            text_of(r.1.cwd) == resolved_cwd(manifest_dir@, text_of(entry.cwd)),
    {
        let program = resolve_command(manifest_dir, entry.command.as_str());
        let cwd = match &entry.cwd {
            Some(dir) => Some(resolve_relative(manifest_dir, dir.as_str())),
            None => None,
        };
        let mut env = clone_pairs(&entry.env);
        let ghost declared = pairs_view(env@);
        env.push(("HELIX_PLUGIN_NAME".to_owned(), entry.name.clone()));
        if let Some(root) = workspace_root {
            env.push(("HELIX_WORKSPACE_ROOT".to_owned(), root.to_owned()));
        }
        assert(pairs_view(env@) =~= declared + host_variables(
            entry.name@,
            match workspace_root {
                Some(root) => Some(root@),
                None => None,
            },
        ));
        let process = PluginProcess {
            name: entry.name.clone(),
            display_command: program.clone(),
            next_request_id: 1,
            pending: Vec::new(),
            connected: true,
        };
        assert(process@.pending =~= Seq::empty());
        (process, SpawnPlan { program, args: clone_texts(&entry.args), env, cwd })
    }

    /// The plugin's name.
    pub fn name(&self) -> (r: &str)
        ensures
            r@ == self@.name,
    {
        self.name.as_str()
    }

    /// The command line shown in diagnostics.
    pub fn display_command(&self) -> (r: &str)
        ensures
            r@ == self@.display_command,
    {
        self.display_command.as_str()
    }

    /// What to tell the sender of a request whose wait ended without an
    /// answer.
    pub fn terminated_message(&self) -> (r: String)
        ensures
            r@ == terminated_text(self@.name),
    {
        String::from_str("plugin `").concat(self.name.as_str()).concat(
            "` terminated before responding",
        )
    }

    /// Whether the plugin's output is still open.
    pub fn is_connected(&self) -> (r: bool)
        ensures
            r == self@.connected,
    {
        self.connected
    }

    /// How many requests await a reply; their ids are handed out in order.
    pub fn pending_count(&self) -> (r: usize)
        ensures
            r == self@.pending.len(),
            self@.well_formed(),
    {
        proof {
            use_type_invariant(self);
        }
        self.pending.len()
    }

    /// Register a request and make it ready to be written: it gets the next
    /// id, `waiter` is kept under that id until the reply arrives or the
    /// plugin disconnects, and the request is put on one line.
    ///
    /// Nothing is registered once the plugin has disconnected, or when the
    /// ids have run out. The wait is registered before the line is made, so a
    /// request whose line cannot be made stays pending until the plugin
    /// disconnects.
    pub fn send_request(&mut self, payload: HostRequestPayload, waiter: W) -> (r: Result<
        Outbound,
        SendError,
    >)
        ensures
            sends(old(self)@, payload@, waiter, r, final(self)@),
    {
        proof {
            use_type_invariant(&*self);
        }
        if !self.connected {
            return Err(SendError::Disconnected);
        }
        if self.next_request_id == u64::MAX {
            return Err(SendError::IdsExhausted);
        }
        let id = self.next_request_id;
        let ghost before = self@;
        let mut pending: Vec<(u64, W)> = Vec::new();
        core::mem::swap(&mut pending, &mut self.pending);
        pending.push((id, waiter));
        self.next_request_id = id + 1;
        proof {
            assert(pending@ == before.pending.push((id, waiter)));
            assert forall|i: int| 0 <= i < pending.len() implies 1 <= (#[trigger] pending[i]).0 < id
                + 1 by {
                if i < before.pending.len() {
                    assert(before.pending[i].0 < id);
                }
            }
            assert forall|i: int, j: int| 0 <= i < j < pending.len() implies (#[trigger] pending[i]).0
                < (#[trigger] pending[j]).0 by {
                assert(before.pending[i].0 < id);
                if j < before.pending.len() {
                    assert(before.pending[i].0 < before.pending[j].0);
                }
            }
        }
        self.pending = pending;
        assert(self@ == before.issue(waiter));
        let ghost said = RequestView { id, payload: payload@ };
        let request = HostRequest { id, payload };
        let encoded = encode_request_line(&request);
        let ghost v = choose|v: Value| wire_request(v, request@) && writes(encoded, v);
        match encoded {
            Ok(line) => {
                proof {
                    assert(wire_request(v, said) && is_line_of(line@, v));
                }
                let ghost text = line@;
                let out = Outbound { id, line };
                assert(out.line@ == text);
                Ok(out)
            },
            Err(e) => {
                assert(wire_request(v, said) && writes(Err::<String, LineError>(e), v));
                Err(SendError::Line(e))
            },
        }
    }

    /// Make the request ready that asks the plugin to shut down.
    pub fn shutdown(&mut self, waiter: W) -> (r: Result<Outbound, SendError>)
        ensures
            sends(old(self)@, PayloadView::Shutdown, waiter, r, final(self)@),
    {
        self.send_request(HostRequestPayload::Shutdown, waiter)
    }

    /// Where the request with this id stands among the pending ones.
    fn find(&self, id: u64) -> (r: Option<usize>)
        ensures
            match r {
                Some(i) => i < self@.pending.len() && self@.pending[i as int].0 == id,
                None => !self@.is_pending(id),
            },
    {
        let mut i: usize = 0;
        while i < self.pending.len()
            invariant
                i <= self.pending.len(),
                forall|k: int| 0 <= k < i ==> (#[trigger] self.pending[k]).0 != id,
            decreases self.pending.len() - i,
        {
            if self.pending[i].0 == id {
                return Some(i);
            }
            i += 1;
        }
        None
    }

    /// Take in a message from the plugin. A reply ends the wait of the
    /// request with its id and is handed out with that request's waiter; a
    /// reply that nobody waits for is reported. An event becomes a
    /// notification for the editor, whether or not the plugin has answered
    /// anything yet.
    pub fn handle_message(&mut self, message: PluginMessage) -> (r: Inbound<W>)
        ensures
            accepts(old(self)@, message@, r, final(self)@),
    {
        proof {
            use_type_invariant(&*self);
        }
        match message {
            PluginMessage::Response { id, result } => {
                match self.find(id) {
                    Some(i) => {
                        let ghost before = self@;
                        proof {
                            let p = before.position(id);
                            if p < i {
                                assert(before.pending[p].0 < before.pending[i as int].0);
                            } else if i < p {
                                assert(before.pending[i as int].0 < before.pending[p].0);
                            }
                        }
                        let mut pending: Vec<(u64, W)> = Vec::new();
                        core::mem::swap(&mut pending, &mut self.pending);
                        let (_, waiter) = pending.remove(i);
                        self.pending = pending;
                        assert(self@ == before.resolve(id));
                        Inbound::Deliver(Delivery { waiter, response: result })
                    },
                    None => Inbound::Unclaimed { id },
                }
            },
            PluginMessage::Event { event } => Inbound::Notify(handle_event(event)),
        }
    }

    /// Take in a line from the plugin's output. An empty line is ignored; a
    /// line that is no message of the protocol is reported as malformed and
    /// changes nothing; any other is handled as its message.
    pub fn handle_line(&mut self, line: &str) -> (r: Inbound<W>)
        ensures
            if line@.len() == 0 {
                r == Inbound::<W>::Ignored && final(self)@ == old(self)@
            } else {
                match parse_message_line(line@) {
                    Some(message) => accepts(old(self)@, message, r, final(self)@),
                    None => r == Inbound::<W>::Malformed && final(self)@ == old(self)@,
                }
            },
    {
        if line.is_empty() {
            return Inbound::Ignored;
        }
        match decode_message_line(line) {
            Some(message) => self.handle_message(message),
            None => Inbound::Malformed,
        }
    }
}

/// End every wait after the plugin's output closed: nothing is pending any
/// more, and each waiter, oldest first, gets a `command_error` that says
/// that the plugin disconnected.
pub fn drain_pending_with_failure<W>(process: &mut PluginProcess<W>) -> (r: Vec<Delivery<W>>)
    ensures
        final(process)@ == old(process)@.drain(),
        is_disconnect_notice(r@, old(process)@),
{
    proof {
        use_type_invariant(&*process);
    }
    let ghost before = process@;
    let mut pending: Vec<(u64, W)> = Vec::new();
    core::mem::swap(&mut pending, &mut process.pending);
    process.connected = false;
    assert(process@ == before.drain());
    let mut deliveries: Vec<Delivery<W>> = Vec::new();
    for entry in it: pending
        invariant
            it.seq() == before.pending,
            process@.name == before.name,
            deliveries.len() == it.index(),
            forall|i: int|
                0 <= i < deliveries.len() ==> {
                    &&& (#[trigger] deliveries[i]).waiter == before.pending[i].1
                    &&& deliveries[i].response@ == (ResponseView::CommandError {
                        message: disconnected_text(before.name),
                    })
                },
    {
        let message = String::from_str("plugin `").concat(process.name.as_str()).concat(
            "` disconnected",
        );
        deliveries.push(
            Delivery { waiter: entry.1, response: PluginResponse::CommandError { message } },
        );
    }
    deliveries
}

} // verus!
