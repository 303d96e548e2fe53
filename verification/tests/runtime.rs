use helix_plugin::protocol::{
    HostRequest, HostRequestPayload, MessageLevel, PluginCommand, PluginEvent, PluginMessage,
    PluginResponse,
};
use helix_plugin::runtime::{
    event_messages, execute_reply, execute_step, initialize_step, refusal, run, write_messages,
    CommandContext, CommandRegistry, InitializeContext, LineStep, Plugin, PluginError, Registrar,
    RunReport, Runtime, RuntimeError, Step, StepOutcome,
};
use helix_plugin::wire::{decode_message_line, encode_request_line};
use serde_json::Value;

struct Hello {
    fail_initialize: bool,
    register_twice: bool,
}

fn hello() -> Hello {
    Hello { fail_initialize: false, register_twice: false }
}

impl Plugin for Hello {
    fn name(&self) -> &'static str {
        "hello-plugin"
    }

    fn initialize<R: Registrar>(
        &mut self,
        ctx: &mut InitializeContext,
        registrar: &mut R,
    ) -> Result<(), PluginError> {
        registrar.register_command(
            PluginCommand::new("helix.hello.say_hello", "Say Hello")
                .with_description("Display a friendly greeting."),
        )?;
        if let Some(root) = ctx.workspace_root() {
            let message = format!("Hello plugin loaded for workspace: {root}");
            ctx.log(MessageLevel::Info, &message);
        }
        if self.register_twice {
            registrar.register_command(PluginCommand::new("helix.hello.say_hello", "Again"))?;
        }
        if self.fail_initialize {
            return Err(PluginError::new("no greeting today"));
        }
        Ok(())
    }

    fn execute(
        &mut self,
        command: &str,
        arguments: Vec<Value>,
        ctx: &mut CommandContext<'_>,
    ) -> Result<Option<Value>, PluginError> {
        match command {
            "helix.hello.say_hello" => {
                ctx.show_message(MessageLevel::Info, "Hello from the Helix plugin runtime!");
                Ok(None)
            }
            "helix.hello.echo" => {
                ctx.log(MessageLevel::Log, "echo");
                ctx.show_message(MessageLevel::Warning, ctx.plugin_name());
                Ok(Some(Value::Array(arguments)))
            }
            other => Err(PluginError::new(&format!("unknown command `{other}`"))),
        }
    }
}

fn initialize(id: u64, root: Option<&str>) -> HostRequest {
    HostRequest {
        id,
        payload: HostRequestPayload::Initialize { workspace_root: root.map(str::to_string) },
    }
}

fn execute(id: u64, command: &str, arguments: Vec<Value>) -> HostRequest {
    HostRequest { id, payload: HostRequestPayload::Execute { command: command.to_string(), arguments } }
}

fn shutdown(id: u64) -> HostRequest {
    HostRequest { id, payload: HostRequestPayload::Shutdown }
}

fn error_reply(id: u64, message: &str) -> PluginMessage {
    PluginMessage::Response { id, result: PluginResponse::CommandError { message: message.to_string() } }
}

fn say_hello_command() -> PluginCommand {
    PluginCommand::new("helix.hello.say_hello", "Say Hello").with_description("Display a friendly greeting.")
}

fn line_of(request: &HostRequest) -> String {
    let mut line = encode_request_line(request).unwrap();
    line.pop();
    line
}

fn read(lines: &[String]) -> Vec<PluginMessage> {
    lines.iter().map(|line| decode_message_line(line).unwrap()).collect()
}

#[test]
fn execute_before_initialize_is_refused() {
    let mut runtime = Runtime::new(hello());
    let step = runtime.handle_request(execute(5, "helix.hello.say_hello", vec![]));
    assert_eq!(
        step,
        Step { messages: vec![error_reply(5, "plugin not initialized")], outcome: StepOutcome::Continue }
    );
    assert!(!runtime.initialized());
}

#[test]
fn second_initialize_is_refused() {
    let mut runtime = Runtime::new(hello());
    let first = runtime.handle_request(initialize(1, None));
    assert_eq!(first.outcome, StepOutcome::Continue);
    assert!(runtime.initialized());
    let second = runtime.handle_request(initialize(2, Some("/elsewhere")));
    assert_eq!(
        second,
        Step { messages: vec![error_reply(2, "plugin already initialized")], outcome: StepOutcome::Continue }
    );
    assert!(runtime.initialized());
}

#[test]
fn initialize_answers_with_registered_commands() {
    let mut runtime = Runtime::new(hello());
    let step = runtime.handle_request(initialize(1, None));
    assert_eq!(
        step,
        Step {
            messages: vec![PluginMessage::Response {
                id: 1,
                result: PluginResponse::Initialized { commands: vec![say_hello_command()] },
            }],
            outcome: StepOutcome::Continue,
        }
    );
}

#[test]
fn events_of_initialize_come_before_the_reply() {
    let mut runtime = Runtime::new(hello());
    let step = runtime.handle_request(initialize(9, Some("/work")));
    assert_eq!(
        step.messages,
        vec![
            PluginMessage::Event {
                event: PluginEvent::Log {
                    level: MessageLevel::Info,
                    message: "Hello plugin loaded for workspace: /work".to_string(),
                },
            },
            PluginMessage::Response {
                id: 9,
                result: PluginResponse::Initialized { commands: vec![say_hello_command()] },
            },
        ]
    );
}

#[test]
fn failed_initialize_stops_the_runtime() {
    let mut runtime = Runtime::new(Hello { fail_initialize: true, register_twice: false });
    let step = runtime.handle_request(initialize(1, Some("/work")));
    assert_eq!(
        step,
        Step {
            messages: vec![PluginMessage::Event {
                event: PluginEvent::Log {
                    level: MessageLevel::Info,
                    message: "Hello plugin loaded for workspace: /work".to_string(),
                },
            }],
            outcome: StepOutcome::Failed(RuntimeError::InitializeFailed {
                plugin: "hello-plugin".to_string(),
                message: "no greeting today".to_string(),
            }),
        }
    );
    assert!(!runtime.initialized());
}

#[test]
fn duplicate_registration_fails_initialize() {
    let mut runtime = Runtime::new(Hello { fail_initialize: false, register_twice: true });
    let step = runtime.handle_request(initialize(1, None));
    assert_eq!(
        step.outcome,
        StepOutcome::Failed(RuntimeError::InitializeFailed {
            plugin: "hello-plugin".to_string(),
            message: "command `helix.hello.say_hello` registered multiple times".to_string(),
        })
    );
}

#[test]
fn handler_without_value_gives_null_result() {
    let mut runtime = Runtime::new(hello());
    runtime.handle_request(initialize(1, None));
    let step = runtime.handle_request(execute(2, "helix.hello.say_hello", vec![]));
    assert_eq!(
        step,
        Step {
            messages: vec![
                PluginMessage::Event {
                    event: PluginEvent::ShowMessage {
                        level: MessageLevel::Info,
                        message: "Hello from the Helix plugin runtime!".to_string(),
                    },
                },
                PluginMessage::Response { id: 2, result: PluginResponse::CommandResult { result: None } },
            ],
            outcome: StepOutcome::Continue,
        }
    );
    let lines = write_messages(&step.messages, StepOutcome::Continue).lines;
    let reply: Value = serde_json::from_str(&lines[1]).unwrap();
    assert_eq!(reply["result"]["type"], Value::String("command_result".to_string()));
    assert!(reply["result"]["result"].is_null());
    assert!(reply["result"].as_object().unwrap().contains_key("result"));
}

#[test]
fn handler_value_and_events_are_kept_in_order() {
    let mut runtime = Runtime::new(hello());
    runtime.handle_request(initialize(1, None));
    let arguments = vec![Value::from(1u64), Value::String("two".to_string())];
    let step = runtime.handle_request(execute(3, "helix.hello.echo", arguments.clone()));
    assert_eq!(
        step.messages,
        vec![
            PluginMessage::Event {
                event: PluginEvent::Log { level: MessageLevel::Log, message: "echo".to_string() },
            },
            PluginMessage::Event {
                event: PluginEvent::ShowMessage {
                    level: MessageLevel::Warning,
                    message: "hello-plugin".to_string(),
                },
            },
            PluginMessage::Response {
                id: 3,
                result: PluginResponse::CommandResult { result: Some(Value::Array(arguments)) },
            },
        ]
    );
}

#[test]
fn handler_failure_gives_command_error() {
    let mut runtime = Runtime::new(hello());
    runtime.handle_request(initialize(1, None));
    let step = runtime.handle_request(execute(4, "helix.hello.nope", vec![]));
    assert_eq!(
        step,
        Step {
            messages: vec![error_reply(4, "unknown command `helix.hello.nope`")],
            outcome: StepOutcome::Continue,
        }
    );
}

#[test]
fn shutdown_is_acknowledged_in_any_state() {
    let mut fresh = Runtime::new(hello());
    let step = fresh.handle_request(shutdown(1));
    let acknowledged = Step {
        messages: vec![PluginMessage::Response { id: 1, result: PluginResponse::Acknowledge }],
        outcome: StepOutcome::Shutdown,
    };
    assert_eq!(step, acknowledged);
    assert!(!fresh.initialized());

    let mut ready = Runtime::new(hello());
    ready.handle_request(initialize(0, None));
    assert_eq!(ready.handle_request(shutdown(1)), acknowledged);
    assert!(ready.initialized());
}

#[test]
fn execute_reply_stands_for_the_outcome() {
    assert_eq!(
        execute_reply(1, Ok(None)),
        PluginMessage::Response { id: 1, result: PluginResponse::CommandResult { result: None } }
    );
    assert_eq!(
        execute_reply(2, Ok(Some(Value::Bool(true)))),
        PluginMessage::Response {
            id: 2,
            result: PluginResponse::CommandResult { result: Some(Value::Bool(true)) },
        }
    );
    assert_eq!(execute_reply(3, Err(PluginError::new("bad"))), error_reply(3, "bad"));
    assert_eq!(refusal(4, "no"), error_reply(4, "no"));
}

#[test]
fn execute_step_writes_events_then_the_reply() {
    let events = vec![
        PluginEvent::Log { level: MessageLevel::Info, message: "working".to_string() },
        PluginEvent::ShowMessage { level: MessageLevel::Info, message: "done".to_string() },
    ];
    assert_eq!(
        execute_step(4, events.clone(), Ok(Some(Value::from(12u64)))),
        Step {
            messages: vec![
                PluginMessage::Event { event: events[0].clone() },
                PluginMessage::Event { event: events[1].clone() },
                PluginMessage::Response {
                    id: 4,
                    result: PluginResponse::CommandResult { result: Some(Value::from(12u64)) },
                },
            ],
            outcome: StepOutcome::Continue,
        }
    );
    assert_eq!(
        execute_step(5, vec![], Err(PluginError::new("missing `name` field"))),
        Step { messages: vec![error_reply(5, "missing `name` field")], outcome: StepOutcome::Continue }
    );
}

#[test]
fn initialize_step_answers_or_stops() {
    let events = vec![PluginEvent::Log { level: MessageLevel::Warning, message: "no root".to_string() }];
    let commands = vec![PluginCommand::new("a", "A"), PluginCommand::new("b", "B")];
    assert_eq!(
        initialize_step(1, "task-runner", events.clone(), Ok(()), commands.clone()),
        Step {
            messages: vec![
                PluginMessage::Event { event: events[0].clone() },
                PluginMessage::Response {
                    id: 1,
                    result: PluginResponse::Initialized { commands: commands.clone() },
                },
            ],
            outcome: StepOutcome::Continue,
        }
    );
    assert_eq!(
        initialize_step(1, "task-runner", events.clone(), Err(PluginError::new("broken")), commands),
        Step {
            messages: vec![PluginMessage::Event { event: events[0].clone() }],
            outcome: StepOutcome::Failed(RuntimeError::InitializeFailed {
                plugin: "task-runner".to_string(),
                message: "broken".to_string(),
            }),
        }
    );
}

#[test]
fn event_messages_wrap_in_order() {
    let events = vec![
        PluginEvent::Log { level: MessageLevel::Error, message: "a".to_string() },
        PluginEvent::ShowMessage { level: MessageLevel::Log, message: "b".to_string() },
    ];
    assert_eq!(
        event_messages(events.clone()),
        vec![
            PluginMessage::Event { event: events[0].clone() },
            PluginMessage::Event { event: events[1].clone() },
        ]
    );
    assert_eq!(event_messages(vec![]), vec![]);
}

#[test]
fn blank_lines_are_skipped_by_the_plugin() {
    let mut runtime = Runtime::new(hello());
    for line in ["", " ", "\t", "   \r", "\u{a0}\u{2003}"] {
        assert_eq!(
            runtime.handle_line(line),
            LineStep { lines: vec![], outcome: StepOutcome::Continue },
            "{line:?}"
        );
    }
    assert!(!runtime.initialized());
}

#[test]
fn malformed_line_stops_the_runtime() {
    let mut runtime = Runtime::new(hello());
    assert_eq!(
        runtime.handle_line("{\"id\":1}"),
        LineStep {
            lines: vec![],
            outcome: StepOutcome::Failed(RuntimeError::MalformedRequest { line: "{\"id\":1}".to_string() }),
        }
    );
}

#[test]
fn unknown_request_is_refused_by_the_plugin() {
    let mut runtime = Runtime::new(hello());
    let step = runtime.handle_line(r#"{"id":21,"payload":{"type":"cancel"}}"#);
    assert_eq!(step.outcome, StepOutcome::Continue);
    assert_eq!(read(&step.lines), vec![error_reply(21, "unknown request")]);
}

#[test]
fn line_is_answered_as_its_request() {
    let mut runtime = Runtime::new(hello());
    let step = runtime.handle_line(&line_of(&initialize(1, Some("/w"))));
    assert_eq!(step.outcome, StepOutcome::Continue);
    assert_eq!(
        read(&step.lines),
        vec![
            PluginMessage::Event {
                event: PluginEvent::Log {
                    level: MessageLevel::Info,
                    message: "Hello plugin loaded for workspace: /w".to_string(),
                },
            },
            PluginMessage::Response {
                id: 1,
                result: PluginResponse::Initialized { commands: vec![say_hello_command()] },
            },
        ]
    );
    for line in &step.lines {
        assert!(line.ends_with('\n'));
        assert_eq!(line.matches('\n').count(), 1);
    }
}

#[test]
fn run_reads_until_shutdown() {
    let input = vec![
        String::new(),
        line_of(&execute(1, "helix.hello.say_hello", vec![])),
        line_of(&initialize(2, None)),
        "   ".to_string(),
        line_of(&execute(3, "helix.hello.say_hello", vec![])),
        line_of(&shutdown(4)),
        line_of(&execute(5, "helix.hello.say_hello", vec![])),
    ];
    let report = run(hello(), &input);
    assert_eq!(report.consumed, 6);
    assert_eq!(report.outcome, StepOutcome::Shutdown);
    assert_eq!(
        read(&report.lines),
        vec![
            error_reply(1, "plugin not initialized"),
            PluginMessage::Response {
                id: 2,
                result: PluginResponse::Initialized { commands: vec![say_hello_command()] },
            },
            PluginMessage::Event {
                event: PluginEvent::ShowMessage {
                    level: MessageLevel::Info,
                    message: "Hello from the Helix plugin runtime!".to_string(),
                },
            },
            PluginMessage::Response { id: 3, result: PluginResponse::CommandResult { result: None } },
            PluginMessage::Response { id: 4, result: PluginResponse::Acknowledge },
        ]
    );
}

#[test]
fn run_ends_with_the_input() {
    let input = vec![line_of(&initialize(1, None)), String::new()];
    let report = run(hello(), &input);
    assert_eq!(report.consumed, 2);
    assert_eq!(report.outcome, StepOutcome::Continue);
    assert_eq!(report.lines.len(), 1);

    assert_eq!(
        run(hello(), &vec![]),
        RunReport { lines: vec![], consumed: 0, outcome: StepOutcome::Continue }
    );
}

#[test]
fn run_stops_at_the_first_failure() {
    let input = vec![
        line_of(&initialize(1, None)),
        "garbage".to_string(),
        line_of(&shutdown(2)),
    ];
    let report = run(hello(), &input);
    assert_eq!(report.consumed, 2);
    assert_eq!(
        report.outcome,
        StepOutcome::Failed(RuntimeError::MalformedRequest { line: "garbage".to_string() })
    );
    assert_eq!(report.lines.len(), 1);
}

#[test]
fn registry_takes_each_id_once() {
    let mut registry = CommandRegistry::new();
    assert!(!registry.contains("a"));
    assert!(registry.register_command(PluginCommand::new("a", "A")).is_ok());
    assert!(registry.register_command(PluginCommand::new("b", "B")).is_ok());
    let again = registry.register_command(PluginCommand::new("a", "Other"));
    assert_eq!(again, Err(PluginError::new("command `a` registered multiple times")));
    assert!(registry.contains("a"));
    assert!(registry.contains("b"));
    assert!(!registry.contains("c"));
    assert_eq!(registry.commands(), vec![PluginCommand::new("a", "A"), PluginCommand::new("b", "B")]);
}

#[test]
fn contexts_collect_events_in_order() {
    let mut init = InitializeContext::new(Some("/root".to_string()));
    assert_eq!(init.workspace_root(), Some("/root"));
    init.show_message(MessageLevel::Error, "first");
    init.log(MessageLevel::Warning, "second");
    assert_eq!(
        init.into_events(),
        vec![
            PluginEvent::ShowMessage { level: MessageLevel::Error, message: "first".to_string() },
            PluginEvent::Log { level: MessageLevel::Warning, message: "second".to_string() },
        ]
    );
    assert_eq!(InitializeContext::new(None).workspace_root(), None);
    assert_eq!(InitializeContext::new(None).into_events(), vec![]);

    let mut command = CommandContext::new("p");
    assert_eq!(command.plugin_name(), "p");
    command.log(MessageLevel::Info, "one");
    command.show_message(MessageLevel::Log, "two");
    assert_eq!(
        command.into_events(),
        vec![
            PluginEvent::Log { level: MessageLevel::Info, message: "one".to_string() },
            PluginEvent::ShowMessage { level: MessageLevel::Log, message: "two".to_string() },
        ]
    );
}

#[test]
fn plugin_error_shows_its_message() {
    let error = PluginError::new("it broke");
    assert_eq!(error.to_string(), "it broke");
    assert_eq!(error.message, "it broke");
}

#[test]
fn command_builder_sets_each_part() {
    let plain = PluginCommand::new("x.run", "Run");
    assert_eq!(plain.id, "x.run");
    assert_eq!(plain.title, "Run");
    assert_eq!(plain.description, None);
    let described = plain.clone().with_description("Runs x");
    assert_eq!(described.id, "x.run");
    assert_eq!(described.title, "Run");
    assert_eq!(described.description, Some("Runs x".to_string()));
    assert!(plain != described);
    assert!(plain == PluginCommand::new("x.run", "Run"));
    assert!(plain != PluginCommand::new("x.run", "Walk"));
    assert!(plain != PluginCommand::new("y.run", "Run"));
}
