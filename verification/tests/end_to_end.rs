use helix_plugin::manifest::{ManifestFile, PluginEntry, PluginManifest};
use helix_plugin::plugin::{
    drain_pending_with_failure, EditorNotification, Inbound, MessageType, PluginProcess,
};
use helix_plugin::protocol::{HostRequestPayload, MessageLevel, PluginCommand, PluginResponse};
use helix_plugin::runtime::{
    CommandContext, InitializeContext, Plugin, PluginError, Registrar, Runtime, StepOutcome,
};
use helix_plugin::server::{
    command_outcome, ErrorCode, HostOptions, InitOutcome, InitWarning, PluginHost, StartedPlugin,
};
use serde_json::Value;

struct Scripted {
    name: &'static str,
    commands: Vec<&'static str>,
}

impl Plugin for Scripted {
    fn name(&self) -> &'static str {
        self.name
    }

    fn initialize<R: Registrar>(
        &mut self,
        ctx: &mut InitializeContext,
        registrar: &mut R,
    ) -> Result<(), PluginError> {
        ctx.log(MessageLevel::Info, "starting");
        for command in &self.commands {
            registrar.register_command(PluginCommand::new(command, "A command"))?;
        }
        Ok(())
    }

    fn execute(
        &mut self,
        command: &str,
        arguments: Vec<Value>,
        ctx: &mut CommandContext<'_>,
    ) -> Result<Option<Value>, PluginError> {
        if command == "helix.hello.say_hello" {
            ctx.show_message(MessageLevel::Info, "Hello from the Helix plugin runtime!");
            return Ok(None);
        }
        if arguments.is_empty() {
            return Err(PluginError::new("nothing to do"));
        }
        Ok(Some(Value::String(format!("{}:{}", self.name, command))))
    }
}

/// A plugin and the host's record of it, joined by their lines.
struct Wired {
    runtime: Runtime<Scripted>,
    process: PluginProcess<u32>,
    notifications: Vec<EditorNotification>,
}

impl Wired {
    fn launch(name: &'static str, commands: Vec<&'static str>) -> Wired {
        let entry = PluginEntry {
            name: name.to_string(),
            command: name.to_string(),
            args: vec![],
            env: vec![],
            cwd: None,
        };
        let (process, _) = PluginProcess::spawn("/etc/helix", &entry, None);
        Wired { runtime: Runtime::new(Scripted { name, commands }), process, notifications: vec![] }
    }

    /// Send a request, let the plugin answer, and hand the answers to the
    /// reader: the replies that were delivered come back with their waiters.
    fn exchange(&mut self, payload: HostRequestPayload, waiter: u32) -> Vec<(u32, PluginResponse)> {
        let outbound = self.process.send_request(payload, waiter).unwrap();
        let step = self.runtime.handle_line(outbound.line.trim_end_matches('\n'));
        let mut delivered = vec![];
        for line in step.lines {
            match self.process.handle_line(line.trim_end_matches('\n')) {
                Inbound::Deliver(delivery) => delivered.push((delivery.waiter, delivery.response)),
                Inbound::Notify(notification) => self.notifications.push(notification),
                other => panic!("unexpected inbound {other:?}"),
            }
        }
        delivered
    }

    fn handshake(mut self, index: usize) -> (Wired, StartedPlugin<usize>) {
        let name = self.process.name().to_string();
        let mut delivered =
            self.exchange(HostRequestPayload::Initialize { workspace_root: None }, 0);
        assert_eq!(delivered.len(), 1);
        let (_, handshake) = delivered.pop().unwrap();
        (self, StartedPlugin { name, process: index, handshake })
    }
}

fn options() -> HostOptions {
    HostOptions::from_cli(Some("/etc/helix/plugins.toml"), "/unused")
}

#[test]
fn editor_command_reaches_the_plugin_and_comes_back() {
    let (mut hello, started) = Wired::launch("hello", vec!["helix.hello.say_hello"]).handshake(0);
    assert_eq!(
        hello.notifications,
        vec![EditorNotification::LogMessage { kind: MessageType::Info, message: "starting".to_string() }]
    );
    hello.notifications.clear();

    let mut host = PluginHost::new(options());
    let (result, outcome) = host.initialize(vec![started]);
    assert_eq!(outcome, InitOutcome::Started { warnings: vec![] });
    assert_eq!(result.commands, vec!["helix.hello.say_hello"]);
    assert_eq!(result.server_name, "helix-plugin-host");

    let dispatch = host.execute_command("helix.hello.say_hello", vec![]).unwrap();
    assert_eq!(*dispatch.process, 0);
    let mut delivered = hello.exchange(dispatch.payload, 7);
    assert_eq!(delivered.len(), 1);
    let (waiter, response) = delivered.pop().unwrap();
    assert_eq!(waiter, 7);
    assert_eq!(command_outcome(Ok(response)), Ok(None));
    assert_eq!(
        hello.notifications,
        vec![EditorNotification::ShowMessage {
            kind: MessageType::Info,
            message: "Hello from the Helix plugin runtime!".to_string(),
        }]
    );
    assert_eq!(MessageType::Info.code(), 3);
}

#[test]
fn missing_manifest_gives_a_host_without_commands() {
    let manifest = PluginManifest::load("/nonexistent.toml", ManifestFile::Missing).unwrap();
    assert!(manifest.plugins.is_empty());
    let mut host: PluginHost<usize> = PluginHost::new(options());
    let (result, _) = host.initialize(vec![]);
    assert!(result.commands.is_empty());
    let error = host.execute_command("x", vec![]).unwrap_err();
    assert_eq!(error.code, ErrorCode::MethodNotFound);
    assert_eq!(error.code.code(), -32601);
}

#[test]
fn duplicate_command_is_routed_to_the_later_plugin() {
    let (a, started_a) = Wired::launch("A", vec!["x.run"]).handshake(0);
    let (b, started_b) = Wired::launch("B", vec!["x.run"]).handshake(1);
    let mut plugins = vec![a, b];

    let mut host = PluginHost::new(options());
    let (result, outcome) = host.initialize(vec![started_a, started_b]);
    assert_eq!(result.commands, vec!["x.run"]);
    assert_eq!(
        outcome,
        InitOutcome::Started {
            warnings: vec![InitWarning::CommandOverridden {
                command: "x.run".to_string(),
                plugin: "B".to_string(),
            }],
        }
    );

    let dispatch = host.execute_command("x.run", vec![Value::Bool(true)]).unwrap();
    let owner = *dispatch.process;
    assert_eq!(owner, 1);
    let mut delivered = plugins[owner].exchange(dispatch.payload, 5);
    let (_, response) = delivered.pop().unwrap();
    assert_eq!(command_outcome(Ok(response)), Ok(Some(Value::String("B:x.run".to_string()))));

    assert!(plugins[0].process.is_connected());
    assert_eq!(plugins[0].process.pending_count(), 0);
}

#[test]
fn plugin_failure_reaches_the_editor_as_internal_error() {
    let (mut plugin, started) = Wired::launch("A", vec!["x.run"]).handshake(0);
    let mut host = PluginHost::new(options());
    host.initialize(vec![started]);
    let dispatch = host.execute_command("x.run", vec![]).unwrap();
    let mut delivered = plugin.exchange(dispatch.payload, 1);
    let (_, response) = delivered.pop().unwrap();
    let error = command_outcome(Ok(response)).unwrap_err();
    assert_eq!(error.code, ErrorCode::InternalError);
    assert_eq!(error.message, "nothing to do");
}

#[test]
fn shutdown_is_acknowledged_and_the_host_starts_anew() {
    let (mut plugin, started) = Wired::launch("A", vec!["x.run"]).handshake(0);
    let mut host = PluginHost::new(options());
    host.initialize(vec![started]);

    let stopped = host.shutdown();
    assert_eq!(stopped, vec![("A".to_string(), 0)]);
    let outbound = plugin.process.shutdown(9).unwrap();
    let step = plugin.runtime.handle_line(outbound.line.trim_end_matches('\n'));
    assert_eq!(step.outcome, StepOutcome::Shutdown);
    assert_eq!(step.lines.len(), 1);
    let Inbound::Deliver(delivery) = plugin.process.handle_line(step.lines[0].trim_end_matches('\n'))
    else {
        panic!("the acknowledgement belongs to the shutdown request");
    };
    assert_eq!(delivery.waiter, 9);
    assert_eq!(delivery.response, PluginResponse::Acknowledge);
    assert_eq!(drain_pending_with_failure(&mut plugin.process), vec![]);

    assert!(host.needs_plugins());
    assert!(host.execute_command("x.run", vec![]).is_err());
    let (_, again) = Wired::launch("A", vec!["x.run", "y.run"]).handshake(0);
    let (result, outcome) = host.initialize(vec![again]);
    assert_eq!(outcome, InitOutcome::Started { warnings: vec![] });
    let mut commands = result.commands;
    commands.sort();
    assert_eq!(commands, vec!["x.run", "y.run"]);
}
