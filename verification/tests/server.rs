use helix_plugin::plugin::{drain_pending_with_failure, Inbound, PluginProcess};
use helix_plugin::manifest::PluginEntry;
use helix_plugin::protocol::{HostRequestPayload, PluginCommand, PluginMessage, PluginResponse};
use helix_plugin::server::{
    command_outcome, internal_error, joins, method_not_found, CommandBinding, ErrorCode,
    HostOptions, InitOutcome, InitWarning, InitializeResult, PluginHost, PluginManager, RpcError,
    StartedPlugin,
};
use serde_json::Value;

fn options() -> HostOptions {
    HostOptions::from_cli(Some("/etc/helix/plugins.toml"), "/home/me/.config/helix")
}

fn started(name: &str, process: u32, ids: &[&str]) -> StartedPlugin<u32> {
    StartedPlugin {
        name: name.to_string(),
        process,
        handshake: PluginResponse::Initialized {
            commands: ids.iter().map(|id| PluginCommand::new(id, &format!("{name}:{id}"))).collect(),
        },
    }
}

fn sorted(mut names: Vec<String>) -> Vec<String> {
    names.sort();
    names
}

#[test]
fn manifest_comes_from_the_command_line() {
    let options = HostOptions::from_cli(Some("/etc/helix/plugins.toml"), "/home/me/.config/helix");
    assert_eq!(options.manifest_path(), "/etc/helix/plugins.toml");
    assert_eq!(options.manifest_dir(), Some("/etc/helix".to_string()));
    assert_eq!(options.clone().manifest_path(), "/etc/helix/plugins.toml");
}

#[test]
fn manifest_defaults_to_the_configuration_directory() {
    let options = HostOptions::from_cli(None, "/home/me/.config/helix");
    assert_eq!(options.manifest_path(), "/home/me/.config/helix/plugins.toml");
    assert_eq!(options.manifest_dir(), Some("/home/me/.config/helix".to_string()));
}

#[test]
fn manifest_directory_follows_the_path() {
    assert_eq!(HostOptions::from_cli(Some("plugins.toml"), "/c").manifest_dir(), Some(String::new()));
    assert_eq!(HostOptions::from_cli(Some("a/plugins.toml"), "/c").manifest_dir(), Some("a".to_string()));
    assert_eq!(HostOptions::from_cli(Some("/"), "/c").manifest_dir(), None);
    assert_eq!(HostOptions::from_cli(Some(""), "/c").manifest_dir(), None);
}

#[test]
fn plugin_that_answered_joins_with_its_answer() {
    assert_eq!(
        joins("a".to_string(), 7u32, Ok(PluginResponse::Acknowledge)),
        Some(StartedPlugin { name: "a".to_string(), process: 7, handshake: PluginResponse::Acknowledge })
    );
    assert_eq!(
        joins("b".to_string(), 8u32, Ok(PluginResponse::Initialized { commands: vec![PluginCommand::new("b.run", "Run")] })),
        Some(started("b", 8, &[]).name).map(|name| StartedPlugin {
            name,
            process: 8,
            handshake: PluginResponse::Initialized { commands: vec![PluginCommand::new("b.run", "Run")] },
        })
    );
}

#[test]
fn plugin_whose_handshake_failed_is_skipped() {
    assert_eq!(joins("a".to_string(), 7u32, Err("plugin `a` terminated before responding".to_string())), None);
    let mut manager = PluginManager::new(options());
    let answered = joins("b".to_string(), 2u32, Ok(PluginResponse::Initialized { commands: vec![PluginCommand::new("b.run", "Run")] }));
    let mut started_plugins = Vec::new();
    started_plugins.extend(joins("a".to_string(), 1u32, Err("broken pipe".to_string())));
    started_plugins.extend(answered);
    assert_eq!(manager.ensure_initialized(started_plugins), InitOutcome::Started { warnings: vec![] });
    assert_eq!(manager.command_names(), vec!["b.run"]);
    assert_eq!(manager.process(0), Some(&2));
    assert_eq!(manager.process(1), None);
}

#[test]
fn new_manager_is_empty() {
    let manager: PluginManager<u32> = PluginManager::new(options());
    assert!(!manager.initialized());
    assert_eq!(manager.command_names(), Vec::<String>::new());
    assert_eq!(manager.lookup_command("x.run"), None);
    assert_eq!(manager.process(0), None);
    assert_eq!(manager.options().manifest_path(), "/etc/helix/plugins.toml");
    assert_eq!(manager.manifest_dir(), Some("/etc/helix".to_string()));
}

#[test]
fn registered_commands_route_to_their_plugin() {
    let mut manager = PluginManager::new(options());
    assert_eq!(manager.register_plugin(started("a", 10, &["a.one", "a.two"])), vec![]);
    assert_eq!(manager.register_plugin(started("b", 20, &["b.one"])), vec![]);
    assert_eq!(sorted(manager.command_names()), vec!["a.one", "a.two", "b.one"]);
    assert_eq!(
        manager.lookup_command("a.two"),
        Some(CommandBinding { plugin: 0, title: "a:a.two".to_string(), description: None })
    );
    assert_eq!(manager.lookup_command("b.one").unwrap().plugin, 1);
    assert_eq!(manager.lookup_command("b.two"), None);
    assert_eq!(manager.process(0), Some(&10));
    assert_eq!(manager.process(1), Some(&20));
    assert_eq!(manager.process(2), None);
}

#[test]
fn binding_keeps_title_and_description() {
    let mut manager = PluginManager::new(options());
    manager.register_plugin(StartedPlugin {
        name: "hello".to_string(),
        process: 1u32,
        handshake: PluginResponse::Initialized {
            commands: vec![PluginCommand::new("helix.hello.say_hello", "Say Hello")
                .with_description("Display a friendly greeting.")],
        },
    });
    assert_eq!(
        manager.lookup_command("helix.hello.say_hello"),
        Some(CommandBinding {
            plugin: 0,
            title: "Say Hello".to_string(),
            description: Some("Display a friendly greeting.".to_string()),
        })
    );
}

#[test]
fn later_registration_takes_the_route() {
    let mut manager = PluginManager::new(options());
    assert_eq!(manager.register_plugin(started("A", 1, &["x.run", "a.only"])), vec![]);
    assert_eq!(
        manager.register_plugin(started("B", 2, &["b.only", "x.run"])),
        vec![InitWarning::CommandOverridden { command: "x.run".to_string(), plugin: "B".to_string() }]
    );
    let binding = manager.lookup_command("x.run").unwrap();
    assert_eq!(binding.plugin, 1);
    assert_eq!(binding.title, "B:x.run");
    assert_eq!(manager.process(binding.plugin), Some(&2));
    assert_eq!(manager.lookup_command("a.only").unwrap().plugin, 0);
    assert_eq!(manager.process(0), Some(&1));
    assert_eq!(sorted(manager.command_names()), vec!["a.only", "b.only", "x.run"]);
}

#[test]
fn command_announced_twice_by_one_plugin_is_bound_once() {
    let mut manager = PluginManager::new(options());
    assert_eq!(
        manager.register_plugin(started("A", 1, &["x.run", "x.run"])),
        vec![InitWarning::CommandOverridden { command: "x.run".to_string(), plugin: "A".to_string() }]
    );
    assert_eq!(manager.command_names(), vec!["x.run"]);
}

#[test]
fn unexpected_handshake_keeps_the_plugin_without_commands() {
    let mut manager = PluginManager::new(options());
    let odd = StartedPlugin { name: "odd".to_string(), process: 5u32, handshake: PluginResponse::Acknowledge };
    assert_eq!(
        manager.register_plugin(odd),
        vec![InitWarning::UnexpectedHandshake { plugin: "odd".to_string() }]
    );
    let refused = StartedPlugin {
        name: "refused".to_string(),
        process: 6u32,
        handshake: PluginResponse::CommandError { message: "plugin already initialized".to_string() },
    };
    assert_eq!(
        manager.register_plugin(refused),
        vec![InitWarning::UnexpectedHandshake { plugin: "refused".to_string() }]
    );
    assert_eq!(manager.command_names(), Vec::<String>::new());
    assert_eq!(manager.process(0), Some(&5));
    assert_eq!(manager.process(1), Some(&6));
    assert_eq!(manager.register_plugin(started("next", 7, &["n.run"])), vec![]);
    assert_eq!(manager.lookup_command("n.run").unwrap().plugin, 2);
}

#[test]
fn plugins_are_started_once() {
    let mut manager = PluginManager::new(options());
    let first = manager.ensure_initialized(vec![started("a", 1, &["a.run"]), started("b", 2, &["b.run"])]);
    assert_eq!(first, InitOutcome::Started { warnings: vec![] });
    assert!(manager.initialized());
    let again = manager.ensure_initialized(vec![started("c", 3, &["c.run"])]);
    assert_eq!(again, InitOutcome::AlreadyInitialized { unused: vec![started("c", 3, &["c.run"])] });
    assert!(manager.initialized());
    assert_eq!(sorted(manager.command_names()), vec!["a.run", "b.run"]);
    assert_eq!(manager.process(2), None);
}

#[test]
fn start_reports_warnings_in_order() {
    let mut manager = PluginManager::new(options());
    let outcome = manager.ensure_initialized(vec![
        started("A", 1, &["x.run"]),
        StartedPlugin { name: "odd".to_string(), process: 2, handshake: PluginResponse::Acknowledge },
        started("B", 3, &["x.run", "y.run"]),
        started("C", 4, &["y.run"]),
    ]);
    assert_eq!(
        outcome,
        InitOutcome::Started {
            warnings: vec![
                InitWarning::UnexpectedHandshake { plugin: "odd".to_string() },
                InitWarning::CommandOverridden { command: "x.run".to_string(), plugin: "B".to_string() },
                InitWarning::CommandOverridden { command: "y.run".to_string(), plugin: "C".to_string() },
            ],
        }
    );
    assert_eq!(manager.lookup_command("x.run").unwrap().plugin, 2);
    assert_eq!(manager.lookup_command("y.run").unwrap().plugin, 3);
}

#[test]
fn shutdown_hands_back_the_plugins_and_clears() {
    let mut manager = PluginManager::new(options());
    manager.ensure_initialized(vec![started("a", 1, &["a.run"]), started("b", 2, &["b.run"])]);
    assert_eq!(manager.shutdown_all(), vec![("a".to_string(), 1), ("b".to_string(), 2)]);
    assert!(!manager.initialized());
    assert_eq!(manager.command_names(), Vec::<String>::new());
    assert_eq!(manager.lookup_command("a.run"), None);
    assert_eq!(manager.process(0), None);
    assert_eq!(manager.shutdown_all(), vec![]);
}

#[test]
fn initialize_after_shutdown_starts_anew() {
    let mut host = PluginHost::new(options());
    assert!(host.needs_plugins());
    host.initialize(vec![started("a", 1, &["a.run"])]);
    assert!(!host.needs_plugins());
    assert_eq!(host.shutdown(), vec![("a".to_string(), 1)]);
    assert!(host.needs_plugins());
    let (result, outcome) = host.initialize(vec![started("b", 2, &["b.run"])]);
    assert_eq!(outcome, InitOutcome::Started { warnings: vec![] });
    assert_eq!(result.commands, vec!["b.run"]);
    assert!(host.execute_command("a.run", vec![]).is_err());
    assert_eq!(host.execute_command("b.run", vec![]).unwrap().process, &2);
}

#[test]
fn initialize_announces_the_commands() {
    let mut host = PluginHost::new(options());
    let (result, outcome) = host.initialize(vec![started("hello", 1, &["helix.hello.say_hello"])]);
    assert_eq!(outcome, InitOutcome::Started { warnings: vec![] });
    assert_eq!(
        result,
        InitializeResult {
            commands: vec!["helix.hello.say_hello".to_string()],
            server_name: "helix-plugin-host".to_string(),
        }
    );
    let (again, outcome) = host.initialize(vec![]);
    assert_eq!(outcome, InitOutcome::AlreadyInitialized { unused: vec![] });
    assert_eq!(again.commands, vec!["helix.hello.say_hello"]);
    assert_eq!(host.manager().command_names(), vec!["helix.hello.say_hello"]);
}

#[test]
fn host_without_plugins_knows_no_command() {
    let mut host: PluginHost<u32> = PluginHost::new(options());
    let (result, _) = host.initialize(vec![]);
    assert_eq!(result.commands, Vec::<String>::new());
    assert_eq!(
        host.execute_command("x", vec![]).unwrap_err(),
        RpcError { code: ErrorCode::MethodNotFound, message: "command `x` not registered".to_string() }
    );
}

#[test]
fn command_is_dispatched_to_its_owner() {
    let mut host = PluginHost::new(options());
    host.initialize(vec![started("A", 10, &["x.run"]), started("B", 20, &["x.run", "b.run"])]);
    let arguments = vec![Value::from(1u64), Value::Null];
    let dispatch = host.execute_command("x.run", arguments.clone()).unwrap();
    assert_eq!(dispatch.process, &20);
    assert_eq!(
        dispatch.payload,
        HostRequestPayload::Execute { command: "x.run".to_string(), arguments }
    );
    assert_eq!(host.execute_command("X.RUN", vec![]).unwrap_err().code, ErrorCode::MethodNotFound);
}

#[test]
fn outcome_of_a_result_is_its_value() {
    assert_eq!(command_outcome(Ok(PluginResponse::CommandResult { result: None })), Ok(None));
    assert_eq!(
        command_outcome(Ok(PluginResponse::CommandResult { result: Some(Value::from(3u64)) })),
        Ok(Some(Value::from(3u64)))
    );
}

#[test]
fn outcome_of_a_failure_is_an_internal_error() {
    assert_eq!(
        command_outcome(Ok(PluginResponse::CommandError { message: "task failed".to_string() })),
        Err(RpcError { code: ErrorCode::InternalError, message: "task failed".to_string() })
    );
    assert_eq!(
        command_outcome(Err("plugin `x` terminated before responding".to_string())),
        Err(RpcError {
            code: ErrorCode::InternalError,
            message: "plugin `x` terminated before responding".to_string(),
        })
    );
}

#[test]
fn outcome_of_another_response_cites_it() {
    assert_eq!(
        command_outcome(Ok(PluginResponse::Acknowledge)),
        Err(RpcError {
            code: ErrorCode::InternalError,
            message: "plugin returned unexpected response for executeCommand: acknowledge".to_string(),
        })
    );
    assert_eq!(
        command_outcome(Ok(PluginResponse::Initialized { commands: vec![] })),
        Err(RpcError {
            code: ErrorCode::InternalError,
            message: "plugin returned unexpected response for executeCommand: initialized".to_string(),
        })
    );
}

#[test]
fn errors_carry_the_json_rpc_codes() {
    assert_eq!(ErrorCode::MethodNotFound.code(), -32601);
    assert_eq!(ErrorCode::InternalError.code(), -32603);
    assert_eq!(
        internal_error("boom".to_string()),
        RpcError { code: ErrorCode::InternalError, message: "boom".to_string() }
    );
    assert_eq!(
        method_not_found("helix.task.run"),
        RpcError {
            code: ErrorCode::MethodNotFound,
            message: "command `helix.task.run` not registered".to_string(),
        }
    );
}

#[test]
fn crash_mid_flight_surfaces_as_internal_error() {
    let entry = PluginEntry {
        name: "crashy".to_string(),
        command: "crashy".to_string(),
        args: vec![],
        env: vec![],
        cwd: None,
    };
    let (mut process, _) = PluginProcess::<u8>::spawn("/etc/helix", &entry, None);
    let mut host = PluginHost::new(options());
    host.initialize(vec![started("crashy", 0, &["crashy.run"])]);
    let dispatch = host.execute_command("crashy.run", vec![]).unwrap();
    process.send_request(dispatch.payload, 42).unwrap();
    let mut deliveries = drain_pending_with_failure(&mut process);
    assert_eq!(deliveries.len(), 1);
    let delivery = deliveries.pop().unwrap();
    assert_eq!(delivery.waiter, 42);
    let error = command_outcome(Ok(delivery.response)).unwrap_err();
    assert_eq!(error.code, ErrorCode::InternalError);
    assert!(error.message.contains("plugin `crashy` disconnected"));
}

#[test]
fn happy_path_from_handshake_to_result() {
    let entry = PluginEntry {
        name: "hello".to_string(),
        command: "hello-plugin".to_string(),
        args: vec![],
        env: vec![],
        cwd: None,
    };
    let (mut process, _) = PluginProcess::<&str>::spawn("/etc/helix", &entry, None);
    let handshake = process
        .send_request(HostRequestPayload::Initialize { workspace_root: None }, "handshake")
        .unwrap();
    assert_eq!(handshake.id, 1);
    let answer = PluginMessage::Response {
        id: 1,
        result: PluginResponse::Initialized {
            commands: vec![PluginCommand::new("helix.hello.say_hello", "Say Hello")],
        },
    };
    let Inbound::Deliver(delivery) = process.handle_message(answer) else {
        panic!("the handshake reply belongs to the handshake");
    };
    let mut host = PluginHost::new(options());
    let (result, _) = host.initialize(vec![StartedPlugin {
        name: "hello".to_string(),
        process: 0u8,
        handshake: delivery.response,
    }]);
    assert_eq!(result.commands, vec!["helix.hello.say_hello"]);

    let dispatch = host.execute_command("helix.hello.say_hello", vec![]).unwrap();
    let sent = process.send_request(dispatch.payload, "command").unwrap();
    assert_eq!(sent.id, 2);
    let reply = process.handle_line(r#"{"type":"response","id":2,"result":{"type":"command_result","result":null}}"#);
    let Inbound::Deliver(delivery) = reply else {
        panic!("the reply belongs to the command");
    };
    assert_eq!(delivery.waiter, "command");
    assert_eq!(command_outcome(Ok(delivery.response)), Ok(None));
}
