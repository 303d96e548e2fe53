use helix_plugin::plugins::github_pr_dashboard as github;
use helix_plugin::plugins::hello::HelloPlugin;
use helix_plugin::plugins::task_runner as tasks;
use helix_plugin::plugins::task_runner::{Task, TaskCommand, TaskRequest};
use helix_plugin::protocol::{
    HostRequest, HostRequestPayload, MessageLevel, PluginCommand, PluginEvent, PluginMessage,
    PluginResponse,
};
use helix_plugin::runtime::{
    CommandContext, CommandRegistry, InitializeContext, Plugin, PluginError, Registrar, Runtime,
    StepOutcome,
};
use serde_json::Value;

fn json(text: &str) -> Value {
    serde_json::from_str(text).unwrap()
}

fn task(name: &str, provider: &str, command: &str) -> Task {
    Task { name: name.to_string(), provider: provider.to_string(), command: command.to_string() }
}

fn command(binary: &str, args: &[&str]) -> TaskCommand {
    TaskCommand { binary: binary.to_string(), args: args.iter().map(|a| a.to_string()).collect() }
}

fn repository(owner: &str, name: &str) -> github::Repository {
    github::Repository { owner: owner.to_string(), name: name.to_string() }
}

#[test]
fn hello_registers_its_command_and_greets() {
    let mut runtime = Runtime::new(HelloPlugin);
    let step = runtime.handle_request(HostRequest {
        id: 1,
        payload: HostRequestPayload::Initialize { workspace_root: Some("/work".to_string()) },
    });
    assert_eq!(
        step.messages,
        vec![
            PluginMessage::Event {
                event: PluginEvent::Log {
                    level: MessageLevel::Info,
                    message: "Hello plugin loaded for workspace: /work".to_string(),
                },
            },
            PluginMessage::Response {
                id: 1,
                result: PluginResponse::Initialized {
                    commands: vec![PluginCommand::new("helix.hello.say_hello", "Say Hello")
                        .with_description("Display a friendly greeting.")],
                },
            },
        ]
    );
    let step = runtime.handle_request(HostRequest {
        id: 2,
        payload: HostRequestPayload::Execute {
            command: "helix.hello.say_hello".to_string(),
            arguments: vec![],
        },
    });
    assert_eq!(
        step.messages,
        vec![
            PluginMessage::Event {
                event: PluginEvent::ShowMessage {
                    level: MessageLevel::Info,
                    message: "Hello from the Helix plugin runtime!".to_string(),
                },
            },
            PluginMessage::Response { id: 2, result: PluginResponse::CommandResult { result: None } },
        ]
    );
    assert_eq!(step.outcome, StepOutcome::Continue);
}

#[test]
fn hello_knows_no_other_command() {
    let mut plugin = HelloPlugin;
    assert_eq!(plugin.name(), "hello-plugin");
    let mut ctx = CommandContext::new("hello-plugin");
    assert_eq!(
        plugin.execute("helix.hello.wave", vec![], &mut ctx),
        Err(PluginError::new("unknown command `helix.hello.wave`"))
    );
    assert_eq!(ctx.into_events(), vec![]);
}

#[test]
fn hello_without_workspace_logs_nothing() {
    let mut plugin = HelloPlugin;
    let mut ctx = InitializeContext::new(None);
    let mut registry = CommandRegistry::new();
    assert_eq!(plugin.initialize(&mut ctx, &mut registry), Ok(()));
    assert_eq!(ctx.into_events(), vec![]);
    let mut again = InitializeContext::new(Some("/w".to_string()));
    assert_eq!(
        plugin.initialize(&mut again, &mut registry),
        Err(PluginError::new("command `helix.hello.say_hello` registered multiple times"))
    );
    assert_eq!(again.into_events(), vec![]);
    assert_eq!(registry.commands().len(), 1);
}

#[test]
fn justfile_recipes_are_found() {
    let text = "# build things\nbuild: deps\n    cargo build\n\n  test  :\n    cargo test\nplain line\nfmt:\r\n#hidden: no\n.dot: yes\n";
    assert_eq!(
        tasks::extract_justfile(Some(text)),
        vec![task("build", "just", ""), task("test", "just", ""), task("fmt", "just", ""), task(".dot", "just", "")]
    );
    assert_eq!(tasks::extract_justfile(Some("")), vec![]);
    assert_eq!(tasks::extract_justfile(None), vec![]);
}

#[test]
fn makefile_targets_are_found() {
    let text = ".PHONY: all clean\nall: build\n\tcc main.c\n# comment: none\nclean:\n\trm -f a.out\nCC := gcc\nurl = http://x\n";
    assert_eq!(
        tasks::extract_makefile(Some(text)),
        vec![task("all", "make", ""), task("clean", "make", ""), task("CC", "make", ""), task("url = http", "make", "")]
    );
    assert_eq!(tasks::extract_makefile(None), vec![]);
}

#[test]
fn package_scripts_are_found() {
    let text = r#"{"name":"pkg","scripts":{"build":"tsc -p .","test":"jest","odd":7}}"#;
    assert_eq!(
        tasks::extract_package_scripts("/w/package.json", Some(text)),
        Ok(vec![task("build", "npm", "tsc -p ."), task("odd", "npm", ""), task("test", "npm", "jest")])
    );
    assert_eq!(tasks::extract_package_scripts("/w/package.json", Some("{}")), Ok(vec![]));
    assert_eq!(tasks::extract_package_scripts("/w/package.json", Some(r#"{"scripts":{}}"#)), Ok(vec![]));
    assert_eq!(tasks::extract_package_scripts("/w/package.json", None), Ok(vec![]));
}

#[test]
fn broken_package_description_fails() {
    for text in ["", "not json", "[]", "3", r#"{"scripts":[]}"#, r#"{"scripts":null}"#, r#"{"scripts":"x"}"#] {
        assert_eq!(
            tasks::extract_package_scripts("/w/package.json", Some(text)),
            Err(PluginError::new("failed to parse /w/package.json")),
            "{text}"
        );
    }
}

#[test]
fn tasks_are_discovered_in_order() {
    let found = tasks::discover_tasks(
        "/w/package.json",
        Some(r#"{"scripts":{"start":"node ."}}"#),
        Some("lint:\n"),
        Some("all:\n"),
    );
    assert_eq!(
        found,
        Ok(vec![task("start", "npm", "node ."), task("lint", "just", ""), task("all", "make", "")])
    );
    assert_eq!(tasks::discover_tasks("/w/package.json", None, None, None), Ok(vec![]));
    assert_eq!(
        tasks::discover_tasks("/w/package.json", Some("{"), Some("lint:\n"), None),
        Err(PluginError::new("failed to parse /w/package.json"))
    );
}

#[test]
fn package_script_is_run_by_its_manager() {
    assert_eq!(tasks::run_package_script("npm", "build"), command("npm", &["run", "build"]));
    assert_eq!(tasks::run_package_script("yarn", "build"), command("yarn", &["build"]));
    assert_eq!(tasks::run_package_script("pnpm", "build"), command("pnpm", &["run", "build"]));
    assert_eq!(tasks::run_package_script("bun", "build"), command("bun", &["build"]));
}

#[test]
fn task_is_run_by_its_provider() {
    assert_eq!(tasks::run_task("npm", "test"), Ok(command("npm", &["run", "test"])));
    assert_eq!(tasks::run_task("yarn", "test"), Ok(command("yarn", &["test"])));
    assert_eq!(tasks::run_task("pnpm", "test"), Ok(command("pnpm", &["run", "test"])));
    assert_eq!(tasks::run_task("just", "fmt"), Ok(command("just", &["fmt"])));
    assert_eq!(tasks::run_task("make", "all"), Ok(command("make", &["all"])));
    assert_eq!(
        tasks::run_task("rake", "db"),
        Err(PluginError::new("task provider `rake` is not supported"))
    );
}

#[test]
fn finished_program_gives_output_or_failure() {
    assert_eq!(tasks::exec_outcome(true, "out".to_string(), "err".to_string()), Ok("out".to_string()));
    assert_eq!(
        tasks::exec_outcome(false, "out".to_string(), "boom\n".to_string()),
        Err(PluginError::new("task failed: boom\n"))
    );
}

#[test]
fn task_request_is_read_from_command_and_arguments() {
    assert_eq!(tasks::read_request("helix.task.list", &vec![]), Ok(TaskRequest::List));
    assert_eq!(
        tasks::read_request("helix.task.run", &vec![json(r#"{"provider":"just","name":"fmt"}"#), json("1")]),
        Ok(TaskRequest::Run { provider: "just".to_string(), name: "fmt".to_string() })
    );
    assert_eq!(
        tasks::read_request("helix.task.run", &vec![]),
        Err(PluginError::new("expected arguments { provider: string, name: string }"))
    );
    assert_eq!(
        tasks::read_request("helix.task.run", &vec![json(r#"{"name":"fmt"}"#)]),
        Err(PluginError::new("missing `provider` field"))
    );
    assert_eq!(
        tasks::read_request("helix.task.run", &vec![json(r#"{"provider":3,"name":"fmt"}"#)]),
        Err(PluginError::new("missing `provider` field"))
    );
    assert_eq!(
        tasks::read_request("helix.task.run", &vec![json(r#"{"provider":"just"}"#)]),
        Err(PluginError::new("missing `name` field"))
    );
    assert_eq!(
        tasks::read_request("helix.task.run", &vec![json(r#"["just","fmt"]"#)]),
        Err(PluginError::new("missing `provider` field"))
    );
    assert_eq!(
        tasks::read_request("helix.task.stop", &vec![]),
        Err(PluginError::new("unknown command `helix.task.stop`"))
    );
}

#[test]
fn task_list_is_an_array_of_objects() {
    let listed = tasks::list_result(&vec![task("build", "npm", "tsc"), task("fmt", "just", "")]);
    assert_eq!(
        listed,
        json(r#"[{"name":"build","provider":"npm","command":"tsc"},{"name":"fmt","provider":"just","command":""}]"#)
    );
    assert_eq!(tasks::list_result(&vec![]), json("[]"));
}

#[test]
fn task_result_tells_the_user() {
    let mut ctx = CommandContext::new("task-runner");
    assert_eq!(
        tasks::run_result("just", "fmt", Ok("done\n".to_string()), &mut ctx),
        Ok(Some(json(r#"{"stdout":"done\n"}"#)))
    );
    assert_eq!(
        tasks::run_result("make", "all", Err(PluginError::new("task failed: no rule")), &mut ctx),
        Err(PluginError::new("task failed: no rule"))
    );
    assert_eq!(
        ctx.into_events(),
        vec![
            PluginEvent::ShowMessage {
                level: MessageLevel::Info,
                message: "task `just:fmt` completed".to_string(),
            },
            PluginEvent::ShowMessage {
                level: MessageLevel::Error,
                message: "task `make:all` failed: task failed: no rule".to_string(),
            },
        ]
    );
}

#[test]
fn task_runner_registers_two_commands() {
    let mut ctx = InitializeContext::new(None);
    let mut registry = CommandRegistry::new();
    assert_eq!(tasks::initialize(true, &mut ctx, &mut registry), Ok(()));
    assert_eq!(ctx.into_events(), vec![]);
    assert_eq!(
        registry.commands(),
        vec![
            PluginCommand::new("helix.task.list", "List project tasks")
                .with_description("Enumerate runnable tasks discovered in the current workspace"),
            PluginCommand::new("helix.task.run", "Run project task")
                .with_description("Execute a task by provider and name"),
        ]
    );

    let mut ctx = InitializeContext::new(None);
    let mut registry = CommandRegistry::new();
    assert_eq!(tasks::initialize(false, &mut ctx, &mut registry), Ok(()));
    assert_eq!(
        ctx.into_events(),
        vec![PluginEvent::Log {
            level: MessageLevel::Warning,
            message: "Task runner could not determine the workspace root.".to_string(),
        }]
    );

    let mut ctx = InitializeContext::new(None);
    let mut taken = CommandRegistry::new();
    taken.register_command(PluginCommand::new("helix.task.run", "Mine")).unwrap();
    assert_eq!(
        tasks::initialize(false, &mut ctx, &mut taken),
        Err(PluginError::new("command `helix.task.run` registered multiple times"))
    );
    assert_eq!(ctx.into_events(), vec![]);
}

#[test]
fn scp_remote_names_owner_and_repository() {
    assert_eq!(github::parse_remote("git@github.com:helix-editor/helix.git"), Ok(repository("helix-editor", "helix")));
    assert_eq!(github::parse_remote("git@github.com:owner/repo"), Ok(repository("owner", "repo")));
    assert_eq!(github::parse_remote("git@github.com:owner/repo.git.git"), Ok(repository("owner", "repo")));
    assert_eq!(github::parse_remote("git@github.com:owner/group/repo.git"), Ok(repository("owner", "group/repo")));
    assert_eq!(github::parse_remote("git@github.com:/repo"), Ok(repository("", "repo")));
}

#[test]
fn broken_scp_remote_is_refused() {
    for remote in ["git@github.com", "git@github.com:repo.git", "git@host:a:b/c", "git@github.com:", "git@:"] {
        assert_eq!(
            github::parse_remote(remote),
            Err(PluginError::new(&format!("unable to parse git remote `{remote}`"))),
            "{remote}"
        );
    }
}

#[test]
fn url_remote_names_owner_and_repository() {
    assert_eq!(
        github::parse_remote("https://github.com/helix-editor/helix.git"),
        Ok(repository("helix-editor", "helix"))
    );
    assert_eq!(github::parse_remote("https://github.com/owner/repo"), Ok(repository("owner", "repo")));
    assert_eq!(github::parse_remote("ssh://git@github.com/owner/repo.git/"), Ok(repository("owner", "repo")));
    assert_eq!(github::parse_remote("https://github.com/owner/repo/tree/main"), Ok(repository("owner", "repo")));
    assert_eq!(github::parse_remote("https://github.com//"), Ok(repository("", "")));
}

#[test]
fn broken_url_remote_is_refused() {
    assert_eq!(
        github::parse_remote("owner/repo"),
        Err(PluginError::new("unable to parse git remote `owner/repo`"))
    );
    assert_eq!(github::parse_remote(""), Err(PluginError::new("unable to parse git remote ``")));
    assert_eq!(
        github::parse_remote("mailto:someone@example.com"),
        Err(PluginError::new("git remote `mailto:someone@example.com` does not contain path segments"))
    );
    assert_eq!(
        github::parse_remote("https://github.com"),
        Err(PluginError::new("git remote `https://github.com` missing repository"))
    );
    assert_eq!(
        github::parse_remote("https://github.com/owner"),
        Err(PluginError::new("git remote `https://github.com/owner` missing repository"))
    );
}

#[test]
fn pull_requests_are_listed_at_the_api() {
    assert_eq!(
        github::pulls_url(&repository("helix-editor", "helix")),
        "https://api.github.com/repos/helix-editor/helix/pulls"
    );
    assert_eq!(
        github::list_address(&Some(repository("o", "r"))),
        Ok("https://api.github.com/repos/o/r/pulls".to_string())
    );
    assert_eq!(
        github::list_address(&None),
        Err(PluginError::new(
            "GitHub repository could not be detected. Run `git remote -v` to ensure `origin` is set."
        ))
    );
}

#[test]
fn pull_request_list_is_an_array_of_objects() {
    let prs = vec![
        github::PullRequest {
            number: 42,
            title: "Add plugins".to_string(),
            html_url: "https://github.com/o/r/pull/42".to_string(),
            state: "open".to_string(),
            draft: true,
            author: Some("octocat".to_string()),
            mergeable_state: Some("clean".to_string()),
        },
        github::PullRequest {
            number: 7,
            title: String::new(),
            html_url: "u".to_string(),
            state: "closed".to_string(),
            draft: false,
            author: None,
            mergeable_state: None,
        },
    ];
    assert_eq!(
        github::list_result(&prs),
        json(
            r#"[{"number":42,"title":"Add plugins","url":"https://github.com/o/r/pull/42","state":"open","draft":true,"author":"octocat","mergeable_state":"clean"},{"number":7,"title":"","url":"u","state":"closed","draft":false,"author":null,"mergeable_state":null}]"#
        )
    );
    assert_eq!(github::list_result(&vec![]), json("[]"));
}

#[test]
fn github_plugin_has_one_command() {
    assert_eq!(github::check_command("helix.github.list_prs"), Ok(()));
    assert_eq!(
        github::check_command("helix.github.merge"),
        Err(PluginError::new("unknown command `helix.github.merge`"))
    );

    let mut ctx = InitializeContext::new(None);
    let mut registry = CommandRegistry::new();
    assert_eq!(github::initialize(false, &mut ctx, &mut registry), Ok(()));
    assert_eq!(
        ctx.into_events(),
        vec![PluginEvent::Log {
            level: MessageLevel::Warning,
            message: "GitHub PR dashboard could not detect the repository. Commands will fail until a git remote is configured.".to_string(),
        }]
    );
    assert_eq!(
        registry.commands(),
        vec![PluginCommand::new("helix.github.list_prs", "List GitHub pull requests")
            .with_description("Fetch open pull requests for the current repository")]
    );
    let mut ctx = InitializeContext::new(None);
    assert_eq!(
        github::initialize(true, &mut ctx, &mut registry),
        Err(PluginError::new("command `helix.github.list_prs` registered multiple times"))
    );
    assert_eq!(ctx.into_events(), vec![]);
    let mut fresh = CommandRegistry::new();
    let mut ctx = InitializeContext::new(None);
    assert_eq!(github::initialize(true, &mut ctx, &mut fresh), Ok(()));
    assert_eq!(ctx.into_events(), vec![]);
}
