//! A plugin that finds and runs the tasks of a workspace: package scripts,
//! justfile recipes and make targets.
//!
//! Reading the workspace's files and running programs are the caller's. Here
//! is what the plugin makes of a file's text, which program a task stands
//! for, and what it answers.

use crate::json::{
    array_value, distinct_keys, json_field, json_fields, json_items, json_parse, json_text,
    member, members, members_of, parse_text, text_value,
};
use crate::protocol::{command_ids, EventView, MessageLevel, PluginCommand, PluginCommandView};
use crate::runtime::{
    duplicate_command_text, CommandContext, InitializeContext, PluginError, Registrar,
};
use crate::text::{
    head_before, lemma_splits_at, lines, same_text, split_once_char, starts_with_char,
    text_lines, texts_view, trim, trimmed,
};
use crate::wire::{has_members, has_text, object_1, object_3};
use serde_json::Value;
use vstd::prelude::*;
use vstd::string::StringExecFns;

verus! {

/// A task that the workspace offers.
#[derive(Debug, PartialEq)]
pub struct Task {
    /// The task's name.
    pub name: String,
    /// Who runs it: `npm`, `just` or `make`.
    pub provider: String,
    /// The command line behind a package script; empty for the others.
    pub command: String,
}

/// What a [`Task`] says.
pub struct TaskView {
    pub name: Seq<char>,
    pub provider: Seq<char>,
    pub command: Seq<char>,
}

impl View for Task {
    type V = TaskView;

    open spec fn view(&self) -> TaskView {
        TaskView { name: self.name@, provider: self.provider@, command: self.command@ }
    }
}

/// The views of a list of tasks.
pub open spec fn tasks_view(tasks: Seq<Task>) -> Seq<TaskView> {
    tasks.map_values(|t: Task| t@)
}

/// The name that a line of a justfile or a Makefile declares: the text
/// before the first colon, without the white space around it. Blank lines and
/// comments declare nothing, nor do lines without a colon; in a Makefile,
/// lines that begin with a dot declare nothing either.
pub open spec fn declared_name(line: Seq<char>, makefile: bool) -> Option<Seq<char>> {
    let text = trimmed(line);
    if text.len() == 0 || text[0] == '#' || (makefile && text[0] == '.') || !text.contains(':') {
        None
    } else {
        Some(trimmed(head_before(text, ':')))
    }
}

/// The provider of the tasks of a justfile or a Makefile.
pub open spec fn file_provider(makefile: bool) -> Seq<char> {
    if makefile {
        "make"@
    } else {
        "just"@
    }
}

/// The tasks that the lines of a justfile or a Makefile declare, in order.
pub open spec fn declared_tasks(lines: Seq<Seq<char>>, makefile: bool) -> Seq<TaskView>
    decreases lines.len(),
{
    if lines.len() == 0 {
        Seq::empty()
    } else {
        let earlier = declared_tasks(lines.drop_last(), makefile);
        match declared_name(lines.last(), makefile) {
            Some(name) => earlier.push(
                TaskView { name, provider: file_provider(makefile), command: Seq::empty() },
            ),
            None => earlier,
        }
    }
}

/// Reads the name that a line declares.
fn line_name(line: &str, makefile: bool) -> (r: Option<String>)
    ensures
        match r {
            Some(name) => declared_name(line@, makefile) == Some(name@),
            None => declared_name(line@, makefile) is None,
        },
{
    let text = trim(line);
    if text.is_empty() || starts_with_char(text, '#') || (makefile && starts_with_char(text, '.')) {
        return None;
    }
    match split_once_char(text, ':') {
        Some((head, tail)) => {
            proof {
                lemma_splits_at(text@, ':', head@, tail@);
            }
            Some(trim(head).to_owned())
        },
        None => None,
    }
}

/// Reads the tasks that a justfile or a Makefile declares.
fn file_tasks(content: &str, makefile: bool) -> (r: Vec<Task>)
    ensures
        tasks_view(r@) == declared_tasks(text_lines(content@), makefile),
{
    let all = lines(content);
    let ghost texts = texts_view(all@);
    let mut tasks: Vec<Task> = Vec::new();
    assert(tasks_view(tasks@) =~= Seq::empty());
    let mut i: usize = 0;
    while i < all.len()
        invariant
            i <= all.len(),
            texts == texts_view(all@),
            tasks_view(tasks@) == declared_tasks(texts.take(i as int), makefile),
        decreases all.len() - i,
    {
        let ghost earlier = tasks_view(tasks@);
        proof {
            assert(texts.take(i + 1).drop_last() =~= texts.take(i as int));
            assert(texts.take(i + 1).last() == all[i as int]@);
        }
        match line_name(all[i].as_str(), makefile) {
            Some(name) => {
                let provider = if makefile {
                    "make"
                } else {
                    "just"
                };
                let task = Task { name, provider: provider.to_owned(), command: String::new() };
                let ghost added = task@;
                tasks.push(task);
                assert(tasks_view(tasks@) =~= earlier.push(added));
            },
            None => {},
        }
        i += 1;
    }
    assert(texts.take(all.len() as int) =~= texts);
    tasks
}

/// The tasks of a justfile, given its text; none where there is no file.
pub fn extract_justfile(content: Option<&str>) -> (r: Vec<Task>)
    ensures
        tasks_view(r@) == match content {
            Some(text) => declared_tasks(text_lines(text@), false),
            None => Seq::empty(),
        },
{
    match content {
        Some(text) => file_tasks(text, false),
        None => {
            let tasks: Vec<Task> = Vec::new();
            assert(tasks_view(tasks@) =~= Seq::empty());
            tasks
        },
    }
}

/// The tasks of a Makefile, given its text; none where there is no file.
pub fn extract_makefile(content: Option<&str>) -> (r: Vec<Task>)
    ensures
        tasks_view(r@) == match content {
            Some(text) => declared_tasks(text_lines(text@), true),
            None => Seq::empty(),
        },
{
    match content {
        Some(text) => file_tasks(text, true),
        None => {
            let tasks: Vec<Task> = Vec::new();
            assert(tasks_view(tasks@) =~= Seq::empty());
            tasks
        },
    }
}

/// The task that a member of `scripts` stands for: the script's name, and
/// its command line where it is a string.
pub open spec fn script_task(script: (String, Value)) -> TaskView {
    TaskView {
        name: script.0@,
        provider: "npm"@,
        command: match json_text(script.1) {
            Some(command) => command,
            None => Seq::empty(),
        },
    }
}

/// The message of the failure for a file that cannot be parsed.
pub open spec fn parse_failure_text(path: Seq<char>) -> Seq<char> {
    "failed to parse "@ + path
}

/// The members of `scripts` in a package description: none where the
/// description has no such member; the outer `None` where the text is no JSON
/// object, or `scripts` is no object.
pub open spec fn package_script_members(content: Seq<char>) -> Option<Map<Seq<char>, Value>> {
    match json_parse(content) {
        Some(document) => match json_fields(document) {
            Some(_) => match json_field(document, "scripts"@) {
                Some(scripts) => json_fields(scripts),
                None => Some(Map::empty()),
            },
            None => None,
        },
        None => None,
    }
}

/// The tasks of a package description, given its text: one for each member of
/// `scripts`. Fails where the text is no package description; gives none where
/// there is no file.
pub fn extract_package_scripts(path: &str, content: Option<&str>) -> (r: Result<
    Vec<Task>,
    PluginError,
>)
    ensures
        match content {
            None => r matches Ok(tasks) && tasks@.len() == 0,
            Some(text) => match package_script_members(text@) {
                Some(scripts) => r matches Ok(tasks) && exists|pairs: Seq<(String, Value)>|
                    {
                        &&& distinct_keys(pairs)
                        &&& #[trigger] members_of(pairs) == scripts
                        &&& tasks_view(tasks@) == pairs.map_values(|p: (String, Value)| script_task(p))
                    },
                None => r matches Err(e) && e@ == parse_failure_text(path@),
            },
        },
{
    let text = match content {
        Some(text) => text,
        None => { return Ok(Vec::new()); },
    };
    let document = match parse_text(text) {
        Ok(document) => document,
        Err(_) => { return Err(parse_failure(path)); },
    };
    if members(&document).is_none() {
        return Err(parse_failure(path));
    }
    let scripts = match member(&document, "scripts") {
        Some(scripts) => scripts,
        None => {
            let tasks: Vec<Task> = Vec::new();
            proof {
                let pairs = Seq::<(String, Value)>::empty();
                assert(members_of(pairs) =~= Map::empty());
                assert(tasks_view(tasks@) =~= pairs.map_values(|p: (String, Value)| script_task(p)));
            }
            return Ok(tasks);
        },
    };
    let pairs = match members(scripts) {
        Some(pairs) => pairs,
        None => { return Err(parse_failure(path)); },
    };
    let mut tasks: Vec<Task> = Vec::new();
    let mut i: usize = 0;
    while i < pairs.len()
        invariant
            i <= pairs.len(),
            tasks.len() == i,
            forall|k: int| 0 <= k < i ==> (#[trigger] tasks[k])@ == script_task(pairs[k]),
        decreases pairs.len() - i,
    {
        let command = match pairs[i].1.as_str() {
            Some(command) => command.to_owned(),
            None => String::new(),
        };
        tasks.push(Task { name: pairs[i].0.clone(), provider: "npm".to_owned(), command });
        i += 1;
    }
    assert(tasks_view(tasks@) =~= pairs@.map_values(|p: (String, Value)| script_task(p)));
    Ok(tasks)
}

/// The failure for a file that cannot be parsed.
fn parse_failure(path: &str) -> (r: PluginError)
    ensures
        r@ == parse_failure_text(path@),
{
    PluginError { message: String::from_str("failed to parse ").concat(path) }
}

/// The tasks of a workspace: its package scripts, then the recipes of its
/// justfile, then the targets of its Makefile. Each text is the content of
/// the file, where the workspace has it.
pub fn discover_tasks(
    package_path: &str,
    package: Option<&str>,
    justfile: Option<&str>,
    makefile: Option<&str>,
) -> (r: Result<Vec<Task>, PluginError>)
    ensures
        match r {
            Ok(tasks) => exists|scripts: Seq<TaskView>|
                {
                    &&& #[trigger] found_scripts(package_path@, package, scripts)
                    &&& tasks_view(tasks@) == scripts + match justfile {
                        Some(text) => declared_tasks(text_lines(text@), false),
                        None => Seq::empty(),
                    } + match makefile {
                        Some(text) => declared_tasks(text_lines(text@), true),
                        None => Seq::empty(),
                    }
                },
            Err(e) => package matches Some(text) && package_script_members(text@) is None && e@
                == parse_failure_text(package_path@),
        },
{
    let mut tasks = match extract_package_scripts(package_path, package) {
        Ok(tasks) => tasks,
        Err(e) => { return Err(e); },
    };
    let ghost scripts = tasks_view(tasks@);
    proof {
        assert(found_scripts(package_path@, package, scripts));
    }
    let mut recipes = extract_justfile(justfile);
    let ghost declared = tasks_view(recipes@);
    tasks.append(&mut recipes);
    let mut targets = extract_makefile(makefile);
    let ghost made = tasks_view(targets@);
    tasks.append(&mut targets);
    assert(tasks_view(tasks@) =~= scripts + declared + made);
    Ok(tasks)
}

/// `scripts` are the tasks of the package description, in some order of its
/// members.
pub open spec fn found_scripts(path: Seq<char>, package: Option<&str>, scripts: Seq<TaskView>) -> bool {
    match package {
        None => scripts.len() == 0,
        Some(text) => match package_script_members(text@) {
            Some(members) => exists|pairs: Seq<(String, Value)>|
                {
                    &&& distinct_keys(pairs)
                    &&& #[trigger] members_of(pairs) == members
                    &&& scripts == pairs.map_values(|p: (String, Value)| script_task(p))
                },
            None => false,
        },
    }
}

/// A program to run, with its arguments.
#[derive(Debug, PartialEq)]
pub struct TaskCommand {
    /// The program.
    pub binary: String,
    /// Its arguments.
    pub args: Vec<String>,
}

/// What a [`TaskCommand`] says.
pub struct TaskCommandView {
    pub binary: Seq<char>,
    pub args: Seq<Seq<char>>,
}

impl View for TaskCommand {
    type V = TaskCommandView;

    open spec fn view(&self) -> TaskCommandView {
        TaskCommandView { binary: self.binary@, args: texts_view(self.args@) }
    }
}

/// The program that runs a package script: `npm run` and `pnpm run` take the
/// script's name, `yarn` and any other provider take it directly.
pub open spec fn package_script_command(provider: Seq<char>, script: Seq<char>) -> TaskCommandView {
    if provider == "npm"@ {
        TaskCommandView { binary: "npm"@, args: seq!["run"@, script] }
    } else if provider == "yarn"@ {
        TaskCommandView { binary: "yarn"@, args: seq![script] }
    } else if provider == "pnpm"@ {
        TaskCommandView { binary: "pnpm"@, args: seq!["run"@, script] }
    } else {
        TaskCommandView { binary: provider, args: seq![script] }
    }
}

/// The program that runs a task: a package manager for a script, `just` for a
/// recipe, `make` for a target; `None` for any other provider.
pub open spec fn task_command(provider: Seq<char>, name: Seq<char>) -> Option<TaskCommandView> {
    if provider == "npm"@ || provider == "yarn"@ || provider == "pnpm"@ {
        Some(package_script_command(provider, name))
    } else if provider == "just"@ {
        Some(TaskCommandView { binary: "just"@, args: seq![name] })
    } else if provider == "make"@ {
        Some(TaskCommandView { binary: "make"@, args: seq![name] })
    } else {
        None
    }
}

/// The message of the failure for a provider that the plugin does not know.
pub open spec fn unsupported_provider_text(provider: Seq<char>) -> Seq<char> {
    "task provider `"@ + provider + "` is not supported"@
}

/// A command with one argument.
fn command_1(binary: &str, argument: &str) -> (r: TaskCommand)
    ensures
        r@ == (TaskCommandView { binary: binary@, args: seq![argument@] }),
{
    let args = vec![argument.to_owned()];
    assert(texts_view(args@) =~= seq![argument@]);
    TaskCommand { binary: binary.to_owned(), args }
}

/// A command with two arguments.
fn command_2(binary: &str, first: &str, second: &str) -> (r: TaskCommand)
    ensures
        r@ == (TaskCommandView { binary: binary@, args: seq![first@, second@] }),
{
    let args = vec![first.to_owned(), second.to_owned()];
    assert(texts_view(args@) =~= seq![first@, second@]);
    TaskCommand { binary: binary.to_owned(), args }
}

/// The program that runs a package script.
pub fn run_package_script(provider: &str, script: &str) -> (r: TaskCommand)
    ensures
        r@ == package_script_command(provider@, script@),
{
    if same_text(provider, "npm") {
        command_2("npm", "run", script)
    } else if same_text(provider, "yarn") {
        command_1("yarn", script)
    } else if same_text(provider, "pnpm") {
        command_2("pnpm", "run", script)
    } else {
        command_1(provider, script)
    }
}

/// The program that runs a task; fails for a provider that the plugin does
/// not know.
pub fn run_task(provider: &str, name: &str) -> (r: Result<TaskCommand, PluginError>)
    ensures
        match r {
            Ok(command) => task_command(provider@, name@) == Some(command@),
            Err(e) => task_command(provider@, name@) is None && e@ == unsupported_provider_text(
                provider@,
            ),
        },
{
    if same_text(provider, "npm") || same_text(provider, "yarn") || same_text(provider, "pnpm") {
        Ok(run_package_script(provider, name))
    } else if same_text(provider, "just") {
        Ok(command_1("just", name))
    } else if same_text(provider, "make") {
        Ok(command_1("make", name))
    } else {
        Err(
            PluginError {
                message: String::from_str("task provider `").concat(provider).concat(
                    "` is not supported",
                ),
            },
        )
    }
}

/// The message of the failure for a task whose program failed.
pub open spec fn task_failed_text(stderr: Seq<char>) -> Seq<char> {
    "task failed: "@ + stderr
}

/// What a finished program comes to: its output where it succeeded, a
/// failure with its error output where it did not.
pub fn exec_outcome(success: bool, stdout: String, stderr: String) -> (r: Result<String, PluginError>)
    ensures
        match r {
            Ok(output) => success && output == stdout,
            Err(e) => !success && e@ == task_failed_text(stderr@),
        },
{
    if success {
        Ok(stdout)
    } else {
        Err(PluginError { message: String::from_str("task failed: ").concat(stderr.as_str()) })
    }
}

/// What the plugin is asked to do.
#[derive(Debug, PartialEq)]
pub enum TaskRequest {
    /// List the tasks of the workspace.
    List,
    /// Run the task `name` of `provider`.
    Run { provider: String, name: String },
}

/// What a [`TaskRequest`] says.
pub enum TaskRequestView {
    List,
    Run { provider: Seq<char>, name: Seq<char> },
}

impl View for TaskRequest {
    type V = TaskRequestView;

    open spec fn view(&self) -> TaskRequestView {
        match *self {
            TaskRequest::List => TaskRequestView::List,
            TaskRequest::Run { provider, name } => TaskRequestView::Run {
                provider: provider@,
                name: name@,
            },
        }
    }
}

/// The message of the failure for a command that the plugin does not have.
pub open spec fn unknown_command_text(command: Seq<char>) -> Seq<char> {
    "unknown command `"@ + command + "`"@
}

/// What a command and its arguments ask for: `helix.task.list` asks for the
/// list; `helix.task.run` asks to run the task that its first argument names
/// by `provider` and `name`. The error is the message of the failure.
pub open spec fn task_request(command: Seq<char>, arguments: Seq<Value>) -> Result<
    TaskRequestView,
    Seq<char>,
> {
    if command == "helix.task.list"@ {
        Ok(TaskRequestView::List)
    } else if command == "helix.task.run"@ {
        if arguments.len() == 0 {
            Err("expected arguments { provider: string, name: string }"@)
        } else {
            match json_field(arguments[0], "provider"@) {
                Some(p) => match json_text(p) {
                    Some(provider) => match json_field(arguments[0], "name"@) {
                        Some(n) => match json_text(n) {
                            Some(name) => Ok(TaskRequestView::Run { provider, name }),
                            None => Err("missing `name` field"@),
                        },
                        None => Err("missing `name` field"@),
                    },
                    None => Err("missing `provider` field"@),
                },
                None => Err("missing `provider` field"@),
            }
        }
    } else {
        Err(unknown_command_text(command))
    }
}

/// Read what a command and its arguments ask for.
pub fn read_request(command: &str, arguments: &Vec<Value>) -> (r: Result<TaskRequest, PluginError>)
    ensures
        match r {
            Ok(request) => task_request(command@, arguments@) == Ok::<TaskRequestView, Seq<char>>(
                request@,
            ),
            Err(e) => task_request(command@, arguments@) == Err::<TaskRequestView, Seq<char>>(e@),
        },
{
    if same_text(command, "helix.task.list") {
        Ok(TaskRequest::List)
    } else if same_text(command, "helix.task.run") {
        if arguments.len() == 0 {
            return Err(PluginError::new("expected arguments { provider: string, name: string }"));
        }
        let payload = &arguments[0];
        let provider = match member(payload, "provider") {
            Some(p) => match p.as_str() {
                Some(provider) => provider,
                None => { return Err(PluginError::new("missing `provider` field")); },
            },
            None => { return Err(PluginError::new("missing `provider` field")); },
        };
        let name = match member(payload, "name") {
            Some(n) => match n.as_str() {
                Some(name) => name,
                None => { return Err(PluginError::new("missing `name` field")); },
            },
            None => { return Err(PluginError::new("missing `name` field")); },
        };
        Ok(TaskRequest::Run { provider: provider.to_owned(), name: name.to_owned() })
    } else {
        Err(
            PluginError {
                message: String::from_str("unknown command `").concat(command).concat("`"),
            },
        )
    }
}

/// A task is written as an object with `name`, `provider` and `command`.
pub open spec fn wire_task(v: Value, task: TaskView) -> bool {
    &&& has_members(v, set!["name"@, "provider"@, "command"@])
    &&& has_text(v, "name"@, task.name)
    &&& has_text(v, "provider"@, task.provider)
    &&& has_text(v, "command"@, task.command)
}

/// The answer to `helix.task.list` is the array of the tasks.
pub open spec fn wire_tasks(v: Value, tasks: Seq<TaskView>) -> bool {
    match json_items(v) {
        Some(items) => {
            &&& items.len() == tasks.len()
            &&& forall|i: int| 0 <= i < items.len() ==> wire_task(#[trigger] items[i], tasks[i])
        },
        None => false,
    }
}

/// The member names of a task differ from one another.
proof fn lemma_task_names_differ()
    ensures
        "name"@ != "provider"@,
        "name"@ != "command"@,
        "provider"@ != "command"@,
{
    reveal_strlit("name");
    reveal_strlit("provider");
    reveal_strlit("command");
    assert("name"@.len() != "provider"@.len());
    assert("name"@.len() != "command"@.len());
    assert("provider"@.len() != "command"@.len());
}

/// The answer to `helix.task.list`.
pub fn list_result(tasks: &Vec<Task>) -> (r: Value)
    ensures
        wire_tasks(r, tasks_view(tasks@)),
{
    proof {
        lemma_task_names_differ();
    }
    let mut items: Vec<Value> = Vec::new();
    let mut i: usize = 0;
    while i < tasks.len()
        invariant
            i <= tasks.len(),
            items.len() == i,
            "name"@ != "provider"@,
            "name"@ != "command"@,
            "provider"@ != "command"@,
            forall|k: int| 0 <= k < i ==> wire_task(#[trigger] items[k], tasks[k]@),
        decreases tasks.len() - i,
    {
        let task = &tasks[i];
        items.push(
            object_3(
                "name",
                text_value(task.name.clone()),
                "provider",
                text_value(task.provider.clone()),
                "command",
                text_value(task.command.clone()),
            ),
        );
        i += 1;
    }
    array_value(items)
}

/// What the plugin tells the user when a task is through.
pub open spec fn completed_text(provider: Seq<char>, name: Seq<char>) -> Seq<char> {
    "task `"@ + provider + ":"@ + name + "` completed"@
}

/// What the plugin tells the user when a task failed.
pub open spec fn failed_text(provider: Seq<char>, name: Seq<char>, failure: Seq<char>) -> Seq<char> {
    "task `"@ + provider + ":"@ + name + "` failed: "@ + failure
}

/// The answer to `helix.task.run`, given how the task ended: the user is told
/// that it completed or that it failed; the output of a task that succeeded
/// comes back as `stdout`, a failure is passed on.
pub fn run_result(
    provider: &str,
    name: &str,
    outcome: Result<String, PluginError>,
    ctx: &mut CommandContext<'_>,
) -> (r: Result<Option<Value>, PluginError>)
    ensures
        match outcome {
            Ok(stdout) => {
                &&& final(ctx).emitted() == old(ctx).emitted().push(
                    EventView::ShowMessage {
                        level: MessageLevel::Info,
                        message: completed_text(provider@, name@),
                    },
                )
                &&& r matches Ok(Some(v))
                &&& has_members(v, set!["stdout"@])
                &&& has_text(v, "stdout"@, stdout@)
            },
            Err(e) => {
                &&& final(ctx).emitted() == old(ctx).emitted().push(
                    EventView::ShowMessage {
                        level: MessageLevel::Error,
                        message: failed_text(provider@, name@, e@),
                    },
                )
                &&& r == Err::<Option<Value>, PluginError>(e)
            },
        },
{
    match outcome {
        Ok(stdout) => {
            let message = String::from_str("task `").concat(provider).concat(":").concat(
                name,
            ).concat("` completed");
            ctx.show_message(MessageLevel::Info, message.as_str());
            Ok(Some(object_1("stdout", text_value(stdout))))
        },
        Err(e) => {
            let message = String::from_str("task `").concat(provider).concat(":").concat(
                name,
            ).concat("` failed: ").concat(e.message.as_str());
            ctx.show_message(MessageLevel::Error, message.as_str());
            Err(e)
        },
    }
}

/// The commands of the plugin.
pub open spec fn task_commands() -> Seq<PluginCommandView> {
    seq![
        PluginCommandView {
            id: "helix.task.list"@,
            title: "List project tasks"@,
            description: Some("Enumerate runnable tasks discovered in the current workspace"@),
        },
        PluginCommandView {
            id: "helix.task.run"@,
            title: "Run project task"@,
            description: Some("Execute a task by provider and name"@),
        },
    ]
}

/// What the plugin logs when the workspace root is not there.
pub open spec fn no_workspace_text() -> Seq<char> {
    "Task runner could not determine the workspace root."@
}

/// Register the plugin's commands, one after the other, and warn where the
/// workspace root does not exist. Fails, before anything is logged, at the
/// first command that is registered already; a command before it stays
/// registered.
pub fn initialize<R: Registrar>(
    workspace_exists: bool,
    ctx: &mut InitializeContext,
    registrar: &mut R,
) -> (r: Result<(), PluginError>)
    ensures
        r is Ok <==> !command_ids(old(registrar).registered()).contains(task_commands()[0].id)
            && !command_ids(old(registrar).registered()).contains(task_commands()[1].id),
        r is Ok ==> final(registrar).registered() == old(registrar).registered() + task_commands(),
        r is Ok ==> final(ctx).emitted() == if workspace_exists {
            old(ctx).emitted()
        } else {
            old(ctx).emitted().push(
                EventView::Log { level: MessageLevel::Warning, message: no_workspace_text() },
            )
        },
        r is Err ==> final(ctx).emitted() == old(ctx).emitted(),
        r matches Err(e) ==> if command_ids(old(registrar).registered()).contains(
            task_commands()[0].id,
        ) {
            &&& final(registrar).registered() == old(registrar).registered()
            &&& e@ == duplicate_command_text(task_commands()[0].id)
        } else {
            &&& final(registrar).registered() == old(registrar).registered().push(
                task_commands()[0],
            )
            &&& e@ == duplicate_command_text(task_commands()[1].id)
        },
{
    proof {
        reveal_strlit("helix.task.list");
        reveal_strlit("helix.task.run");
        assert("helix.task.list"@.len() != "helix.task.run"@.len());
    }
    let ghost before = registrar.registered();
    let list = PluginCommand::new("helix.task.list", "List project tasks").with_description(
        "Enumerate runnable tasks discovered in the current workspace",
    );
    match registrar.register_command(list) {
        Ok(()) => {},
        Err(e) => {
            return Err(e);
        },
    }
    let ghost listed = registrar.registered();
    let run = PluginCommand::new("helix.task.run", "Run project task").with_description(
        "Execute a task by provider and name",
    );
    match registrar.register_command(run) {
        Ok(()) => {},
        Err(e) => {
            proof {
                let ids = command_ids(listed);
                let at = choose|i: int| 0 <= i < ids.len() && ids[i] == task_commands()[1].id;
                assert(at < before.len());
                assert(command_ids(before)[at] == task_commands()[1].id);
            }
            return Err(e);
        },
    }
    proof {
        assert(registrar.registered() =~= before + task_commands());
        if command_ids(before).contains(task_commands()[1].id) {
            let at = choose|i: int|
                0 <= i < command_ids(before).len() && command_ids(before)[i] == task_commands()[1].id;
            assert(command_ids(listed)[at] == task_commands()[1].id);
        }
    }
    if !workspace_exists {
        ctx.log(MessageLevel::Warning, "Task runner could not determine the workspace root.");
    }
    Ok(())
}

} // verus!
