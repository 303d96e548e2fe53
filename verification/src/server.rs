//! The host's registry: which plugins run, which plugin owns which command,
//! and what the editor is told about a command's outcome.

use crate::paths::{join, parent, path_join, path_parent};
use crate::json::{json_field, json_null};
use crate::protocol::{
    clone_text, commands_view, text_of, HostRequestPayload, MessageView, PayloadView,
    PluginCommandView, PluginResponse, ResponseView,
};
use crate::runtime::{execute_reply_view, PluginError};
use crate::text::same_text;
use crate::wire::{lemma_message_round_trip, parse_message, wire_message};
use serde_json::Value;
use vstd::prelude::*;
use vstd::string::StringExecFns;

verus! {

/// Runtime configuration for the plugin host.
#[derive(Debug)]
pub struct HostOptions {
    manifest_path: String,
}

impl View for HostOptions {
    type V = Seq<char>;

    /// The path of the manifest file.
    closed spec fn view(&self) -> Seq<char> {
        self.manifest_path@
    }
}

/// The manifest that the host reads: the one named on the command line, or
/// `plugins.toml` in the configuration directory.
pub open spec fn manifest_location(manifest: Option<Seq<char>>, config_dir: Seq<char>) -> Seq<
    char,
> {
    match manifest {
        Some(path) => path,
        None => path_join(config_dir, "plugins.toml"@),
    }
}

impl HostOptions {
    /// Construct options from the command line's manifest path, if one was
    /// given, and the configuration directory.
    pub fn from_cli(manifest: Option<&str>, config_dir: &str) -> (r: Self)
        ensures
            r@ == manifest_location(
                match manifest {
                    Some(path) => Some(path@),
                    None => None,
                },
                config_dir@,
            ),
    {
        let manifest_path = match manifest {
            Some(path) => path.to_owned(),
            None => join(config_dir, "plugins.toml"),
        };
        HostOptions { manifest_path }
    }

    /// Path to the manifest file.
    pub fn manifest_path(&self) -> (r: &str)
        ensures
            r@ == self@,
    {
        self.manifest_path.as_str()
    }

    /// Directory containing the manifest file; `None` where the path has no
    /// parent, and the caller falls back to its working directory.
    pub fn manifest_dir(&self) -> (r: Option<String>)
        ensures
            text_of(r) == path_parent(self@),
    {
        parent(self.manifest_path.as_str())
    }
}

impl Clone for HostOptions {
    fn clone(&self) -> (r: Self)
        ensures
            r@ == self@,
    {
        HostOptions { manifest_path: self.manifest_path.clone() }
    }
}

/// The owner of a command: the plugin, by its place in the list of running
/// plugins, and what the plugin said of the command.
#[derive(Debug, PartialEq)]
pub struct CommandBinding {
    /// The place of the owning plugin among the running plugins.
    pub plugin: usize,
    /// Human readable title.
    pub title: String,
    /// Optional description.
    pub description: Option<String>,
}

/// What a [`CommandBinding`] says.
pub struct BindingView {
    pub plugin: int,
    pub title: Seq<char>,
    pub description: Option<Seq<char>>,
}

impl View for CommandBinding {
    type V = BindingView;

    open spec fn view(&self) -> BindingView {
        BindingView {
            plugin: self.plugin as int,
            title: self.title@,
            description: text_of(self.description),
        }
    }
}

impl Clone for CommandBinding {
    fn clone(&self) -> (r: Self)
        ensures
            r@ == self@,
    {
        CommandBinding {
            plugin: self.plugin,
            title: self.title.clone(),
            description: clone_text(&self.description),
        }
    }
}

/// The binding that plugin number `plugin` gets for a command it announced.
pub open spec fn binding_of(plugin: int, command: PluginCommandView) -> BindingView {
    BindingView { plugin, title: command.title, description: command.description }
}

/// The routes after plugin number `plugin` announced `commands`: each command
/// is bound to it, in order, and a binding that was there under the same id
/// gives way.
pub open spec fn register_commands(
    routes: Map<Seq<char>, BindingView>,
    plugin: int,
    commands: Seq<PluginCommandView>,
) -> Map<Seq<char>, BindingView>
    decreases commands.len(),
{
    if commands.len() == 0 {
        routes
    } else {
        register_commands(routes, plugin, commands.drop_last()).insert(
            commands.last().id,
            binding_of(plugin, commands.last()),
        )
    }
}

/// A plugin that was launched and has answered the handshake.
#[derive(Debug, PartialEq)]
pub struct StartedPlugin<H> {
    /// The plugin's name in the manifest.
    pub name: String,
    /// The caller's handle to the running process.
    pub process: H,
    /// The plugin's answer to `initialize`.
    pub handshake: PluginResponse,
}

/// What a [`StartedPlugin`] says.
pub struct StartedView<H> {
    pub name: Seq<char>,
    pub process: H,
    pub handshake: ResponseView,
}

impl<H> View for StartedPlugin<H> {
    type V = StartedView<H>;

    open spec fn view(&self) -> StartedView<H> {
        StartedView { name: self.name@, process: self.process, handshake: self.handshake@ }
    }
}

/// Whether a launched plugin joins the host, given how its handshake ended: a
/// plugin that answered joins with its answer, whatever the answer is; a
/// plugin whose handshake failed is skipped, and the host goes on without it.
pub fn joins<H>(name: String, process: H, handshake: Result<PluginResponse, String>) -> (r: Option<
    StartedPlugin<H>,
>)
    ensures
        match handshake {
            Ok(answer) => r == Some(StartedPlugin { name, process, handshake: answer }),
            Err(_) => r is None,
        },
{
    match handshake {
        Ok(answer) => Some(StartedPlugin { name, process, handshake: answer }),
        Err(_) => None,
    }
}

/// The views of a list of started plugins.
pub open spec fn started_view<H>(started: Seq<StartedPlugin<H>>) -> Seq<StartedView<H>> {
    started.map_values(|s: StartedPlugin<H>| s@)
}

/// Something to report about the start of the plugins.
#[derive(Debug, PartialEq)]
pub enum InitWarning {
    /// The plugin answered the handshake with something else than
    /// `initialized`: it runs on, without commands.
    UnexpectedHandshake { plugin: String },
    /// The command was registered before: it now belongs to this plugin.
    CommandOverridden { command: String, plugin: String },
}

/// What an [`InitWarning`] says.
pub enum WarningView {
    UnexpectedHandshake { plugin: Seq<char> },
    CommandOverridden { command: Seq<char>, plugin: Seq<char> },
}

impl View for InitWarning {
    type V = WarningView;

    open spec fn view(&self) -> WarningView {
        match *self {
            InitWarning::UnexpectedHandshake { plugin } => WarningView::UnexpectedHandshake {
                plugin: plugin@,
            },
            InitWarning::CommandOverridden { command, plugin } => WarningView::CommandOverridden {
                command: command@,
                plugin: plugin@,
            },
        }
    }
}

/// The views of a list of warnings.
pub open spec fn warnings_view(warnings: Seq<InitWarning>) -> Seq<WarningView> {
    warnings.map_values(|w: InitWarning| w@)
}

/// The warnings that registering `commands` for plugin `name` gives: one for
/// each command, in order, whose id is bound already when its turn comes.
pub open spec fn override_warnings(
    routes: Map<Seq<char>, BindingView>,
    plugin: int,
    name: Seq<char>,
    commands: Seq<PluginCommandView>,
) -> Seq<WarningView>
    decreases commands.len(),
{
    if commands.len() == 0 {
        Seq::empty()
    } else {
        let earlier = override_warnings(routes, plugin, name, commands.drop_last());
        if register_commands(routes, plugin, commands.drop_last()).contains_key(
            commands.last().id,
        ) {
            earlier.push(WarningView::CommandOverridden { command: commands.last().id, plugin: name })
        } else {
            earlier
        }
    }
}

/// What a call to start the plugins did.
#[derive(Debug, PartialEq)]
pub enum InitOutcome<H> {
    /// The plugins had been started before: nothing was done, and the
    /// plugins that were handed in come back unused.
    AlreadyInitialized { unused: Vec<StartedPlugin<H>> },
    /// The plugins joined; the warnings are to be reported.
    Started { warnings: Vec<InitWarning> },
}

/// What the manager keeps.
pub struct ManagerView<H> {
    /// The path of the manifest file.
    pub manifest_path: Seq<char>,
    /// The running plugins, in the order of the manifest, each with the
    /// caller's handle.
    pub plugins: Seq<(Seq<char>, H)>,
    /// The owner of each registered command, by command id.
    pub routes: Map<Seq<char>, BindingView>,
    /// Whether the plugins have been started.
    pub initialized: bool,
}

impl<H> ManagerView<H> {
    /// The state after a started plugin joined: it is the last of the running
    /// plugins, and the commands of its handshake are routed to it.
    pub open spec fn register(self, plugin: StartedView<H>) -> Self {
        ManagerView {
            plugins: self.plugins.push((plugin.name, plugin.process)),
            routes: match plugin.handshake {
                ResponseView::Initialized { commands } => register_commands(
                    self.routes,
                    self.plugins.len() as int,
                    commands,
                ),
                _ => self.routes,
            },
            ..self
        }
    }

    /// The state after the started plugins joined one after the other.
    pub open spec fn register_all(self, started: Seq<StartedView<H>>) -> Self
        decreases started.len(),
    {
        if started.len() == 0 {
            self
        } else {
            self.register_all(started.drop_last()).register(started.last())
        }
    }

    /// The warnings that the joining of a started plugin gives.
    pub open spec fn register_warnings(self, plugin: StartedView<H>) -> Seq<WarningView> {
        match plugin.handshake {
            ResponseView::Initialized { commands } => override_warnings(
                self.routes,
                self.plugins.len() as int,
                plugin.name,
                commands,
            ),
            _ => seq![WarningView::UnexpectedHandshake { plugin: plugin.name }],
        }
    }

    /// The warnings that the joining of the started plugins gives, in order.
    pub open spec fn register_all_warnings(self, started: Seq<StartedView<H>>) -> Seq<WarningView>
        decreases started.len(),
    {
        if started.len() == 0 {
            Seq::empty()
        } else {
            self.register_all_warnings(started.drop_last()) + self.register_all(
                started.drop_last(),
            ).register_warnings(started.last())
        }
    }

    /// The state after a call to start the plugins: where they have been
    /// started already, the state as it is; else the started plugins joined,
    /// one after the other, to what is left when everything is cleared.
    pub open spec fn ensure_initialized(self, started: Seq<StartedView<H>>) -> Self {
        if self.initialized {
            self
        } else {
            ManagerView { initialized: true, ..self.cleared().register_all(started) }
        }
    }

    /// The state before any plugin was started, or after all were shut down.
    pub open spec fn cleared(self) -> Self {
        ManagerView { plugins: Seq::empty(), routes: Map::empty(), initialized: false, ..self }
    }

    /// Every route leads to a running plugin.
    pub open spec fn well_formed(self) -> bool {
        forall|id: Seq<char>| #[trigger]
            self.routes.contains_key(id) ==> 0 <= self.routes[id].plugin < self.plugins.len()
    }
}

/// The routes that a list of bindings with distinct ids stands for.
pub open spec fn routes_of(commands: Seq<(String, CommandBinding)>) -> Map<Seq<char>, BindingView> {
    Map::new(
        |id: Seq<char>| exists|i: int| 0 <= i < commands.len() && (#[trigger] commands[i]).0@ == id,
        |id: Seq<char>|
            commands[choose|i: int| 0 <= i < commands.len() && (#[trigger] commands[i]).0@ == id].1@,
    )
}

/// No two bindings of the list are for the same id.
pub open spec fn distinct_ids(commands: Seq<(String, CommandBinding)>) -> bool {
    forall|i: int, j: int|
        0 <= i < j < commands.len() ==> (#[trigger] commands[i]).0@ != (#[trigger] commands[j]).0@
}

/// In a list with distinct ids, each binding is the route of its id.
proof fn lemma_routes_of(commands: Seq<(String, CommandBinding)>)
    requires
        distinct_ids(commands),
    ensures
        forall|i: int|
            0 <= i < commands.len() ==> routes_of(commands).contains_key(
                (#[trigger] commands[i]).0@,
            ) && routes_of(commands)[commands[i].0@] == commands[i].1@,
{
    assert forall|i: int| 0 <= i < commands.len() implies routes_of(commands).contains_key(
        (#[trigger] commands[i]).0@,
    ) && routes_of(commands)[commands[i].0@] == commands[i].1@ by {
        let id = commands[i].0@;
        let j = choose|j: int| 0 <= j < commands.len() && (#[trigger] commands[j]).0@ == id;
        if j < i {
            assert(commands[j].0@ != commands[i].0@);
        } else if i < j {
            assert(commands[i].0@ != commands[j].0@);
        }
    }
}

/// Bind a command id: a binding that was there under the id gives way.
/// Returns whether there was one.
fn bind(commands: &mut Vec<(String, CommandBinding)>, id: String, binding: CommandBinding) -> (was: bool)
    requires
        distinct_ids(old(commands)@),
    ensures
        distinct_ids(final(commands)@),
        routes_of(final(commands)@) == routes_of(old(commands)@).insert(id@, binding@),
        was == routes_of(old(commands)@).contains_key(id@),
        forall|i: int|
            0 <= i < final(commands).len() ==> (#[trigger] final(commands)[i]).1.plugin
                == binding.plugin || (i < old(commands).len() && final(commands)[i].1.plugin == old(
                commands,
            )[i].1.plugin),
{
    let ghost before = commands@;
    let ghost key = id@;
    let ghost bound = binding@;
    let mut i: usize = 0;
    let mut found: Option<usize> = None;
    while i < commands.len()
        invariant_except_break
            found is None,
            forall|k: int| 0 <= k < i ==> (#[trigger] commands[k]).0@ != key,
        invariant
            i <= commands.len(),
            commands@ == before,
            key == id@,
        ensures
            commands@ == before,
            match found {
                Some(at) => at < commands.len() && commands[at as int].0@ == key,
                None => forall|k: int| 0 <= k < commands.len() ==> (#[trigger] commands[k]).0@ != key,
            },
        decreases commands.len() - i,
    {
        if same_text(commands[i].0.as_str(), id.as_str()) {
            found = Some(i);
            break;
        }
        i += 1;
    }
    match found {
        Some(at) => {
            commands.set(at, (id, binding));
            proof {
                let after = commands@;
                assert forall|a: int, b: int| 0 <= a < b < after.len() implies (#[trigger] after[a]).0@
                    != (#[trigger] after[b]).0@ by {
                    assert(before[a].0@ != before[b].0@);
                }
                lemma_routes_of(before);
                lemma_routes_of(after);
                assert forall|k: Seq<char>|
                    routes_of(after).contains_key(k) <==> routes_of(before).insert(
                        key,
                        bound,
                    ).contains_key(k) by {
                    if routes_of(after).contains_key(k) {
                        let j = choose|j: int| 0 <= j < after.len() && (#[trigger] after[j]).0@ == k;
                        assert(before[j].0@ == k);
                    }
                    if routes_of(before).contains_key(k) {
                        let j = choose|j: int|
                            0 <= j < before.len() && (#[trigger] before[j]).0@ == k;
                        assert(after[j].0@ == k);
                    }
                    if k == key {
                        assert(after[at as int].0@ == k);
                    }
                }
                assert forall|k: Seq<char>| routes_of(after).contains_key(k) implies routes_of(
                    after,
                )[k] == routes_of(before).insert(key, bound)[k] by {
                    let j = choose|j: int| 0 <= j < after.len() && (#[trigger] after[j]).0@ == k;
                    assert(routes_of(after)[after[j].0@] == after[j].1@);
                    if j != at {
                        assert(routes_of(before)[before[j].0@] == before[j].1@);
                        if j < at {
                            assert(before[j].0@ != before[at as int].0@);
                        } else {
                            assert(before[at as int].0@ != before[j].0@);
                        }
                    }
                }
                assert(routes_of(after) =~= routes_of(before).insert(key, bound));
                assert(routes_of(before).contains_key(before[at as int].0@));
            }
            true
        },
        None => {
            commands.push((id, binding));
            proof {
                let after = commands@;
                assert forall|a: int, b: int| 0 <= a < b < after.len() implies (#[trigger] after[a]).0@
                    != (#[trigger] after[b]).0@ by {
                    if b < before.len() {
                        assert(before[a].0@ != before[b].0@);
                    } else {
                        assert(before[a].0@ != key);
                    }
                }
                lemma_routes_of(before);
                lemma_routes_of(after);
                assert forall|k: Seq<char>|
                    routes_of(after).contains_key(k) <==> routes_of(before).insert(
                        key,
                        bound,
                    ).contains_key(k) by {
                    if routes_of(after).contains_key(k) {
                        let j = choose|j: int| 0 <= j < after.len() && (#[trigger] after[j]).0@ == k;
                        if j < before.len() {
                            assert(before[j].0@ == k);
                        }
                    }
                    if routes_of(before).contains_key(k) {
                        let j = choose|j: int|
                            0 <= j < before.len() && (#[trigger] before[j]).0@ == k;
                        assert(after[j].0@ == k);
                    }
                    if k == key {
                        assert(after[before.len() as int].0@ == k);
                    }
                }
                assert forall|k: Seq<char>| routes_of(after).contains_key(k) implies routes_of(
                    after,
                )[k] == routes_of(before).insert(key, bound)[k] by {
                    let j = choose|j: int| 0 <= j < after.len() && (#[trigger] after[j]).0@ == k;
                    assert(routes_of(after)[after[j].0@] == after[j].1@);
                    if j < before.len() {
                        assert(routes_of(before)[before[j].0@] == before[j].1@);
                        assert(before[j].0@ != key);
                    }
                }
                assert(routes_of(after) =~= routes_of(before).insert(key, bound));
                if routes_of(before).contains_key(key) {
                    let j = choose|j: int| 0 <= j < before.len() && (#[trigger] before[j]).0@ == key;
                    assert(before[j].0@ != key);
                }
            }
            false
        },
    }
}

/// Collection of plugins and the registry of their commands.
pub struct PluginManager<H> {
    options: HostOptions,
    plugins: Vec<(String, H)>,
    commands: Vec<(String, CommandBinding)>,
    initialized: bool,
}

impl<H> View for PluginManager<H> {
    type V = ManagerView<H>;

    closed spec fn view(&self) -> ManagerView<H> {
        ManagerView {
            manifest_path: self.options@,
            plugins: self.plugins@.map_values(|p: (String, H)| (p.0@, p.1)),
            routes: routes_of(self.commands@),
            initialized: self.initialized,
        }
    }
}

impl<H> PluginManager<H> {
    #[verifier::type_invariant]
    spec fn consistent(&self) -> bool {
        &&& distinct_ids(self.commands@)
        &&& forall|i: int|
            0 <= i < self.commands.len() ==> (#[trigger] self.commands[i]).1.plugin
                < self.plugins.len()
    }

    /// A manager without plugins, not yet initialized.
    pub fn new(options: HostOptions) -> (r: Self)
        ensures
            r@ == (ManagerView::<H> {
                manifest_path: options@,
                plugins: Seq::empty(),
                routes: Map::empty(),
                initialized: false,
            }),
    {
        let r = PluginManager {
            options,
            plugins: Vec::new(),
            commands: Vec::new(),
            initialized: false,
        };
        assert(r@.plugins =~= Seq::empty());
        assert(r@.routes =~= Map::empty());
        r
    }

    /// The options that the manager was made with.
    pub fn options(&self) -> (r: &HostOptions)
        ensures
            r@ == self@.manifest_path,
    {
        &self.options
    }

    /// Directory containing the manifest file, if the path has a parent.
    pub fn manifest_dir(&self) -> (r: Option<String>)
        ensures
            text_of(r) == path_parent(self@.manifest_path),
    {
        self.options.manifest_dir()
    }

    /// Whether the plugins have been started. Every route leads to a running
    /// plugin.
    pub fn initialized(&self) -> (r: bool)
        ensures
            r == self@.initialized,
            self@.well_formed(),
    {
        proof {
            use_type_invariant(self);
            self.lemma_routes();
        }
        self.initialized
    }

    /// What the routes are, in terms of the list of bindings.
    proof fn lemma_routes(&self)
        requires
            self.consistent(),
        ensures
            self@.well_formed(),
            forall|i: int|
                0 <= i < self.commands.len() ==> self@.routes.contains_key(
                    (#[trigger] self.commands[i]).0@,
                ) && self@.routes[self.commands[i].0@] == self.commands[i].1@,
    {
        lemma_routes_of(self.commands@);
        assert forall|id: Seq<char>| #[trigger] self@.routes.contains_key(id) implies 0
            <= self@.routes[id].plugin < self@.plugins.len() by {
            let i = choose|i: int|
                0 <= i < self.commands.len() && (#[trigger] self.commands[i]).0@ == id;
            assert(self.commands[i].1.plugin < self.plugins.len());
        }
    }

    /// Where the binding of a command stands in the list.
    fn find(&self, id: &str) -> (r: Option<usize>)
        ensures
            match r {
                Some(i) => i < self.commands.len() && self.commands[i as int].0@ == id@,
                None => !self@.routes.contains_key(id@),
            },
    {
        let mut i: usize = 0;
        while i < self.commands.len()
            invariant
                i <= self.commands.len(),
                forall|k: int| 0 <= k < i ==> (#[trigger] self.commands[k]).0@ != id@,
            decreases self.commands.len() - i,
        {
            if same_text(self.commands[i].0.as_str(), id) {
                return Some(i);
            }
            i += 1;
        }
        None
    }

    /// The ids of the registered commands, each once.
    pub fn command_names(&self) -> (r: Vec<String>)
        ensures
            r@.map_values(|name: String| name@).to_set() == self@.routes.dom(),
            r@.map_values(|name: String| name@).no_duplicates(),
    {
        proof {
            use_type_invariant(self);
        }
        let mut names: Vec<String> = Vec::new();
        let mut i: usize = 0;
        while i < self.commands.len()
            invariant
                i <= self.commands.len(),
                names.len() == i,
                forall|k: int| 0 <= k < i ==> (#[trigger] names[k])@ == self.commands[k].0@,
            decreases self.commands.len() - i,
        {
            names.push(self.commands[i].0.clone());
            i += 1;
        }
        proof {
            let ids = names@.map_values(|name: String| name@);
            assert forall|a: int, b: int| 0 <= a < ids.len() && 0 <= b < ids.len() && a != b implies ids[a]
                != ids[b] by {
                if a < b {
                    assert(self.commands[a].0@ != self.commands[b].0@);
                } else {
                    assert(self.commands[b].0@ != self.commands[a].0@);
                }
            }
            assert forall|id: Seq<char>| ids.to_set().contains(id) <==> self@.routes.dom().contains(
                id,
            ) by {
                if ids.to_set().contains(id) {
                    let k = choose|k: int| 0 <= k < ids.len() && ids[k] == id;
                    assert(self.commands[k].0@ == id);
                }
                if self@.routes.dom().contains(id) {
                    let k = choose|k: int|
                        0 <= k < self.commands.len() && (#[trigger] self.commands[k]).0@ == id;
                    assert(ids[k] == id);
                }
            }
            assert(ids.to_set() =~= self@.routes.dom());
        }
        names
    }

    /// The owner of a command, where the command is registered.
    pub fn lookup_command(&self, name: &str) -> (r: Option<CommandBinding>)
        ensures
            match r {
                Some(binding) => self@.routes.contains_key(name@) && binding@
                    == self@.routes[name@] && binding.plugin < self@.plugins.len(),
                None => !self@.routes.contains_key(name@),
            },
    {
        proof {
            use_type_invariant(self);
            self.lemma_routes();
        }
        match self.find(name) {
            Some(i) => Some(self.commands[i].1.clone()),
            None => None,
        }
    }

    /// Let a started plugin join: it becomes the last of the running plugins
    /// and the owner of every command that its handshake announced. A command
    /// that was registered before changes its owner, which is worth a warning.
    /// A plugin that answered the handshake with anything else than
    /// `initialized` is kept running, without commands.
    pub fn register_plugin(&mut self, plugin: StartedPlugin<H>) -> (r: Vec<InitWarning>)
        ensures
            final(self)@ == old(self)@.register(plugin@),
            warnings_view(r@) == old(self)@.register_warnings(plugin@),
    {
        proof {
            use_type_invariant(&*self);
        }
        let ghost before = self@;
        let ghost joining = plugin@;
        let StartedPlugin { name, process, handshake } = plugin;
        let mut commands: Vec<(String, CommandBinding)> = Vec::new();
        core::mem::swap(&mut commands, &mut self.commands);
        let index = self.plugins.len();
        let mut plugins: Vec<(String, H)> = Vec::new();
        core::mem::swap(&mut plugins, &mut self.plugins);
        plugins.push((name.clone(), process));
        self.plugins = plugins;
        assert(self@.plugins =~= before.plugins.push((joining.name, joining.process)));
        let mut warnings: Vec<InitWarning> = Vec::new();
        assert(warnings_view(warnings@) =~= Seq::empty());
        match handshake {
            PluginResponse::Initialized { commands: announced } => {
                let ghost said = commands_view(announced@);
                let mut k: usize = 0;
                while k < announced.len()
                    invariant
                        k <= announced.len(),
                        said == commands_view(announced@),
                        distinct_ids(commands@),
                        forall|i: int|
                            0 <= i < commands.len() ==> (#[trigger] commands[i]).1.plugin <= index,
                        routes_of(commands@) == register_commands(
                            before.routes,
                            index as int,
                            said.take(k as int),
                        ),
                        warnings_view(warnings@) == override_warnings(
                            before.routes,
                            index as int,
                            name@,
                            said.take(k as int),
                        ),
                    decreases announced.len() - k,
                {
                    let command = &announced[k];
                    let ghost earlier = warnings_view(warnings@);
                    proof {
                        assert(said.take(k + 1).drop_last() =~= said.take(k as int));
                        assert(said.take(k + 1).last() == command@);
                    }
                    let binding = CommandBinding {
                        plugin: index,
                        title: command.title.clone(),
                        description: clone_text(&command.description),
                    };
                    assert(binding@ == binding_of(index as int, command@));
                    let was = bind(&mut commands, command.id.clone(), binding);
                    if was {
                        warnings.push(
                            InitWarning::CommandOverridden {
                                command: command.id.clone(),
                                plugin: name.clone(),
                            },
                        );
                        assert(warnings_view(warnings@) =~= earlier.push(
                            WarningView::CommandOverridden { command: command@.id, plugin: name@ },
                        ));
                    }
                    k += 1;
                }
                assert(said.take(k as int) =~= said);
            },
            _ => {
                warnings.push(InitWarning::UnexpectedHandshake { plugin: name.clone() });
                assert(warnings_view(warnings@) =~= seq![
                    WarningView::UnexpectedHandshake { plugin: name@ },
                ]);
            },
        }
        self.commands = commands;
        warnings
    }

    /// Start the plugins, once: where they have not been started yet, what
    /// was there is cleared, the started plugins join in order, and the
    /// manager counts as initialized. Where they have been, nothing happens.
    pub fn ensure_initialized(&mut self, started: Vec<StartedPlugin<H>>) -> (r: InitOutcome<H>)
        ensures
            final(self)@ == old(self)@.ensure_initialized(started_view(started@)),
            if old(self)@.initialized {
                &&& r matches InitOutcome::AlreadyInitialized { unused }
                &&& unused == started
            } else {
                &&& r matches InitOutcome::Started { warnings }
                &&& warnings_view(warnings@) == old(self)@.cleared().register_all_warnings(
                    started_view(started@),
                )
            },
    {
        if self.initialized {
            return InitOutcome::AlreadyInitialized { unused: started };
        }
        let ghost base = self@.cleared();
        let ghost joining = started_view(started@);
        let mut commands: Vec<(String, CommandBinding)> = Vec::new();
        core::mem::swap(&mut commands, &mut self.commands);
        let mut plugins: Vec<(String, H)> = Vec::new();
        core::mem::swap(&mut plugins, &mut self.plugins);
        assert(self@.plugins =~= Seq::empty());
        assert(self@.routes =~= Map::empty());
        let mut warnings: Vec<InitWarning> = Vec::new();
        assert(warnings_view(warnings@) =~= Seq::empty());
        for plugin in it: started
            invariant
                it.seq() == started@,
                joining == started_view(started@),
                self@ == base.register_all(joining.take(it.index() as int)),
                warnings_view(warnings@) == base.register_all_warnings(
                    joining.take(it.index() as int),
                ),
        {
            let ghost k = it.index() as int;
            let ghost earlier = warnings_view(warnings@);
            proof {
                assert(joining.take(k + 1).drop_last() =~= joining.take(k));
                assert(joining.take(k + 1).last() == plugin@);
            }
            let mut more = self.register_plugin(plugin);
            let ghost added = warnings_view(more@);
            warnings.append(&mut more);
            assert(warnings_view(warnings@) =~= earlier + added);
        }
        assert(joining.take(joining.len() as int) =~= joining);
        proof {
            use_type_invariant(&*self);
        }
        self.initialized = true;
        InitOutcome::Started { warnings }
    }

    /// Forget the plugins and their commands, and count as not initialized:
    /// the next call to start the plugins starts them anew. The plugins that
    /// ran come back in the order of the manifest, for the caller to shut
    /// each down.
    pub fn shutdown_all(&mut self) -> (r: Vec<(String, H)>)
        ensures
            final(self)@ == old(self)@.cleared(),
            r@.map_values(|p: (String, H)| (p.0@, p.1)) == old(self)@.plugins,
    {
        let mut commands: Vec<(String, CommandBinding)> = Vec::new();
        core::mem::swap(&mut commands, &mut self.commands);
        let mut plugins: Vec<(String, H)> = Vec::new();
        core::mem::swap(&mut plugins, &mut self.plugins);
        self.initialized = false;
        assert(self@.plugins =~= Seq::empty());
        assert(self@.routes =~= Map::empty());
        plugins
    }

    /// The caller's handle to the plugin at this place among the running
    /// plugins.
    pub fn process(&self, plugin: usize) -> (r: Option<&H>)
        ensures
            match r {
                Some(handle) => plugin < self@.plugins.len() && *handle
                    == self@.plugins[plugin as int].1,
                None => plugin >= self@.plugins.len(),
            },
    {
        if plugin < self.plugins.len() {
            Some(&self.plugins[plugin].1)
        } else {
            None
        }
    }
}

/// Whether a started plugin announced a command with this id in its
/// handshake.
pub open spec fn announces<H>(plugin: StartedView<H>, id: Seq<char>) -> bool {
    match plugin.handshake {
        ResponseView::Initialized { commands } => exists|i: int|
            0 <= i < commands.len() && (#[trigger] commands[i]).id == id,
        _ => false,
    }
}

/// After a plugin's commands are registered, a command that it announced is
/// its own, and every other command is where it was.
pub proof fn lemma_register_commands(
    routes: Map<Seq<char>, BindingView>,
    plugin: int,
    commands: Seq<PluginCommandView>,
    id: Seq<char>,
)
    ensures
        (exists|i: int| 0 <= i < commands.len() && (#[trigger] commands[i]).id == id)
            ==> register_commands(routes, plugin, commands).contains_key(id) && register_commands(
            routes,
            plugin,
            commands,
        )[id].plugin == plugin,
        !(exists|i: int| 0 <= i < commands.len() && (#[trigger] commands[i]).id == id) ==> (
        register_commands(routes, plugin, commands).contains_key(id) <==> routes.contains_key(id)),
        !(exists|i: int| 0 <= i < commands.len() && (#[trigger] commands[i]).id == id)
            && routes.contains_key(id) ==> register_commands(routes, plugin, commands)[id]
            == routes[id],
    decreases commands.len(),
{
    if commands.len() > 0 {
        let earlier = commands.drop_last();
        lemma_register_commands(routes, plugin, earlier, id);
        if commands.last().id != id {
            if exists|i: int| 0 <= i < commands.len() && (#[trigger] commands[i]).id == id {
                let i = choose|i: int| 0 <= i < commands.len() && (#[trigger] commands[i]).id == id;
                assert(earlier[i].id == id);
            }
            if exists|i: int| 0 <= i < earlier.len() && (#[trigger] earlier[i]).id == id {
                let i = choose|i: int| 0 <= i < earlier.len() && (#[trigger] earlier[i]).id == id;
                assert(commands[i].id == id);
            }
        } else {
            assert(commands[commands.len() - 1].id == id);
        }
    }
}

/// A command is routed to the plugin that registered it last.
///
/// Let any number of started plugins join a manager in order. Then a command
/// is routed afterwards exactly if it was routed before or one of the plugins
/// announced it. If one of them did, the route leads to the last plugin that
/// announced it; if none did, the route is as it was.
pub proof fn lemma_latest_registration_routes<H>(
    base: ManagerView<H>,
    started: Seq<StartedView<H>>,
    id: Seq<char>,
)
    ensures
        base.register_all(started).plugins.len() == base.plugins.len() + started.len(),
        base.register_all(started).routes.contains_key(id) <==> base.routes.contains_key(id) || (
        exists|k: int| 0 <= k < started.len() && announces(#[trigger] started[k], id)),
        forall|k: int|
            0 <= k < started.len() && announces(#[trigger] started[k], id) && (forall|j: int|
                k < j < started.len() ==> !announces(#[trigger] started[j], id))
                ==> base.register_all(started).routes[id].plugin == base.plugins.len() + k,
        !(exists|k: int| 0 <= k < started.len() && announces(#[trigger] started[k], id))
            && base.routes.contains_key(id) ==> base.register_all(started).routes[id]
            == base.routes[id],
    decreases started.len(),
{
    if started.len() > 0 {
        let earlier = started.drop_last();
        let last = started.last();
        let mid = base.register_all(earlier);
        lemma_latest_registration_routes(base, earlier, id);
        match last.handshake {
            ResponseView::Initialized { commands } => {
                lemma_register_commands(mid.routes, mid.plugins.len() as int, commands, id);
            },
            _ => {},
        }
        if announces(last, id) {
            assert(started[started.len() - 1] == last);
        } else {
            if exists|k: int| 0 <= k < started.len() && announces(#[trigger] started[k], id) {
                let k = choose|k: int| 0 <= k < started.len() && announces(#[trigger] started[k], id);
                assert(earlier[k] == started[k]);
            }
            if exists|k: int| 0 <= k < earlier.len() && announces(#[trigger] earlier[k], id) {
                let k = choose|k: int| 0 <= k < earlier.len() && announces(#[trigger] earlier[k], id);
                assert(started[k] == earlier[k]);
            }
        }
        assert forall|k: int|
            0 <= k < started.len() && announces(#[trigger] started[k], id) && (forall|j: int|
                k < j < started.len() ==> !announces(#[trigger] started[j], id)) implies base.register_all(
            started,
        ).routes[id].plugin == base.plugins.len() + k by {
            if k < started.len() - 1 {
                assert(!announces(started[started.len() - 1], id));
                assert(earlier[k] == started[k]);
                assert forall|j: int| k < j < earlier.len() implies !announces(
                    #[trigger] earlier[j],
                    id,
                ) by {
                    assert(earlier[j] == started[j]);
                }
            }
        }
    }
}

/// The plugins are started once.
///
/// After a call to start the plugins the manager counts as initialized, and
/// a further call changes nothing, whatever it is handed.
pub proof fn lemma_initialization_happens_once<H>(
    manager: ManagerView<H>,
    first: Seq<StartedView<H>>,
    second: Seq<StartedView<H>>,
)
    ensures
        manager.ensure_initialized(first).initialized,
        manager.ensure_initialized(first).ensure_initialized(second) == manager.ensure_initialized(
            first,
        ),
{
    lemma_register_all_keeps(manager.cleared(), first);
}

/// Joining plugins changes neither the manifest's path nor whether the
/// manager counts as initialized.
pub proof fn lemma_register_all_keeps<H>(base: ManagerView<H>, started: Seq<StartedView<H>>)
    ensures
        base.register_all(started).initialized == base.initialized,
        base.register_all(started).manifest_path == base.manifest_path,
    decreases started.len(),
{
    if started.len() > 0 {
        lemma_register_all_keeps(base, started.drop_last());
    }
}

/// The kinds of failure that the editor is told of.
#[derive(Debug, Clone, Copy, PartialEq, Eq, Structural)]
pub enum ErrorCode {
    /// The command is not registered.
    MethodNotFound,
    /// The plugin failed, or the exchange with it did.
    InternalError,
}

impl ErrorCode {
    /// The number that JSON-RPC gives the kind of failure.
    pub open spec fn spec_code(self) -> i64 {
        match self {
            ErrorCode::MethodNotFound => -32601i64,
            ErrorCode::InternalError => -32603i64,
        }
    }

    /// The number that JSON-RPC gives the kind of failure.
    #[verifier::when_used_as_spec(spec_code)]
    pub fn code(self) -> (r: i64)
        ensures
            r == self.spec_code(),
    {
        match self {
            ErrorCode::MethodNotFound => -32601,
            ErrorCode::InternalError => -32603,
        }
    }
}

/// A failure that the editor is told of.
#[derive(Debug, PartialEq)]
pub struct RpcError {
    /// The kind of failure.
    pub code: ErrorCode,
    /// What went wrong.
    pub message: String,
}

/// What an [`RpcError`] says.
pub struct RpcErrorView {
    pub code: ErrorCode,
    pub message: Seq<char>,
}

impl View for RpcError {
    type V = RpcErrorView;

    open spec fn view(&self) -> RpcErrorView {
        RpcErrorView { code: self.code, message: self.message@ }
    }
}

/// The internal failure with this message.
pub open spec fn internal_failure(message: Seq<char>) -> RpcErrorView {
    RpcErrorView { code: ErrorCode::InternalError, message }
}

/// The failure for a command that is not registered.
pub open spec fn unknown_command(command: Seq<char>) -> RpcErrorView {
    RpcErrorView {
        code: ErrorCode::MethodNotFound,
        message: "command `"@ + command + "` not registered"@,
    }
}

/// An internal failure with the given message.
pub fn internal_error(message: String) -> (r: RpcError)
    ensures
        r@ == internal_failure(message@),
{
    RpcError { code: ErrorCode::InternalError, message }
}

/// The failure for a command that no plugin has registered.
pub fn method_not_found(command: &str) -> (r: RpcError)
    ensures
        r@ == unknown_command(command@),
{
    let message = String::from_str("command `").concat(command).concat("` not registered");
    RpcError { code: ErrorCode::MethodNotFound, message }
}

/// The tag of a response's kind.
pub open spec fn response_tag(response: ResponseView) -> Seq<char> {
    match response {
        ResponseView::Initialized { .. } => "initialized"@,
        ResponseView::CommandResult { .. } => "command_result"@,
        ResponseView::CommandError { .. } => "command_error"@,
        ResponseView::Acknowledge => "acknowledge"@,
    }
}

/// The message of the failure for a response that does not answer `execute`.
pub open spec fn unexpected_response_text(response: ResponseView) -> Seq<char> {
    "plugin returned unexpected response for executeCommand: "@ + response_tag(response)
}

/// What the editor gets for a command, given how the exchange with the plugin
/// ended: the plugin's value for a `command_result`, an internal failure with
/// the plugin's message for a `command_error`, an internal failure that cites
/// the unexpected response for any other answer, and an internal failure with
/// the given message where the exchange itself failed.
pub open spec fn outcome_of(reply: Result<ResponseView, Seq<char>>) -> Result<
    Option<Value>,
    RpcErrorView,
> {
    match reply {
        Ok(ResponseView::CommandResult { result }) => Ok(result),
        Ok(ResponseView::CommandError { message }) => Err(internal_failure(message)),
        Ok(other) => Err(internal_failure(unexpected_response_text(other))),
        Err(message) => Err(internal_failure(message)),
    }
}

/// Turn the end of the exchange with the plugin into the editor's result: see
/// [`outcome_of`].
pub fn command_outcome(reply: Result<PluginResponse, String>) -> (r: Result<Option<Value>, RpcError>)
    ensures
        match r {
            Ok(value) => outcome_of(
                match reply {
                    Ok(response) => Ok(response@),
                    Err(message) => Err(message@),
                },
            ) == Ok::<Option<Value>, RpcErrorView>(value),
            Err(e) => outcome_of(
                match reply {
                    Ok(response) => Ok(response@),
                    Err(message) => Err(message@),
                },
            ) == Err::<Option<Value>, RpcErrorView>(e@),
        },
{
    match reply {
        Ok(PluginResponse::CommandResult { result }) => Ok(result),
        Ok(PluginResponse::CommandError { message }) => Err(internal_error(message)),
        Ok(PluginResponse::Initialized { .. }) => Err(
            internal_error(
                String::from_str("plugin returned unexpected response for executeCommand: ").concat(
                    "initialized",
                ),
            ),
        ),
        Ok(PluginResponse::Acknowledge) => Err(
            internal_error(
                String::from_str("plugin returned unexpected response for executeCommand: ").concat(
                    "acknowledge",
                ),
            ),
        ),
        Err(message) => Err(internal_error(message)),
    }
}

/// A command that returns no value is a success with `null`.
///
/// Where a handler returns without a value, the plugin's reply is a
/// `command_result` without one; on the wire its `result` is `null`; the host
/// reads the reply back as it was sent; and the editor gets success without a
/// value.
pub proof fn lemma_no_value_is_null_success(id: u64, v: Value)
    requires
        wire_message(v, execute_reply_view(id, Ok::<Option<Value>, PluginError>(None))),
    ensures
        execute_reply_view(id, Ok::<Option<Value>, PluginError>(None)) == (MessageView::Response {
            id,
            result: ResponseView::CommandResult { result: None },
        }),
        match json_field(v, "result"@) {
            Some(response) => match json_field(response, "result"@) {
                Some(value) => json_null(value),
                None => false,
            },
            None => false,
        },
        parse_message(v) == Some(execute_reply_view(id, Ok::<Option<Value>, PluginError>(None))),
        outcome_of(Ok(ResponseView::CommandResult { result: None })) == Ok::<
            Option<Value>,
            RpcErrorView,
        >(None),
{
    lemma_message_round_trip(v, execute_reply_view(id, Ok::<Option<Value>, PluginError>(None)));
}

/// What the editor is told when it initializes the host.
#[derive(Debug, PartialEq)]
pub struct InitializeResult {
    /// The commands that the host can execute.
    pub commands: Vec<String>,
    /// The name of the server.
    pub server_name: String,
}

/// A command on its way to the plugin that owns it.
#[derive(Debug)]
pub struct Dispatch<'a, H> {
    /// The caller's handle to the owning plugin.
    pub process: &'a H,
    /// The request to send.
    pub payload: HostRequestPayload,
}

/// The editor-facing side of the host: the manager of the plugins behind the
/// methods that the editor calls.
pub struct PluginHost<H> {
    manager: PluginManager<H>,
}

impl<H> View for PluginHost<H> {
    type V = ManagerView<H>;

    closed spec fn view(&self) -> ManagerView<H> {
        self.manager@
    }
}

impl<H> PluginHost<H> {
    /// A host that has started no plugin yet.
    pub fn new(options: HostOptions) -> (r: Self)
        ensures
            r@ == (ManagerView::<H> {
                manifest_path: options@,
                plugins: Seq::empty(),
                routes: Map::empty(),
                initialized: false,
            }),
    {
        PluginHost { manager: PluginManager::new(options) }
    }

    /// The manager of the plugins.
    pub fn manager(&self) -> (r: &PluginManager<H>)
        ensures
            r@ == self@,
    {
        &self.manager
    }

    /// Whether `initialize` still has to start the plugins.
    pub fn needs_plugins(&self) -> (r: bool)
        ensures
            r == !self@.initialized,
    {
        !self.manager.initialized()
    }

    /// Answer the editor's `initialize`: start the plugins where that has not
    /// happened yet, and announce the registered commands under the server's
    /// name.
    pub fn initialize(&mut self, started: Vec<StartedPlugin<H>>) -> (r: (
        InitializeResult,
        InitOutcome<H>,
    ))
        ensures
            final(self)@ == old(self)@.ensure_initialized(started_view(started@)),
            if old(self)@.initialized {
                &&& r.1 matches InitOutcome::AlreadyInitialized { unused }
                &&& unused == started
            } else {
                &&& r.1 matches InitOutcome::Started { warnings }
                &&& warnings_view(warnings@) == old(self)@.cleared().register_all_warnings(
                    started_view(started@),
                )
            },
            r.0.commands@.map_values(|name: String| name@).to_set() == final(self)@.routes.dom(),
            r.0.commands@.map_values(|name: String| name@).no_duplicates(),
            r.0.server_name@ == "helix-plugin-host"@,
    {
        let outcome = self.manager.ensure_initialized(started);
        let commands = self.manager.command_names();
        (InitializeResult { commands, server_name: "helix-plugin-host".to_owned() }, outcome)
    }

    /// Route the editor's `workspace/executeCommand`: the request goes to the
    /// plugin that owns the command; a command that is not registered is a
    /// `MethodNotFound` failure.
    pub fn execute_command<'a>(&'a self, command: &str, arguments: Vec<Value>) -> (r: Result<
        Dispatch<'a, H>,
        RpcError,
    >)
        ensures
            match r {
                Ok(dispatch) => {
                    &&& self@.routes.contains_key(command@)
                    &&& 0 <= self@.routes[command@].plugin < self@.plugins.len()
                    &&& *dispatch.process == self@.plugins[self@.routes[command@].plugin].1
                    &&& dispatch.payload@ == (PayloadView::Execute {
                        command: command@,
                        arguments: arguments@,
                    })
                },
                Err(e) => !self@.routes.contains_key(command@) && e@ == unknown_command(command@),
            },
    {
        let binding = match self.manager.lookup_command(command) {
            Some(binding) => binding,
            None => { return Err(method_not_found(command)); },
        };
        match self.manager.process(binding.plugin) {
            Some(process) => Ok(
                Dispatch {
                    process,
                    payload: HostRequestPayload::Execute { command: command.to_owned(), arguments },
                },
            ),
            None => Err(method_not_found(command)),
        }
    }

    /// Answer the editor's `shutdown`: see [`PluginManager::shutdown_all`].
    pub fn shutdown(&mut self) -> (r: Vec<(String, H)>)
        ensures
            final(self)@ == old(self)@.cleared(),
            r@.map_values(|p: (String, H)| (p.0@, p.1)) == old(self)@.plugins,
    {
        self.manager.shutdown_all()
    }
}

} // verus!
