//! A plugin that greets.

use crate::protocol::{command_ids, EventView, MessageLevel, PluginCommand, PluginCommandView};
use crate::runtime::{
    duplicate_command_text, CommandContext, InitializeContext, Plugin, PluginError, Registrar,
};
use crate::text::same_text;
use serde_json::Value;
use vstd::prelude::*;
use vstd::string::StringExecFns;

verus! {

/// The one command of the plugin.
pub open spec fn say_hello_command() -> PluginCommandView {
    PluginCommandView {
        id: "helix.hello.say_hello"@,
        title: "Say Hello"@,
        description: Some("Display a friendly greeting."@),
    }
}

/// What the plugin logs when it is told the workspace root.
pub open spec fn loaded_text(root: Seq<char>) -> Seq<char> {
    "Hello plugin loaded for workspace: "@ + root
}

/// The greeting.
pub open spec fn greeting_text() -> Seq<char> {
    "Hello from the Helix plugin runtime!"@
}

/// The message of the failure for a command that the plugin does not have.
pub open spec fn unknown_command_text(command: Seq<char>) -> Seq<char> {
    "unknown command `"@ + command + "`"@
}

/// The plugin that greets.
pub struct HelloPlugin;

impl Plugin for HelloPlugin {
    fn name(&self) -> (r: &'static str)
        ensures
            r@ == "hello-plugin"@,
    {
        "hello-plugin"
    }

    /// Registers the greeting command and, where the host announced a
    /// workspace root, logs that the plugin is loaded for it.
    fn initialize<R: Registrar>(
        &mut self,
        ctx: &mut InitializeContext,
        registrar: &mut R,
    ) -> (r: Result<(), PluginError>)
        ensures
            r is Ok <==> !command_ids(old(registrar).registered()).contains(say_hello_command().id),
            match r {
                Ok(_) => {
                    &&& final(registrar).registered() == old(registrar).registered().push(
                        say_hello_command(),
                    )
                    &&& final(ctx).emitted() == match old(ctx).root() {
                        Some(root) => old(ctx).emitted().push(
                            EventView::Log { level: MessageLevel::Info, message: loaded_text(root) },
                        ),
                        None => old(ctx).emitted(),
                    }
                },
                Err(e) => {
                    &&& final(registrar).registered() == old(registrar).registered()
                    &&& final(ctx).emitted() == old(ctx).emitted()
                    &&& e@ == duplicate_command_text(say_hello_command().id)
                },
            },
    {
        let command = PluginCommand::new("helix.hello.say_hello", "Say Hello").with_description(
            "Display a friendly greeting.",
        );
        match registrar.register_command(command) {
            Ok(()) => {},
            Err(e) => {
                return Err(e);
            },
        }
        let message = match ctx.workspace_root() {
            Some(root) => Some(String::from_str("Hello plugin loaded for workspace: ").concat(root)),
            None => None,
        };
        if let Some(message) = message {
            ctx.log(MessageLevel::Info, message.as_str());
        }
        Ok(())
    }

    /// Greets on `helix.hello.say_hello` and returns no value; fails on any
    /// other command.
    fn execute(
        &mut self,
        command: &str,
        arguments: Vec<Value>,
        ctx: &mut CommandContext<'_>,
    ) -> (r: Result<Option<Value>, PluginError>)
        ensures
            if command@ == say_hello_command().id {
                &&& r == Ok::<Option<Value>, PluginError>(None)
                &&& final(ctx).emitted() == old(ctx).emitted().push(
                    EventView::ShowMessage { level: MessageLevel::Info, message: greeting_text() },
                )
            } else {
                &&& r matches Err(e)
                &&& e@ == unknown_command_text(command@)
                &&& final(ctx).emitted() == old(ctx).emitted()
            },
    {
        if same_text(command, "helix.hello.say_hello") {
            ctx.show_message(MessageLevel::Info, "Hello from the Helix plugin runtime!");
            Ok(None)
        } else {
            let message = String::from_str("unknown command `").concat(command).concat("`");
            Err(PluginError { message })
        }
    }
}

} // verus!
