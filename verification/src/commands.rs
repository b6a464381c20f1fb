//! Slash commands: what they are called, what they run on and what they answer.
use crate::plugins::{PluginRegistry, RegistryView};
use vstd::prelude::*;

verus! {

/// Texts that are looked up in the user's language.
#[derive(Clone, Copy, Debug, PartialEq, Eq, Structural)]
pub enum MessageId {
    CmdPluginDescription,
}

/// How a command is called and described.
#[derive(Debug)]
pub struct CommandInfo {
    pub name: &'static str,
    pub aliases: Vec<&'static str>,
    pub usage: &'static str,
    pub description_id: MessageId,
}

/// What a command answers: a message, or an error.
#[derive(Debug)]
pub struct CommandResult {
    pub is_error: bool,
    pub text: String,
}

/// A command's answer: whether it is an error, and its text.
pub type Answer = (bool, Seq<char>);

impl View for CommandResult {
    type V = Answer;

    open spec fn view(&self) -> Answer {
        (self.is_error, self.text@)
    }
}

impl CommandResult {
    /// A message.
    pub fn message(text: String) -> (r: CommandResult)
        ensures
            r@ == (false, text@),
    {
        CommandResult { is_error: false, text }
    }

    /// An error.
    pub fn error(text: String) -> (r: CommandResult)
        ensures
            r@ == (true, text@),
    {
        CommandResult { is_error: true, text }
    }
}

/// The state that commands work on.
#[derive(Debug)]
pub struct App {
    /// The plugin registry, once it is initialized.
    pub plugins: Option<PluginRegistry>,
}

impl App {
    /// The plugins, once the registry is initialized.
    pub open spec fn registry(self) -> Option<RegistryView> {
        match self.plugins {
            Some(r) => Some(r@),
            None => None,
        }
    }

    /// Whether the registry, if there is one, is well formed.
    pub open spec fn wf(self) -> bool {
        match self.plugins {
            Some(r) => r.wf(),
            None => true,
        }
    }
}

/// An argument as text.
pub open spec fn arg_view(arg: Option<&str>) -> Option<Seq<char>> {
    match arg {
        Some(a) => Some(a@),
        None => None,
    }
}

} // verus!
