//! The plugin commands: list, show, enable and disable.
use crate::commands::{arg_view, Answer, App, CommandInfo, CommandResult, MessageId};
use crate::plugins::{McpServer, Plugin, PluginRegistry, RegistryView, SkillsSection};
use crate::text::{push_numeral, strip_prefix};
use vstd::prelude::*;

verus! {

/// What a plugin command asks for.
pub enum Request {
    List,
    Info(Seq<char>),
    Enable(Seq<char>),
    Disable(Seq<char>),
    /// The command was called without a name; the text says how to call it.
    Usage(Seq<char>),
}

/// The answer while there is no registry.
pub open spec fn uninitialized() -> Answer {
    (true, "Plugin registry not initialized."@)
}

/// The answer to a name that no plugin has.
pub open spec fn not_found(name: Seq<char>) -> Answer {
    (true, "Plugin '"@ + name + "' not found."@)
}

/// A line of forty `=`.
pub open spec fn rule() -> Seq<char> {
    Seq::new(40, |i: int| '=').push('\n')
}

/// `enabled` or `disabled`.
pub open spec fn status(on: bool) -> Seq<char> {
    if on {
        "enabled"@
    } else {
        "disabled"@
    }
}

/// The lines on one plugin in the list.
pub open spec fn entry_lines(
    name: Seq<char>,
    enabled: bool,
    description: Option<String>,
) -> Seq<char> {
    "• "@ + name + " ["@ + status(enabled) + "]\n  "@ + (match description {
        Some(d) => d@,
        None => "No description"@,
    }) + "\n"@
}

/// The lines on the first `n` plugins.
pub open spec fn entries_lines(s: RegistryView, n: nat) -> Seq<char>
    decreases n,
{
    if n == 0 {
        Seq::<char>::empty()
    } else {
        let (name, plugin) = s[n - 1];
        entries_lines(s, (n - 1) as nat) + entry_lines(
            name,
            crate::plugins::enabled_in(s, name),
            plugin.manifest.plugin.description,
        )
    }
}

/// The list of plugins: how many there are, how many are enabled, and each of them.
pub open spec fn list_text(s: RegistryView) -> Seq<char> {
    "Plugins ("@ + crate::text::decimal(s.len()) + ", "@ + crate::text::decimal(
        crate::plugins::enabled_count(s, s.len()),
    ) + " enabled)\n"@ + rule() + entries_lines(s, s.len())
}

/// The answer to a request for the list.
pub open spec fn list_answer(registry: Option<RegistryView>) -> Answer {
    match registry {
        None => uninitialized(),
        Some(s) => if s.len() == 0 {
            (false, "No plugins discovered."@)
        } else {
            (false, list_text(s))
        },
    }
}

/// A line with a label, where there is a value for it.
pub open spec fn optional_line(label: Seq<char>, value: Option<String>) -> Seq<char> {
    match value {
        Some(v) => label + v@ + "\n"@,
        None => Seq::<char>::empty(),
    }
}

/// The first `n` words with a space between each two.
pub open spec fn spaced(words: Seq<String>, n: nat) -> Seq<char>
    decreases n,
{
    if n == 0 {
        Seq::<char>::empty()
    } else if n == 1 {
        words[0]@
    } else {
        spaced(words, (n - 1) as nat) + " "@ + words[n - 1]@
    }
}

/// The line on the arguments of a server, where it has a list of them.
pub open spec fn args_lines(args: Option<Vec<String>>) -> Seq<char> {
    match args {
        Some(args) => "    args: "@ + spaced(args@, args@.len()) + "\n"@,
        None => Seq::<char>::empty(),
    }
}

/// The line on the environment of a server, where it has one: how many variables.
pub open spec fn env_lines(env: Option<Vec<(String, String)>>) -> Seq<char> {
    match env {
        Some(env) => "    env vars: "@ + crate::text::decimal(env@.len()) + "\n"@,
        None => Seq::<char>::empty(),
    }
}

/// The line on the sandbox of a server, where that is set.
pub open spec fn sandbox_lines(sandbox: Option<bool>) -> Seq<char> {
    match sandbox {
        Some(on) => "    sandbox: "@ + (if on {
            "true"@
        } else {
            "false"@
        }) + "\n"@,
        None => Seq::<char>::empty(),
    }
}

/// The lines on a server.
pub open spec fn server_lines(name: Seq<char>, server: McpServer) -> Seq<char> {
    "  - "@ + name + ": "@ + server.command@ + "\n"@ + args_lines(server.args) + env_lines(
        server.env,
    ) + optional_line("    cwd: "@, server.cwd) + sandbox_lines(server.sandbox)
}

/// The lines on the first `n` servers.
pub open spec fn servers_lines(servers: Seq<(String, McpServer)>, n: nat) -> Seq<char>
    decreases n,
{
    if n == 0 {
        Seq::<char>::empty()
    } else {
        servers_lines(servers, (n - 1) as nat) + server_lines(
            servers[n - 1].0@,
            servers[n - 1].1,
        )
    }
}

/// What is shown of the skills: where they are.
pub open spec fn skills_lines(skills: Option<SkillsSection>) -> Seq<char> {
    match skills {
        Some(skills) => optional_line("Skills: "@, skills.path),
        None => Seq::<char>::empty(),
    }
}

/// What is shown of the servers: how many there are, and each of them.
pub open spec fn mcp_lines(servers: Option<Vec<(String, McpServer)>>) -> Seq<char> {
    match servers {
        Some(servers) => "MCP servers: "@ + crate::text::decimal(servers@.len()) + "\n"@
            + servers_lines(servers@, servers@.len()),
        None => Seq::<char>::empty(),
    }
}

/// What is shown of a plugin.
pub open spec fn info_text(p: Plugin) -> Seq<char> {
    p.manifest.plugin.name@ + "\n"@ + rule() + optional_line(
        "Description: "@,
        p.manifest.plugin.description,
    ) + optional_line("Version: "@, p.manifest.plugin.version) + optional_line(
        "Author: "@,
        p.manifest.plugin.author,
    ) + "Status: "@ + status(p.enabled) + "\n"@ + "Path: "@ + p.base_path@ + "\n"@ + skills_lines(
        p.manifest.skills,
    ) + mcp_lines(p.manifest.mcp_servers)
}

/// The answer to a request to show the plugin called `name`.
pub open spec fn info_answer(registry: Option<RegistryView>, name: Seq<char>) -> Answer {
    match registry {
        None => uninitialized(),
        Some(s) => match crate::plugins::lookup(s, name) {
            Some(p) => (false, info_text(p)),
            None => not_found(name),
        },
    }
}

/// The answer to a request to switch the plugin called `name` on or off.
pub open spec fn switch_answer(
    registry: Option<RegistryView>,
    name: Seq<char>,
    on: bool,
) -> Answer {
    match registry {
        None => uninitialized(),
        Some(s) => if crate::plugins::lookup(s, name) is Some {
            (
                false,
                "Plugin '"@ + name + (if on {
                    "' enabled."@
                } else {
                    "' disabled."@
                }),
            )
        } else {
            not_found(name)
        },
    }
}

/// The registry after a request to switch the plugin called `name`.
pub open spec fn after_switch(
    registry: Option<RegistryView>,
    name: Seq<char>,
    on: bool,
) -> Option<RegistryView> {
    match registry {
        None => None,
        Some(s) => Some(crate::plugins::switched(s, name, on)),
    }
}

/// The answer to a request, and the registry after it.
pub open spec fn respond(registry: Option<RegistryView>, request: Request) -> (
    Answer,
    Option<RegistryView>,
) {
    match request {
        Request::List => (list_answer(registry), registry),
        Request::Info(name) => (info_answer(registry, name), registry),
        Request::Enable(name) => (
            switch_answer(registry, name, true),
            after_switch(registry, name, true),
        ),
        Request::Disable(name) => (
            switch_answer(registry, name, false),
            after_switch(registry, name, false),
        ),
        Request::Usage(text) => ((true, text), registry),
    }
}

/// A line of forty `=`.
fn rule_text() -> (r: String)
    ensures
        r@ == rule(),
{
    let mut out = String::new();
    for i in 0..40usize
        invariant
            out@ == Seq::new(i as nat, |j: int| '='),
    {
        out.push('=');
        assert(out@ =~= Seq::new((i + 1) as nat, |j: int| '='));
    }
    out.push('\n');
    out
}

/// A line with a label, where there is a value for it.
fn optional_text(label: &str, value: &Option<String>) -> (r: String)
    ensures
        r@ == optional_line(label@, *value),
{
    match value {
        Some(v) => {
            let mut out = label.to_owned();
            out.append(v.as_str());
            out.append("\n");
            out
        },
        None => String::new(),
    }
}

/// The word for `on`.
fn status_word(on: bool) -> (r: &'static str)
    ensures
        r@ == status(on),
{
    if on {
        "enabled"
    } else {
        "disabled"
    }
}

/// The words with a space between each two.
fn words_text(words: &Vec<String>) -> (r: String)
    ensures
        r@ == spaced(words@, words@.len()),
{
    let mut out = String::new();
    for i in 0..words.len()
        invariant
            out@ == spaced(words@, i as nat),
    {
        if i > 0 {
            out.append(" ");
        }
        out.append(words[i].as_str());
        assert(out@ =~= spaced(words@, (i + 1) as nat));
    }
    out
}

/// The line on the arguments of a server.
fn args_line(args: &Option<Vec<String>>) -> (r: String)
    ensures
        r@ == args_lines(*args),
{
    let mut out = String::new();
    if let Some(args) = args {
        out = "    args: ".to_owned();
        out.append(words_text(args).as_str());
        out.append("\n");
    }
    out
}

/// The line on the environment of a server.
fn env_line(env: &Option<Vec<(String, String)>>) -> (r: String)
    ensures
        r@ == env_lines(*env),
{
    let mut out = String::new();
    if let Some(env) = env {
        out = "    env vars: ".to_owned();
        push_numeral(&mut out, env.len() as u64, 10);
        out.append("\n");
    }
    out
}

/// The line on the sandbox of a server.
fn sandbox_line(sandbox: Option<bool>) -> (r: String)
    ensures
        r@ == sandbox_lines(sandbox),
{
    let mut out = String::new();
    if let Some(on) = sandbox {
        out = "    sandbox: ".to_owned();
        out.append(
            if on {
                "true"
            } else {
                "false"
            },
        );
        out.append("\n");
    }
    out
}

/// The lines on a server.
fn server_text(name: &str, server: &McpServer) -> (r: String)
    ensures
        r@ == server_lines(name@, *server),
{
    let mut out = "  - ".to_owned();
    out.append(name);
    out.append(": ");
    out.append(server.command.as_str());
    out.append("\n");
    out.append(args_line(&server.args).as_str());
    out.append(env_line(&server.env).as_str());
    out.append(optional_text("    cwd: ", &server.cwd).as_str());
    out.append(sandbox_line(server.sandbox).as_str());
    out
}

/// The lines on the servers.
fn servers_text(servers: &Vec<(String, McpServer)>) -> (r: String)
    ensures
        r@ == servers_lines(servers@, servers@.len()),
{
    let mut out = String::new();
    for i in 0..servers.len()
        invariant
            out@ == servers_lines(servers@, i as nat),
    {
        out.append(server_text(servers[i].0.as_str(), &servers[i].1).as_str());
    }
    out
}

/// What is shown of the skills.
fn skills_text(skills: &Option<SkillsSection>) -> (r: String)
    ensures
        r@ == skills_lines(*skills),
{
    match skills {
        Some(skills) => optional_text("Skills: ", &skills.path),
        None => String::new(),
    }
}

/// What is shown of the servers.
fn mcp_text(servers: &Option<Vec<(String, McpServer)>>) -> (r: String)
    ensures
        r@ == mcp_lines(*servers),
{
    match servers {
        Some(servers) => {
            let mut out = "MCP servers: ".to_owned();
            push_numeral(&mut out, servers.len() as u64, 10);
            out.append("\n");
            out.append(servers_text(servers).as_str());
            out
        },
        None => String::new(),
    }
}

/// What is shown of a plugin.
pub fn describe(plugin: &Plugin) -> (r: String)
    ensures
        r@ == info_text(*plugin),
{
    let mut out = plugin.manifest.plugin.name.as_str().to_owned();
    out.append("\n");
    out.append(rule_text().as_str());
    out.append(optional_text("Description: ", &plugin.manifest.plugin.description).as_str());
    out.append(optional_text("Version: ", &plugin.manifest.plugin.version).as_str());
    out.append(optional_text("Author: ", &plugin.manifest.plugin.author).as_str());
    out.append("Status: ");
    out.append(status_word(plugin.enabled));
    out.append("\n");
    out.append("Path: ");
    out.append(plugin.base_path.as_str());
    out.append("\n");
    out.append(skills_text(&plugin.manifest.skills).as_str());
    out.append(mcp_text(&plugin.manifest.mcp_servers).as_str());
    out
}

/// The lines on one plugin in the list.
fn entry_text(name: &str, enabled: bool, description: &Option<String>) -> (r: String)
    ensures
        r@ == entry_lines(name@, enabled, *description),
{
    let mut out = "• ".to_owned();
    out.append(name);
    out.append(" [");
    out.append(status_word(enabled));
    out.append("]\n  ");
    match description {
        Some(d) => out.append(d.as_str()),
        None => out.append("No description"),
    }
    out.append("\n");
    out
}

/// The lines on all plugins in the list.
fn entries_text(registry: &PluginRegistry) -> (r: String)
    ensures
        r@ == entries_lines(registry@, registry@.len()),
{
    let ghost s = registry@;
    let mut out = String::new();
    let entries = registry.list();
    for i in 0..entries.len()
        invariant
            s == registry@,
            entries@.map_values(|e: (String, Plugin)| (e.0@, e.1)) == s,
            out@ == entries_lines(s, i as nat),
    {
        let name = entries[i].0.as_str();
        assert(s[i as int] == (name@, entries@[i as int].1));
        let lines = entry_text(
            name,
            registry.is_enabled(name),
            &entries[i].1.manifest.plugin.description,
        );
        out.append(lines.as_str());
    }
    out
}

/// Lists the plugins.
pub fn plugin_list(app: &App) -> (r: CommandResult)
    ensures
        r@ == list_answer(app.registry()),
{
    match &app.plugins {
        Some(registry) => {
            if registry.is_empty() {
                return CommandResult::message("No plugins discovered.".to_owned());
            }
            let mut out = "Plugins (".to_owned();
            push_numeral(&mut out, registry.len() as u64, 10);
            out.append(", ");
            push_numeral(&mut out, registry.enabled_len() as u64, 10);
            out.append(" enabled)\n");
            out.append(rule_text().as_str());
            out.append(entries_text(registry).as_str());
            CommandResult::message(out)
        },
        None => CommandResult::error("Plugin registry not initialized.".to_owned()),
    }
}

/// The error for a name that no plugin has.
fn missing(name: &str) -> (r: CommandResult)
    ensures
        r@ == not_found(name@),
{
    let mut m = "Plugin '".to_owned();
    m.append(name);
    m.append("' not found.");
    CommandResult::error(m)
}

/// Enables the plugin called `name`.
pub fn plugin_enable(app: &mut App, name: &str) -> (r: CommandResult)
    ensures
        r@ == switch_answer(old(app).registry(), name@, true),
        final(app).registry() == after_switch(old(app).registry(), name@, true),
        old(app).wf() ==> final(app).wf(),
{
    match &mut app.plugins {
        Some(registry) => {
            if registry.enable(name) {
                let mut m = "Plugin '".to_owned();
                m.append(name);
                m.append("' enabled.");
                CommandResult::message(m)
            } else {
                missing(name)
            }
        },
        None => CommandResult::error("Plugin registry not initialized.".to_owned()),
    }
}

/// Disables the plugin called `name`.
pub fn plugin_disable(app: &mut App, name: &str) -> (r: CommandResult)
    ensures
        r@ == switch_answer(old(app).registry(), name@, false),
        final(app).registry() == after_switch(old(app).registry(), name@, false),
        old(app).wf() ==> final(app).wf(),
{
    match &mut app.plugins {
        Some(registry) => {
            if registry.disable(name) {
                let mut m = "Plugin '".to_owned();
                m.append(name);
                m.append("' disabled.");
                CommandResult::message(m)
            } else {
                missing(name)
            }
        },
        None => CommandResult::error("Plugin registry not initialized.".to_owned()),
    }
}

/// Shows the plugin called `name`.
pub fn plugin_info(app: &App, name: &str) -> (r: CommandResult)
    ensures
        r@ == info_answer(app.registry(), name@),
{
    match &app.plugins {
        Some(registry) => match registry.get(name) {
            Some(plugin) => CommandResult::message(describe(plugin)),
            None => missing(name),
        },
        None => CommandResult::error("Plugin registry not initialized.".to_owned()),
    }
}

/// What `/plugin` asks for with this argument. Only `enable` and `disable` with a space
/// behind them are followed by a name; everything else that does not begin with `list` is
/// the name of a plugin to show.
pub open spec fn list_request(arg: Option<Seq<char>>) -> Request {
    match arg {
        None => Request::List,
        Some(a) => if "list"@.is_prefix_of(a) {
            Request::List
        } else if "enable "@.is_prefix_of(a) {
            Request::Enable(crate::text::trimmed(a.skip("enable "@.len() as int)))
        } else if "disable "@.is_prefix_of(a) {
            Request::Disable(crate::text::trimmed(a.skip("disable "@.len() as int)))
        } else {
            Request::Info(crate::text::trimmed(a))
        },
    }
}

/// The name in the argument of a command that takes nothing else.
pub open spec fn name_arg(arg: Option<Seq<char>>) -> Seq<char> {
    match arg {
        Some(a) => crate::text::trimmed(a),
        None => Seq::<char>::empty(),
    }
}

/// What `/plugin enable` asks for with this argument.
pub open spec fn enable_request(arg: Option<Seq<char>>) -> Request {
    if name_arg(arg).len() == 0 {
        Request::Usage("Usage: /plugin enable <name>"@)
    } else {
        Request::Enable(name_arg(arg))
    }
}

/// What `/plugin disable` asks for with this argument.
pub open spec fn disable_request(arg: Option<Seq<char>>) -> Request {
    if name_arg(arg).len() == 0 {
        Request::Usage("Usage: /plugin disable <name>"@)
    } else {
        Request::Disable(name_arg(arg))
    }
}

/// What `/plugin info` asks for with this argument.
pub open spec fn info_request(arg: Option<Seq<char>>) -> Request {
    if name_arg(arg).len() == 0 {
        Request::Usage("Usage: /plugin info <name>"@)
    } else {
        Request::Info(name_arg(arg))
    }
}

/// The name in `arg`.
fn name_of<'a>(arg: Option<&'a str>) -> (r: &'a str)
    ensures
        r@ == name_arg(arg_view(arg)),
{
    match arg {
        Some(a) => a.trim(),
        None => {
            proof {
                reveal_strlit("");
                assert(""@ =~= Seq::<char>::empty());
            }
            ""
        },
    }
}

/// Whether `info` describes a command with this name, these aliases and this usage.
pub open spec fn describes(
    info: CommandInfo,
    name: Seq<char>,
    aliases: Seq<Seq<char>>,
    usage: Seq<char>,
) -> bool {
    &&& info.name@ == name
    &&& info.aliases@.map_values(|a: &'static str| a@) == aliases
    &&& info.usage@ == usage
    &&& info.description_id == MessageId::CmdPluginDescription
}

/// `/plugin`.
pub struct PluginListCmd;

impl PluginListCmd {
    /// How the command is called and described.
    pub fn info() -> (r: CommandInfo)
        ensures
            describes(r, "plugin"@, seq!["plugins"@], "/plugin list"@),
    {
        let aliases: Vec<&'static str> = vec!["plugins"];
        assert(aliases@.map_values(|a: &'static str| a@) =~= seq!["plugins"@]);
        CommandInfo {
            name: "plugin",
            aliases,
            usage: "/plugin list",
            description_id: MessageId::CmdPluginDescription,
        }
    }

    /// Lists the plugins, or does with one of them what `arg` says.
    pub fn execute(app: &mut App, arg: Option<&str>) -> (r: CommandResult)
        ensures
            (r@, final(app).registry()) == respond(
                old(app).registry(),
                list_request(arg_view(arg)),
            ),
            old(app).wf() ==> final(app).wf(),
    {
        match arg {
            Some(a) => {
                if strip_prefix(a, "list").is_some() {
                    return plugin_list(app);
                }
                if let Some(rest) = strip_prefix(a, "enable ") {
                    return plugin_enable(app, rest.trim());
                }
                if let Some(rest) = strip_prefix(a, "disable ") {
                    return plugin_disable(app, rest.trim());
                }
                plugin_info(app, a.trim())
            },
            None => plugin_list(app),
        }
    }
}

/// `/plugin enable`.
pub struct PluginEnableCmd;

impl PluginEnableCmd {
    /// How the command is called and described.
    pub fn info() -> (r: CommandInfo)
        ensures
            describes(r, "plugin enable"@, Seq::empty(), "/plugin enable <name>"@),
    {
        let r = CommandInfo {
            name: "plugin enable",
            aliases: Vec::new(),
            usage: "/plugin enable <name>",
            description_id: MessageId::CmdPluginDescription,
        };
        assert(r.aliases@.map_values(|a: &'static str| a@) =~= Seq::empty());
        r
    }

    /// Enables the plugin that `arg` names.
    pub fn execute(app: &mut App, arg: Option<&str>) -> (r: CommandResult)
        ensures
            (r@, final(app).registry()) == respond(
                old(app).registry(),
                enable_request(arg_view(arg)),
            ),
            old(app).wf() ==> final(app).wf(),
    {
        let name = name_of(arg);
        if name.is_empty() {
            CommandResult::error("Usage: /plugin enable <name>".to_owned())
        } else {
            plugin_enable(app, name)
        }
    }
}

/// `/plugin disable`.
pub struct PluginDisableCmd;

impl PluginDisableCmd {
    /// How the command is called and described.
    pub fn info() -> (r: CommandInfo)
        ensures
            describes(r, "plugin disable"@, Seq::empty(), "/plugin disable <name>"@),
    {
        let r = CommandInfo {
            name: "plugin disable",
            aliases: Vec::new(),
            usage: "/plugin disable <name>",
            description_id: MessageId::CmdPluginDescription,
        };
        assert(r.aliases@.map_values(|a: &'static str| a@) =~= Seq::empty());
        r
    }

    /// Disables the plugin that `arg` names.
    pub fn execute(app: &mut App, arg: Option<&str>) -> (r: CommandResult)
        ensures
            (r@, final(app).registry()) == respond(
                old(app).registry(),
                disable_request(arg_view(arg)),
            ),
            old(app).wf() ==> final(app).wf(),
    {
        let name = name_of(arg);
        if name.is_empty() {
            CommandResult::error("Usage: /plugin disable <name>".to_owned())
        } else {
            plugin_disable(app, name)
        }
    }
}

/// `/plugin info`.
pub struct PluginInfoCmd;

impl PluginInfoCmd {
    /// How the command is called and described.
    pub fn info() -> (r: CommandInfo)
        ensures
            describes(r, "plugin info"@, Seq::empty(), "/plugin info <name>"@),
    {
        let r = CommandInfo {
            name: "plugin info",
            aliases: Vec::new(),
            usage: "/plugin info <name>",
            description_id: MessageId::CmdPluginDescription,
        };
        assert(r.aliases@.map_values(|a: &'static str| a@) =~= Seq::empty());
        r
    }

    /// Shows the plugin that `arg` names.
    pub fn execute(app: &mut App, arg: Option<&str>) -> (r: CommandResult)
        ensures
            (r@, final(app).registry()) == respond(old(app).registry(), info_request(arg_view(arg))),
            old(app).wf() ==> final(app).wf(),
    {
        let name = name_of(arg);
        if name.is_empty() {
            CommandResult::error("Usage: /plugin info <name>".to_owned())
        } else {
            plugin_info(app, name)
        }
    }
}

/// Which plugin command to run.
#[derive(Clone, Copy, Debug, PartialEq, Eq, Structural)]
pub enum PluginAction {
    List,
    Enable,
    Disable,
    Info,
}

/// What a command asks for with this argument.
pub open spec fn action_request(action: PluginAction, arg: Option<Seq<char>>) -> Request {
    match action {
        PluginAction::List => list_request(arg),
        PluginAction::Enable => enable_request(arg),
        PluginAction::Disable => disable_request(arg),
        PluginAction::Info => info_request(arg),
    }
}

/// A command with its description, ready to be registered.
#[derive(Debug)]
pub struct FunctionCommand {
    pub info: CommandInfo,
    pub action: PluginAction,
}

impl FunctionCommand {
    /// Runs the command on what follows its name.
    pub fn execute(&self, app: &mut App, arg: Option<&str>) -> (r: CommandResult)
        ensures
            (r@, final(app).registry()) == respond(
                old(app).registry(),
                action_request(self.action, arg_view(arg)),
            ),
            old(app).wf() ==> final(app).wf(),
    {
        match self.action {
            PluginAction::List => PluginListCmd::execute(app, arg),
            PluginAction::Enable => PluginEnableCmd::execute(app, arg),
            PluginAction::Disable => PluginDisableCmd::execute(app, arg),
            PluginAction::Info => PluginInfoCmd::execute(app, arg),
        }
    }
}

/// The group of the plugin commands.
pub struct PluginsCommands;

impl PluginsCommands {
    /// The commands of the group: list, enable, disable and info.
    pub fn commands(&self) -> (r: Vec<FunctionCommand>)
        ensures
            r@.len() == 4,
            r@[0].action == PluginAction::List,
            describes(r@[0].info, "plugin"@, seq!["plugins"@], "/plugin list"@),
            r@[1].action == PluginAction::Enable,
            describes(r@[1].info, "plugin enable"@, Seq::empty(), "/plugin enable <name>"@),
            r@[2].action == PluginAction::Disable,
            describes(r@[2].info, "plugin disable"@, Seq::empty(), "/plugin disable <name>"@),
            r@[3].action == PluginAction::Info,
            describes(r@[3].info, "plugin info"@, Seq::empty(), "/plugin info <name>"@),
    {
        vec![
            FunctionCommand { info: PluginListCmd::info(), action: PluginAction::List },
            FunctionCommand { info: PluginEnableCmd::info(), action: PluginAction::Enable },
            FunctionCommand { info: PluginDisableCmd::info(), action: PluginAction::Disable },
            FunctionCommand { info: PluginInfoCmd::info(), action: PluginAction::Info },
        ]
    }
}

} // verus!
