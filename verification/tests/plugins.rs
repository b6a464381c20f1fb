use codewhale_tui::commands::{App, CommandResult, MessageId};
use codewhale_tui::plugin_commands::{
    describe, plugin_disable, plugin_enable, plugin_info, plugin_list, PluginAction,
    PluginDisableCmd, PluginEnableCmd, PluginInfoCmd, PluginListCmd, PluginsCommands,
};
use codewhale_tui::plugins::{
    McpServer, Plugin, PluginManifest, PluginMeta, PluginRegistry, SkillsSection,
};
use codewhale_tui::text::{push_numeral, same_text, strip_prefix};

fn plugin(name: &str, enabled: bool) -> Plugin {
    Plugin {
        manifest: PluginManifest {
            plugin: PluginMeta {
                name: name.to_string(),
                description: None,
                version: None,
                author: None,
            },
            skills: None,
            mcp_servers: None,
        },
        enabled,
        base_path: format!("/plugins/{name}"),
    }
}

fn app() -> App {
    let mut registry = PluginRegistry::new();
    registry.insert("alpha".to_string(), plugin("alpha", true));
    let mut beta = plugin("beta", false);
    beta.manifest.plugin.description = Some("Second.".to_string());
    registry.insert("beta".to_string(), beta);
    App { plugins: Some(registry) }
}

fn message(r: CommandResult) -> String {
    assert!(!r.is_error, "{}", r.text);
    r.text
}

fn error(r: CommandResult) -> String {
    assert!(r.is_error, "{}", r.text);
    r.text
}

#[test]
fn list_shows_every_plugin() {
    let rule = "=".repeat(40);
    assert_eq!(
        message(plugin_list(&app())),
        format!(
            "Plugins (2, 1 enabled)\n{rule}\n\u{2022} alpha [enabled]\n  No description\n\
             \u{2022} beta [disabled]\n  Second.\n"
        )
    );
}

#[test]
fn empty_and_missing_registry() {
    let mut app = App { plugins: Some(PluginRegistry::new()) };
    assert_eq!(message(plugin_list(&app)), "No plugins discovered.");
    app.plugins = None;
    let none = "Plugin registry not initialized.";
    assert_eq!(error(plugin_list(&app)), none);
    assert_eq!(error(plugin_info(&app, "alpha")), none);
    assert_eq!(error(plugin_enable(&mut app, "alpha")), none);
    assert_eq!(error(plugin_disable(&mut app, "alpha")), none);
}

#[test]
fn enable_and_disable_switch_one_plugin() {
    let mut app = app();
    assert_eq!(message(plugin_enable(&mut app, "beta")), "Plugin 'beta' enabled.");
    assert!(message(plugin_list(&app)).contains("Plugins (2, 2 enabled)"));
    assert!(message(plugin_info(&app, "beta")).contains("Status: enabled\n"));
    assert_eq!(message(plugin_disable(&mut app, "beta")), "Plugin 'beta' disabled.");
    assert_eq!(message(plugin_disable(&mut app, "beta")), "Plugin 'beta' disabled.");
    assert!(message(plugin_info(&app, "beta")).contains("Status: disabled\n"));
    assert!(message(plugin_info(&app, "alpha")).contains("Status: enabled\n"));
    assert_eq!(error(plugin_enable(&mut app, "gamma")), "Plugin 'gamma' not found.");
    assert_eq!(error(plugin_disable(&mut app, "gamma")), "Plugin 'gamma' not found.");
    assert_eq!(error(plugin_info(&app, "gamma")), "Plugin 'gamma' not found.");
}

#[test]
fn info_shows_everything() {
    let mut p = plugin("full", true);
    p.manifest.plugin.description = Some("D".to_string());
    p.manifest.plugin.version = Some("1.2".to_string());
    p.manifest.plugin.author = Some("A".to_string());
    p.manifest.skills = Some(SkillsSection { path: Some("skills".to_string()) });
    p.manifest.mcp_servers = Some(vec![
        (
            "one".to_string(),
            McpServer {
                command: "run".to_string(),
                args: Some(vec!["-a".to_string(), "b".to_string(), "c".to_string()]),
                env: Some(vec![("K".to_string(), "V".to_string())]),
                cwd: Some("/tmp".to_string()),
                sandbox: Some(false),
            },
        ),
        (
            "two".to_string(),
            McpServer {
                command: "go".to_string(),
                args: None,
                env: None,
                cwd: None,
                sandbox: Some(true),
            },
        ),
    ]);
    let rule = "=".repeat(40);
    assert_eq!(
        describe(&p),
        format!(
            "full\n{rule}\nDescription: D\nVersion: 1.2\nAuthor: A\nStatus: enabled\n\
             Path: /plugins/full\nSkills: skills\nMCP servers: 2\n  - one: run\n    args: -a b c\n    \
             env vars: 1\n    cwd: /tmp\n    sandbox: false\n  - two: go\n    sandbox: true\n"
        )
    );
    p.manifest.skills = Some(SkillsSection { path: None });
    p.manifest.mcp_servers = Some(vec![]);
    p.manifest.plugin.description = None;
    p.enabled = false;
    assert_eq!(
        describe(&p),
        format!(
            "full\n{rule}\nVersion: 1.2\nAuthor: A\nStatus: disabled\nPath: /plugins/full\n\
             MCP servers: 0\n"
        )
    );
}

#[test]
fn plugin_command_reads_its_argument() {
    let mut app = app();
    let list = message(plugin_list(&app));
    assert_eq!(message(PluginListCmd::execute(&mut app, None)), list);
    assert_eq!(message(PluginListCmd::execute(&mut app, Some("list"))), list);
    assert_eq!(message(PluginListCmd::execute(&mut app, Some("listing"))), list);
    assert_eq!(
        message(PluginListCmd::execute(&mut app, Some("enable  beta\t"))),
        "Plugin 'beta' enabled."
    );
    assert_eq!(
        message(PluginListCmd::execute(&mut app, Some("disable beta"))),
        "Plugin 'beta' disabled."
    );
    assert_eq!(
        message(PluginListCmd::execute(&mut app, Some("\u{3000}alpha\n"))),
        describe(&plugin("alpha", true))
    );
    let not_found = |name: &str| format!("Plugin '{name}' not found.");
    assert_eq!(error(PluginListCmd::execute(&mut app, Some("enable"))), not_found("enable"));
    assert_eq!(error(PluginListCmd::execute(&mut app, Some("enable "))), not_found(""));
    assert_eq!(error(PluginListCmd::execute(&mut app, Some("disable  "))), not_found(""));
    assert_eq!(error(PluginListCmd::execute(&mut app, Some(" list"))), not_found("list"));
    assert_eq!(error(PluginListCmd::execute(&mut app, Some("info beta"))), not_found("info beta"));
    assert_eq!(error(PluginListCmd::execute(&mut app, Some(""))), not_found(""));
}

#[test]
fn named_commands_want_a_name() {
    let mut app = app();
    for arg in [None, Some(""), Some(" \t\u{2003}\u{85}")] {
        assert_eq!(
            error(PluginEnableCmd::execute(&mut app, arg)),
            "Usage: /plugin enable <name>"
        );
        assert_eq!(
            error(PluginDisableCmd::execute(&mut app, arg)),
            "Usage: /plugin disable <name>"
        );
        assert_eq!(error(PluginInfoCmd::execute(&mut app, arg)), "Usage: /plugin info <name>");
    }
    assert_eq!(
        message(PluginEnableCmd::execute(&mut app, Some(" beta "))),
        "Plugin 'beta' enabled."
    );
    assert_eq!(
        message(PluginDisableCmd::execute(&mut app, Some("beta"))),
        "Plugin 'beta' disabled."
    );
    assert_eq!(
        message(PluginInfoCmd::execute(&mut app, Some("alpha "))),
        describe(&plugin("alpha", true))
    );
}

#[test]
fn group_holds_four_commands() {
    let commands = PluginsCommands.commands();
    let names: Vec<&str> = commands.iter().map(|c| c.info.name).collect();
    assert_eq!(names, ["plugin", "plugin enable", "plugin disable", "plugin info"]);
    let usages: Vec<&str> = commands.iter().map(|c| c.info.usage).collect();
    assert_eq!(
        usages,
        [
            "/plugin list",
            "/plugin enable <name>",
            "/plugin disable <name>",
            "/plugin info <name>"
        ]
    );
    assert_eq!(commands[0].info.aliases, ["plugins"]);
    assert!(commands[1].info.aliases.is_empty());
    assert_eq!(commands[3].info.description_id, MessageId::CmdPluginDescription);
    assert_eq!(commands[2].action, PluginAction::Disable);
    let mut app = app();
    let answer = commands[2].execute(&mut app, Some("alpha"));
    assert_eq!(message(answer), "Plugin 'alpha' disabled.");
}

#[test]
fn registry_keeps_one_plugin_per_name() {
    let mut registry = PluginRegistry::new();
    assert!(registry.is_empty());
    registry.insert("a".to_string(), plugin("a", false));
    registry.insert("b".to_string(), plugin("b", true));
    registry.insert("a".to_string(), plugin("other", true));
    assert_eq!(registry.len(), 2);
    assert_eq!(registry.enabled_len(), 2);
    assert_eq!(registry.get("a").unwrap().manifest.plugin.name, "other");
    assert_eq!(registry.list()[0].0, "a");
    assert!(!registry.is_enabled("c"));
}

#[test]
fn text_helpers() {
    assert!(same_text("h\u{e9}", "h\u{e9}"));
    assert!(!same_text("a", "A"));
    assert!(!same_text("a", "ab"));
    assert_eq!(strip_prefix("\u{e9}t\u{e9}", "\u{e9}"), Some("t\u{e9}"));
    assert_eq!(strip_prefix("ab", "b"), None);
    assert_eq!(strip_prefix("ab", "abc"), None);
    let mut s = String::new();
    push_numeral(&mut s, 18446744073709551615, 10);
    s.push(' ');
    push_numeral(&mut s, 0xfe80, 16);
    s.push(' ');
    push_numeral(&mut s, 0, 10);
    assert_eq!(s, "18446744073709551615 fe80 0");
}

#[test]
fn switches_commute_and_can_be_undone() {
    let mut x = app();
    let mut y = app();
    let start = message(plugin_list(&x));
    plugin_enable(&mut x, "beta");
    plugin_disable(&mut x, "alpha");
    plugin_disable(&mut y, "alpha");
    plugin_enable(&mut y, "beta");
    assert_eq!(message(plugin_list(&x)), message(plugin_list(&y)));
    plugin_enable(&mut x, "alpha");
    plugin_disable(&mut x, "beta");
    assert_eq!(message(plugin_list(&x)), start);
}

#[test]
fn two_ways_to_switch_and_to_show() {
    let mut x = app();
    let mut y = app();
    for (long, short) in [("enable  beta", " beta"), ("enable nobody", "nobody")] {
        let a = PluginListCmd::execute(&mut x, Some(long));
        let b = PluginEnableCmd::execute(&mut y, Some(short));
        assert_eq!((a.is_error, a.text), (b.is_error, b.text));
    }
    let a = PluginListCmd::execute(&mut x, Some("disable alpha"));
    let b = PluginDisableCmd::execute(&mut y, Some("alpha"));
    assert_eq!((a.is_error, a.text), (b.is_error, b.text));
    let a = PluginListCmd::execute(&mut x, Some(" alpha"));
    let b = PluginInfoCmd::execute(&mut y, Some(" alpha"));
    assert_eq!((a.is_error, a.text), (b.is_error, b.text));
    assert_eq!(message(plugin_list(&x)), message(plugin_list(&y)));
}

#[test]
fn environment_variables_are_counted_not_shown() {
    let with_env = |key: &str, value: &str| {
        let mut p = plugin("p", true);
        let server = McpServer {
            command: "run".to_string(),
            args: None,
            env: Some(vec![(key.to_string(), value.to_string())]),
            cwd: None,
            sandbox: None,
        };
        p.manifest.mcp_servers = Some(vec![("s".to_string(), server)]);
        describe(&p)
    };
    let text = with_env("TOKEN", "hush");
    assert!(text.contains("    env vars: 1\n"));
    assert!(!text.contains("TOKEN") && !text.contains("hush"));
    assert_eq!(text, with_env("OTHER", ""));
}
