//! What the list and the descriptions of plugins show.
use crate::plugin_commands::{
    entries_lines, entry_lines, info_text, list_answer, mcp_lines, optional_line, rule,
    server_lines, servers_lines, skills_lines, spaced, status,
};
use crate::plugin_laws::{enabled_plugins_are_counted, list_and_info_agree};
use crate::plugins::{
    distinct, McpServer, Plugin, PluginManifest, PluginMeta, RegistryView, SkillsSection,
};
use crate::text::decimal;
use vstd::prelude::*;

verus! {

/// The lines on a plugin give its name, the word for its state and its description, in
/// either state, and say that there is none exactly where there is none.
pub proof fn entries_show_name_state_and_description(name: Seq<char>, d: String)
    ensures
        entry_lines(name, true, Some(d)) == "• "@ + name + " [enabled]\n  "@ + d@ + "\n"@,
        entry_lines(name, false, Some(d)) == "• "@ + name + " [disabled]\n  "@ + d@ + "\n"@,
        entry_lines(name, true, None) == "• "@ + name + " [enabled]\n  No description\n"@,
        entry_lines(name, false, None) == "• "@ + name + " [disabled]\n  No description\n"@,
{
    reveal_strlit(" [");
    reveal_strlit("enabled");
    reveal_strlit("disabled");
    reveal_strlit("]\n  ");
    reveal_strlit("No description");
    reveal_strlit("\n");
    reveal_strlit(" [enabled]\n  ");
    reveal_strlit(" [disabled]\n  ");
    reveal_strlit(" [enabled]\n  No description\n");
    reveal_strlit(" [disabled]\n  No description\n");
    assert(" ["@ + "enabled"@ + "]\n  "@ =~= " [enabled]\n  "@);
    assert(" ["@ + "disabled"@ + "]\n  "@ =~= " [disabled]\n  "@);
    assert(" [enabled]\n  "@ + "No description"@ + "\n"@ =~= " [enabled]\n  No description\n"@);
    assert(" [disabled]\n  "@ + "No description"@ + "\n"@ =~= " [disabled]\n  No description\n"@);
    let start = "• "@ + name;
    assert(start + " ["@ + "enabled"@ + "]\n  "@ =~= start + (" ["@ + "enabled"@ + "]\n  "@));
    assert(start + " ["@ + "disabled"@ + "]\n  "@ =~= start + (" ["@ + "disabled"@ + "]\n  "@));
    let (e, f) = (" [enabled]\n  "@, " [disabled]\n  "@);
    let none = "No description"@;
    assert(start + e + none + "\n"@ =~= start + (e + none + "\n"@));
    assert(start + f + none + "\n"@ =~= start + (f + none + "\n"@));
}

/// The lines on a plugin end in its description, whatever its state.
pub proof fn entries_end_in_the_description(name: Seq<char>, enabled: bool, d: String)
    ensures
        exists|before: Seq<char>|
            entry_lines(name, enabled, Some(d)) == #[trigger] (before + "]\n  "@) + d@ + "\n"@,
{
    let word = if enabled {
        "enabled"@
    } else {
        "disabled"@
    };
    let before = "• "@ + name + " ["@ + word;
    assert(entry_lines(name, enabled, Some(d)) == (before + "]\n  "@) + d@ + "\n"@);
}

/// Different descriptions give different lines, and none gives the lines of a plugin that is
/// described as not described.
pub proof fn descriptions_tell_entries_apart(name: Seq<char>, enabled: bool, d: String, e: String)
    ensures
        entry_lines(name, enabled, Some(d)) == entry_lines(name, enabled, Some(e)) <==> d@ == e@,
        entry_lines(name, enabled, Some(d)) == entry_lines(name, enabled, None) <==> d@
            == "No description"@,
{
    let word = if enabled {
        "enabled"@
    } else {
        "disabled"@
    };
    let before = "• "@ + name + " ["@ + word + "]\n  "@;
    lemma_between(before, d@, e@, "\n"@);
    lemma_between(before, d@, "No description"@, "\n"@);
}

proof fn lemma_between(before: Seq<char>, x: Seq<char>, y: Seq<char>, after: Seq<char>)
    ensures
        before + x + after == before + y + after <==> x == y,
{
    let (a, b) = (before + x + after, before + y + after);
    if a == b {
        assert(a.len() == b.len());
        assert forall|i: int| 0 <= i < x.len() implies x[i] == y[i] by {
            assert(a[before.len() + i] == x[i]);
            assert(b[before.len() + i] == y[i]);
        }
        assert(x =~= y);
    }
}

/// Plugins with different states have different lines.
pub proof fn states_tell_entries_apart(name: Seq<char>, d: Option<String>)
    ensures
        entry_lines(name, true, d) != entry_lines(name, false, d),
{
    reveal_strlit("enabled");
    reveal_strlit("disabled");
    assert(entry_lines(name, true, d).len() + 1 == entry_lines(name, false, d).len());
}

/// The line under a heading is forty times `=`.
pub proof fn headings_are_underlined(i: int)
    requires
        0 <= i < 40,
    ensures
        rule().len() == 41,
        rule()[i] == '=',
        rule()[40] == '\n',
{
}

/// The list says how many plugins there are and how many of them are enabled, and then shows
/// each of them in order, once; where there are none it says so.
pub proof fn the_list_shows_every_plugin_in_order(s: RegistryView)
    requires
        distinct(s),
    ensures
        s.len() == 0 ==> list_answer(Some(s)) == (false, "No plugins discovered."@),
        s.len() > 0 ==> list_answer(Some(s)) == (
            false,
            "Plugins ("@ + decimal(s.len()) + ", "@ + decimal(
                s.filter(|e: (Seq<char>, Plugin)| e.1.enabled).len(),
            ) + " enabled)\n"@ + rule() + s.map_values(
                |e: (Seq<char>, Plugin)|
                    entry_lines(e.0, e.1.enabled, e.1.manifest.plugin.description),
            ).flatten(),
        ),
{
    enabled_plugins_are_counted(s, s.len());
    assert(s.take(s.len() as int) =~= s);
    lemma_entries(s, s.len());
}

proof fn lemma_entries(s: RegistryView, n: nat)
    requires
        distinct(s),
        n <= s.len(),
    ensures
        entries_lines(s, n) == s.take(n as int).map_values(
            |e: (Seq<char>, Plugin)|
                entry_lines(e.0, e.1.enabled, e.1.manifest.plugin.description),
        ).flatten(),
    decreases n,
{
    let f = |e: (Seq<char>, Plugin)|
        entry_lines(e.0, e.1.enabled, e.1.manifest.plugin.description);
    if n > 0 {
        lemma_entries(s, (n - 1) as nat);
        list_and_info_agree(s, n - 1);
        let short = s.take(n - 1).map_values(f);
        assert(s.take(n as int).map_values(f) =~= short.push(f(s[n - 1])));
        short.lemma_flatten_push(f(s[n - 1]));
    } else {
        assert(s.take(0).map_values(f) =~= Seq::<Seq<char>>::empty());
    }
}

/// What stands above everything else in a description: the name, underlined.
pub open spec fn heading(p: Plugin) -> Seq<char> {
    p.manifest.plugin.name@ + "\n"@ + rule()
}

/// The plugin with this description, version and author.
pub open spec fn with_meta(
    p: Plugin,
    description: Option<String>,
    version: Option<String>,
    author: Option<String>,
) -> Plugin {
    Plugin {
        manifest: PluginManifest {
            plugin: PluginMeta { name: p.manifest.plugin.name, description, version, author },
            ..p.manifest
        },
        ..p
    }
}

/// The plugin with these skills and servers.
pub open spec fn with_parts(
    p: Plugin,
    skills: Option<SkillsSection>,
    mcp_servers: Option<Vec<(String, McpServer)>>,
) -> Plugin {
    Plugin { manifest: PluginManifest { skills, mcp_servers, ..p.manifest }, ..p }
}

/// Of a plugin with nothing but a name, its state and its path are shown.
pub proof fn state_and_path_are_always_shown(p: Plugin)
    ensures
        ({
            let bare = with_parts(with_meta(p, None, None, None), None, None);
            &&& p.enabled ==> info_text(bare) == heading(p) + "Status: enabled\nPath: "@
                + p.base_path@ + "\n"@
            &&& !p.enabled ==> info_text(bare) == heading(p) + "Status: disabled\nPath: "@
                + p.base_path@ + "\n"@
        }),
{
    let bare = with_parts(with_meta(p, None, None, None), None, None);
    reveal_strlit("Status: ");
    reveal_strlit("enabled");
    reveal_strlit("disabled");
    reveal_strlit("\n");
    reveal_strlit("Path: ");
    reveal_strlit("Status: enabled\nPath: ");
    reveal_strlit("Status: disabled\nPath: ");
    let (on, off) = ("Status: enabled\nPath: "@, "Status: disabled\nPath: "@);
    assert("Status: "@ + "enabled"@ + "\n"@ + "Path: "@ =~= on);
    assert("Status: "@ + "disabled"@ + "\n"@ + "Path: "@ =~= off);
    let middle = if p.enabled {
        on
    } else {
        off
    };
    assert(info_text(bare) =~= heading(p) + middle + p.base_path@ + "\n"@);
}

/// What stands below the description.
spec fn below_description(p: Plugin) -> Seq<char> {
    optional_line("Version: "@, p.manifest.plugin.version) + (optional_line(
        "Author: "@,
        p.manifest.plugin.author,
    ) + ("Status: "@ + status(p.enabled) + "\n"@ + "Path: "@ + p.base_path@ + "\n"@ + skills_lines(
        p.manifest.skills,
    ) + mcp_lines(p.manifest.mcp_servers)))
}

proof fn lemma_sections(p: Plugin)
    ensures
        info_text(p) == heading(p) + optional_line(
            "Description: "@,
            p.manifest.plugin.description,
        ) + below_description(p),
{
    let d = optional_line("Description: "@, p.manifest.plugin.description);
    let v = optional_line("Version: "@, p.manifest.plugin.version);
    let a = optional_line("Author: "@, p.manifest.plugin.author);
    let start = heading(p) + d + v + a;
    let below = "Status: "@ + status(p.enabled) + "\n"@ + "Path: "@ + p.base_path@ + "\n"@
        + skills_lines(p.manifest.skills) + mcp_lines(p.manifest.mcp_servers);
    assert(info_text(p) =~= start + below);
    assert(start + below =~= heading(p) + d + (v + (a + below)));
}

/// A description adds its line under the heading, and nothing else.
pub proof fn descriptions_have_their_line(p: Plugin, d: String)
    ensures
        ({
            let (v, a) = (p.manifest.plugin.version, p.manifest.plugin.author);
            info_text(with_meta(p, Some(d), v, a)) == heading(p) + "Description: "@ + d@ + "\n"@
                + info_text(with_meta(p, None, v, a)).skip(heading(p).len() as int)
        }),
{
    let (v, a) = (p.manifest.plugin.version, p.manifest.plugin.author);
    let (with, without) = (with_meta(p, Some(d), v, a), with_meta(p, None, v, a));
    let line = "Description: "@ + d@ + "\n"@;
    let rest = info_text(without).skip(heading(p).len() as int);
    lemma_sections(with);
    lemma_sections(without);
    assert(heading(p) + Seq::<char>::empty() =~= heading(p));
    assert(rest =~= below_description(p));
    assert(info_text(with) == heading(p) + line + rest);
    assert(heading(p) + line + rest =~= heading(p) + "Description: "@ + d@ + "\n"@ + rest);
}

/// A version adds its line below the description's, and nothing else.
pub proof fn versions_have_their_line(p: Plugin, v: String)
    ensures
        ({
            let a = p.manifest.plugin.author;
            info_text(with_meta(p, None, Some(v), a)) == heading(p) + "Version: "@ + v@ + "\n"@
                + info_text(with_meta(p, None, None, a)).skip(heading(p).len() as int)
        }),
{
    let a = p.manifest.plugin.author;
    let (with, without) = (with_meta(p, None, Some(v), a), with_meta(p, None, None, a));
    let line = "Version: "@ + v@ + "\n"@;
    let rest = info_text(without).skip(heading(p).len() as int);
    lemma_sections(with);
    lemma_sections(without);
    assert(heading(p) + Seq::<char>::empty() =~= heading(p));
    assert(rest =~= below_description(without));
    assert(below_description(with) =~= line + rest);
    assert(heading(p) + (line + rest) =~= heading(p) + line + rest);
    assert(heading(p) + line + rest =~= heading(p) + "Version: "@ + v@ + "\n"@ + rest);
}

/// An author adds their line below the version's, and nothing else.
pub proof fn authors_have_their_line(p: Plugin, a: String)
    ensures
        info_text(with_meta(p, None, None, Some(a))) == heading(p) + "Author: "@ + a@ + "\n"@
            + info_text(with_meta(p, None, None, None)).skip(heading(p).len() as int),
{
    let (with, without) = (with_meta(p, None, None, Some(a)), with_meta(p, None, None, None));
    let line = "Author: "@ + a@ + "\n"@;
    let rest = info_text(without).skip(heading(p).len() as int);
    lemma_sections(with);
    lemma_sections(without);
    assert(heading(p) + Seq::<char>::empty() =~= heading(p));
    assert(rest =~= below_description(without));
    assert(below_description(with) =~= line + rest);
    assert(heading(p) + (line + rest) =~= heading(p) + line + rest);
    assert(heading(p) + line + rest =~= heading(p) + "Author: "@ + a@ + "\n"@ + rest);
}

/// Skills add the line with their path at the end, where they have one, and nothing else.
pub proof fn skills_have_their_line(p: Plugin, path: String)
    ensures
        info_text(with_parts(p, Some(SkillsSection { path: Some(path) }), None)) == info_text(
            with_parts(p, None, None),
        ) + "Skills: "@ + path@ + "\n"@,
        info_text(with_parts(p, Some(SkillsSection { path: None }), None)) == info_text(
            with_parts(p, None, None),
        ),
{
    let bare = info_text(with_parts(p, None, None));
    let with = info_text(with_parts(p, Some(SkillsSection { path: Some(path) }), None));
    let none = info_text(with_parts(p, Some(SkillsSection { path: None }), None));
    assert(with =~= bare + "Skills: "@ + path@ + "\n"@);
    assert(none =~= bare);
}

/// Servers add how many there are and then the lines on each of them, in order, at the end,
/// and nothing else.
pub proof fn servers_are_shown_in_order(p: Plugin, servers: Vec<(String, McpServer)>)
    ensures
        ({
            let skills = p.manifest.skills;
            info_text(with_parts(p, skills, Some(servers))) == info_text(
                with_parts(p, skills, None),
            ) + "MCP servers: "@ + decimal(servers@.len()) + "\n"@ + servers@.map_values(
                |e: (String, McpServer)| server_lines(e.0@, e.1),
            ).flatten()
        }),
{
    let skills = p.manifest.skills;
    let without = info_text(with_parts(p, skills, None));
    let with = info_text(with_parts(p, skills, Some(servers)));
    let count = "MCP servers: "@ + decimal(servers@.len()) + "\n"@;
    let all = servers@.map_values(|e: (String, McpServer)| server_lines(e.0@, e.1)).flatten();
    lemma_servers(servers@, servers@.len());
    assert(servers@.take(servers@.len() as int) =~= servers@);
    assert(with =~= without + (count + all));
    assert(without + (count + all) =~= without + "MCP servers: "@ + decimal(servers@.len())
        + "\n"@ + all);
}

proof fn lemma_servers(servers: Seq<(String, McpServer)>, n: nat)
    requires
        n <= servers.len(),
    ensures
        servers_lines(servers, n) == servers.take(n as int).map_values(
            |e: (String, McpServer)| server_lines(e.0@, e.1),
        ).flatten(),
    decreases n,
{
    let f = |e: (String, McpServer)| server_lines(e.0@, e.1);
    if n > 0 {
        lemma_servers(servers, (n - 1) as nat);
        let short = servers.take(n - 1).map_values(f);
        assert(servers.take(n as int).map_values(f) =~= short.push(f(servers[n - 1])));
        short.lemma_flatten_push(f(servers[n - 1]));
    } else {
        assert(servers.take(0).map_values(f) =~= Seq::<Seq<char>>::empty());
    }
}

/// Of a server with nothing else, its name and its command are shown.
pub proof fn name_and_command_are_always_shown(name: Seq<char>, command: String)
    ensures
        server_lines(
            name,
            McpServer { command, args: None, env: None, cwd: None, sandbox: None },
        ) == "  - "@ + name + ": "@ + command@ + "\n"@,
{
    let bare = McpServer { command, args: None, env: None, cwd: None, sandbox: None };
    assert(server_lines(name, bare) =~= "  - "@ + name + ": "@ + command@ + "\n"@);
}

/// Arguments add their line with a space between each two, also where there are none of
/// them, and nothing else.
pub proof fn arguments_have_their_line(name: Seq<char>, server: McpServer, args: Vec<String>)
    ensures
        ({
            let bare = McpServer { args: None, env: None, cwd: None, sandbox: None, ..server };
            server_lines(name, McpServer { args: Some(args), ..bare }) == server_lines(name, bare)
                + "    args: "@ + spaced(args@, args@.len()) + "\n"@
        }),
{
    let bare = McpServer { args: None, env: None, cwd: None, sandbox: None, ..server };
    let with = McpServer { args: Some(args), ..bare };
    let words = spaced(args@, args@.len());
    assert(server_lines(name, with) =~= server_lines(name, bare) + "    args: "@ + words + "\n"@);
}

/// Words with a space between each two, and one more at the end, are the words with a space
/// behind each; no words are nothing.
pub proof fn words_are_spaced(words: Seq<String>, n: nat)
    requires
        n <= words.len(),
    ensures
        n == 0 ==> spaced(words, n) == Seq::<char>::empty(),
        n > 0 ==> spaced(words, n).push(' ') == words.take(n as int).map_values(
            |w: String| w@.push(' '),
        ).flatten(),
    decreases n,
{
    let f = |w: String| w@.push(' ');
    if n > 0 {
        reveal_strlit(" ");
        let short = words.take(n - 1).map_values(f);
        assert(words.take(n as int).map_values(f) =~= short.push(f(words[n - 1])));
        short.lemma_flatten_push(f(words[n - 1]));
        if n > 1 {
            words_are_spaced(words, (n - 1) as nat);
            let before = spaced(words, (n - 1) as nat);
            assert(spaced(words, n).push(' ') =~= before.push(' ') + words[n - 1]@.push(' '));
        } else {
            assert(short =~= Seq::<Seq<char>>::empty());
            assert(spaced(words, 1).push(' ') =~= short.flatten() + f(words[0]));
        }
    }
}

/// An environment adds the line with the number of its variables, and nothing else.
pub proof fn environments_are_counted(
    name: Seq<char>,
    server: McpServer,
    env: Vec<(String, String)>,
)
    ensures
        ({
            let bare = McpServer { env: None, cwd: None, sandbox: None, ..server };
            server_lines(name, McpServer { env: Some(env), ..bare }) == server_lines(name, bare)
                + "    env vars: "@ + decimal(env@.len()) + "\n"@
        }),
{
    let bare = McpServer { env: None, cwd: None, sandbox: None, ..server };
    let with = McpServer { env: Some(env), ..bare };
    let number = decimal(env@.len());
    assert(server_lines(name, with) =~= server_lines(name, bare) + "    env vars: "@ + number
        + "\n"@);
}

/// A working directory adds its line, and nothing else.
pub proof fn directories_have_their_line(name: Seq<char>, server: McpServer, cwd: String)
    ensures
        ({
            let bare = McpServer { cwd: None, sandbox: None, ..server };
            server_lines(name, McpServer { cwd: Some(cwd), ..bare }) == server_lines(name, bare)
                + "    cwd: "@ + cwd@ + "\n"@
        }),
{
    let bare = McpServer { cwd: None, sandbox: None, ..server };
    let with = McpServer { cwd: Some(cwd), ..bare };
    assert(server_lines(name, with) =~= server_lines(name, bare) + "    cwd: "@ + cwd@ + "\n"@);
}

/// A setting of the sandbox adds its line at the end, and nothing else.
pub proof fn sandboxes_have_their_line(name: Seq<char>, server: McpServer)
    ensures
        ({
            let bare = McpServer { sandbox: None, ..server };
            &&& server_lines(name, McpServer { sandbox: Some(true), ..server }) == server_lines(
                name,
                bare,
            ) + "    sandbox: true\n"@
            &&& server_lines(name, McpServer { sandbox: Some(false), ..server }) == server_lines(
                name,
                bare,
            ) + "    sandbox: false\n"@
        }),
{
    reveal_strlit("    sandbox: ");
    reveal_strlit("true");
    reveal_strlit("false");
    reveal_strlit("\n");
    reveal_strlit("    sandbox: true\n");
    reveal_strlit("    sandbox: false\n");
    let bare = server_lines(name, McpServer { sandbox: None, ..server });
    let on = server_lines(name, McpServer { sandbox: Some(true), ..server });
    let off = server_lines(name, McpServer { sandbox: Some(false), ..server });
    assert("    sandbox: "@ + "true"@ + "\n"@ =~= "    sandbox: true\n"@);
    assert("    sandbox: "@ + "false"@ + "\n"@ =~= "    sandbox: false\n"@);
    assert(on =~= bare + "    sandbox: true\n"@);
    assert(off =~= bare + "    sandbox: false\n"@);
}

} // verus!
