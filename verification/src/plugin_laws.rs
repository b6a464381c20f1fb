//! What the plugin commands promise of every registry.
use crate::commands::{arg_view, App, CommandInfo, CommandResult, MessageId};
use crate::plugin_commands::{
    action_request, after_switch, describes, disable_request, enable_request, entries_lines,
    entry_lines, info_answer, info_request, info_text, list_answer, list_request, list_text,
    not_found, respond, servers_lines, switch_answer, uninitialized, PluginAction, Request,
};
use crate::plugins::{
    distinct, enabled_count, enabled_in, index_of, inserted, lemma_index_of, lookup, switched,
    McpServer, Plugin, RegistryView,
};
use crate::text::{is_white_space, trimmed};
use crate::text_laws::{blank, trimming_leaves_what_is_between_the_blanks};
use vstd::prelude::*;

verus! {

/// A switched plugin has the state it was switched to, and is otherwise as it was.
pub proof fn switching_takes_effect(s: RegistryView, name: Seq<char>, on: bool)
    requires
        lookup(s, name) is Some,
    ensures
        lookup(switched(s, name, on), name) == Some(Plugin { enabled: on, ..lookup(s, name)->0 }),
        enabled_in(switched(s, name, on), name) == on,
{
    let t = switched(s, name, on);
    lemma_index_of(s, name, 0);
    lemma_index_of(t, name, 0);
    let k = index_of(s, name, 0)->0;
    assert(t[k].0 == name);
    assert(index_of(t, name, 0) == Some(k)) by {
        if index_of(t, name, 0) is Some {
            let m = index_of(t, name, 0)->0;
            assert(m < k ==> t[m] == s[m]);
        }
    }
}

/// Switching one plugin leaves every other one as it was, and the order and the names too.
pub proof fn switching_leaves_the_others(
    s: RegistryView,
    name: Seq<char>,
    on: bool,
    other: Seq<char>,
)
    requires
        other != name,
    ensures
        lookup(switched(s, name, on), other) == lookup(s, other),
        switched(s, name, on).len() == s.len(),
        forall|i: int| 0 <= i < s.len() ==> (#[trigger] switched(s, name, on)[i]).0 == s[i].0,
{
    let t = switched(s, name, on);
    lemma_index_of(s, name, 0);
    assert forall|i: int| 0 <= i < s.len() implies (#[trigger] t[i]).0 == s[i].0 by {}
    lemma_same_index(s, t, other, 0);
    lemma_index_of(s, other, 0);
}

proof fn lemma_same_index(s: RegistryView, t: RegistryView, name: Seq<char>, i: int)
    requires
        0 <= i,
        s.len() == t.len(),
        forall|j: int| 0 <= j < s.len() ==> (#[trigger] t[j]).0 == s[j].0,
    ensures
        index_of(t, name, i) == index_of(s, name, i),
    decreases s.len() - i,
{
    if i < s.len() {
        lemma_same_index(s, t, name, i + 1);
    }
}

/// A name that no plugin has changes nothing, and is answered with an error.
pub proof fn unknown_names_change_nothing(s: RegistryView, name: Seq<char>, on: bool)
    requires
        lookup(s, name) is None,
    ensures
        switched(s, name, on) == s,
        switch_answer(Some(s), name, on) == not_found(name),
        info_answer(Some(s), name) == not_found(name),
{
}

/// Of several switches of one plugin the last one counts: enabling and disabling undo each
/// other, and doing either twice is doing it once.
pub proof fn the_last_switch_counts(s: RegistryView, name: Seq<char>, first: bool, last: bool)
    ensures
        switched(switched(s, name, first), name, last) == switched(s, name, last),
{
    if lookup(s, name) is Some {
        let t = switched(s, name, first);
        lemma_index_of(s, name, 0);
        lemma_same_index(s, t, name, 0);
        assert(switched(t, name, last) =~= switched(s, name, last));
    }
}

/// Switching a plugin to the state that it has changes nothing; so switching it and back
/// gives the registry that was.
pub proof fn switching_back_restores(s: RegistryView, name: Seq<char>, on: bool)
    requires
        lookup(s, name) is Some,
    ensures
        switched(switched(s, name, on), name, enabled_in(s, name)) == s,
{
    the_last_switch_counts(s, name, on, enabled_in(s, name));
    lemma_index_of(s, name, 0);
    assert(switched(s, name, enabled_in(s, name)) =~= s);
}

/// Switches of different plugins can be done in either order.
pub proof fn switches_commute(
    s: RegistryView,
    x: Seq<char>,
    x_on: bool,
    y: Seq<char>,
    y_on: bool,
)
    requires
        x != y,
    ensures
        switched(switched(s, x, x_on), y, y_on) == switched(switched(s, y, y_on), x, x_on),
{
    lemma_index_of(s, x, 0);
    lemma_index_of(s, y, 0);
    let a = switched(s, x, x_on);
    let b = switched(s, y, y_on);
    lemma_same_index(s, a, y, 0);
    lemma_same_index(s, b, x, 0);
    assert(switched(a, y, y_on) =~= switched(b, x, x_on));
}

/// Switching keeps every name once.
pub proof fn switching_keeps_names_distinct(s: RegistryView, name: Seq<char>, on: bool)
    requires
        distinct(s),
    ensures
        distinct(switched(s, name, on)),
{
    lemma_index_of(s, name, 0);
}

/// What is inserted is found under its name, and nothing else changes.
pub proof fn inserted_plugins_are_found(
    s: RegistryView,
    name: Seq<char>,
    plugin: Plugin,
    other: Seq<char>,
)
    requires
        other != name,
    ensures
        lookup(inserted(s, name, plugin), name) == Some(plugin),
        lookup(inserted(s, name, plugin), other) == lookup(s, other),
{
    let t = inserted(s, name, plugin);
    lemma_index_of(s, name, 0);
    lemma_index_of(s, other, 0);
    match index_of(s, name, 0) {
        Some(k) => {
            lemma_same_index(s, t, name, 0);
            lemma_same_index(s, t, other, 0);
        },
        None => {
            lemma_appended(s, (name, plugin), name, 0);
            lemma_appended(s, (name, plugin), other, 0);
        },
    }
}

proof fn lemma_appended(s: RegistryView, e: (Seq<char>, Plugin), name: Seq<char>, i: int)
    requires
        0 <= i <= s.len(),
    ensures
        index_of(s.push(e), name, i) == (if index_of(s, name, i) is Some {
            index_of(s, name, i)
        } else if e.0 == name {
            Some(s.len() as int)
        } else {
            None
        }),
    decreases s.len() - i,
{
    if i < s.len() {
        lemma_appended(s, e, name, i + 1);
    } else {
        assert(index_of(s.push(e), name, i + 1) is None);
    }
}

/// The list and the description of a plugin agree on whether it is enabled.
pub proof fn list_and_info_agree(s: RegistryView, i: int)
    requires
        distinct(s),
        0 <= i < s.len(),
    ensures
        lookup(s, s[i].0) == Some(s[i].1),
        enabled_in(s, s[i].0) == s[i].1.enabled,
{
    lemma_index_of(s, s[i].0, 0);
    let k = index_of(s, s[i].0, 0);
    assert(k == Some(i));
}

/// Every plugin has its lines in the list, with its own name, state and description.
pub proof fn every_plugin_is_listed(s: RegistryView, i: int)
    requires
        distinct(s),
        0 <= i < s.len(),
    ensures
        exists|before: Seq<char>, after: Seq<char>|
            list_text(s) == #[trigger] (before + entry_lines(
                s[i].0,
                s[i].1.enabled,
                s[i].1.manifest.plugin.description,
            ) + after),
{
    list_and_info_agree(s, i);
    lemma_listed(s, s.len(), i);
    let lines = entry_lines(s[i].0, s[i].1.enabled, s[i].1.manifest.plugin.description);
    let entries = entries_lines(s, s.len());
    let (before, after) = choose|before: Seq<char>, after: Seq<char>|
        entries == #[trigger] (before + lines + after);
    let head = list_text(s).take(list_text(s).len() - entries.len());
    assert(list_text(s) =~= head + entries);
    assert(list_text(s) =~= (head + before) + lines + after);
}

proof fn lemma_listed(s: RegistryView, n: nat, i: int)
    requires
        0 <= i < n <= s.len(),
    ensures
        exists|before: Seq<char>, after: Seq<char>|
            entries_lines(s, n) == #[trigger] (before + entry_lines(
                s[i].0,
                enabled_in(s, s[i].0),
                s[i].1.manifest.plugin.description,
            ) + after),
    decreases n,
{
    let lines = entry_lines(
        s[i].0,
        enabled_in(s, s[i].0),
        s[i].1.manifest.plugin.description,
    );
    let short = entries_lines(s, (n - 1) as nat);
    if i == n - 1 {
        assert(entries_lines(s, n) =~= short + lines + Seq::<char>::empty());
    } else {
        lemma_listed(s, (n - 1) as nat, i);
        let (before, after) = choose|before: Seq<char>, after: Seq<char>|
            short == #[trigger] (before + lines + after);
        let last = entry_lines(
            s[n - 1].0,
            enabled_in(s, s[n - 1].0),
            s[n - 1].1.manifest.plugin.description,
        );
        assert(entries_lines(s, n) =~= before + lines + (after + last));
    }
}

/// No more plugins are enabled than there are.
pub proof fn enabled_plugins_are_plugins(s: RegistryView, n: nat)
    requires
        n <= s.len(),
    ensures
        enabled_count(s, n) <= n,
    decreases n,
{
    if n > 0 {
        enabled_plugins_are_plugins(s, (n - 1) as nat);
    }
}

/// Enabling a plugin that was disabled raises the count of enabled plugins by one, and
/// disabling one that was enabled lowers it by one.
pub proof fn switching_moves_the_count_by_one(s: RegistryView, name: Seq<char>, on: bool)
    requires
        lookup(s, name) is Some,
        enabled_in(s, name) != on,
    ensures
        enabled_count(switched(s, name, on), s.len()) == enabled_count(s, s.len()) + (if on {
            1int
        } else {
            -1int
        }),
{
    lemma_index_of(s, name, 0);
    lemma_count(s, index_of(s, name, 0)->0, on, s.len());
}

proof fn lemma_count(s: RegistryView, k: int, on: bool, n: nat)
    requires
        0 <= k < s.len(),
        n <= s.len(),
    ensures
        enabled_count(s.update(k, (s[k].0, Plugin { enabled: on, ..s[k].1 })), n) == enabled_count(
            s,
            n,
        ) + (if n <= k || s[k].1.enabled == on {
            0int
        } else if on {
            1int
        } else {
            -1int
        }),
    decreases n,
{
    if n > 0 {
        lemma_count(s, k, on, (n - 1) as nat);
    }
}

/// Only enabling and disabling change the registry.
pub proof fn showing_changes_nothing(registry: Option<RegistryView>, request: Request)
    requires
        !(request is Enable),
        !(request is Disable),
    ensures
        respond(registry, request).1 == registry,
{
}

/// While there is no registry, every request for plugins is answered with that.
pub proof fn nothing_works_without_registry(request: Request)
    requires
        !(request is Usage),
    ensures
        respond(None, request) == (uninitialized(), None::<RegistryView>),
{
}

/// `/plugin enable` with a name behind it does the same whether it is taken as `/plugin`
/// with an argument or as a command of its own; so does `/plugin disable`.
pub proof fn both_ways_to_switch_agree(arg: Seq<char>)
    requires
        trimmed(arg).len() > 0,
    ensures
        list_request(Some("enable "@ + arg)) == enable_request(Some(arg)),
        list_request(Some("disable "@ + arg)) == disable_request(Some(arg)),
{
    reveal_strlit("list");
    reveal_strlit("enable ");
    reveal_strlit("disable ");
    let e = "enable "@ + arg;
    let d = "disable "@ + arg;
    lemma_prefix("list"@, e);
    lemma_prefix("list"@, d);
    lemma_prefix("enable "@, e);
    lemma_prefix("enable "@, d);
    lemma_prefix("disable "@, d);
    assert(e[0] == 'e' && d[0] == 'd' && "list"@[0] == 'l' && "enable "@[0] == 'e');
    assert(e.subrange(0, 7) =~= "enable "@);
    assert(d.subrange(0, 8) =~= "disable "@);
    assert(e.skip(7) =~= arg);
    assert(d.skip(8) =~= arg);
}

proof fn lemma_prefix(p: Seq<char>, s: Seq<char>)
    requires
        p.len() >= 1,
        s.len() >= 1,
    ensures
        p.is_prefix_of(s) ==> p[0] == s[0],
{
}

/// A name that is no word of `/plugin` shows the plugin, as `/plugin info` does.
pub proof fn both_ways_to_show_agree(arg: Seq<char>)
    requires
        trimmed(arg).len() > 0,
        !"list"@.is_prefix_of(arg),
        !"enable "@.is_prefix_of(arg),
        !"disable "@.is_prefix_of(arg),
    ensures
        list_request(Some(arg)) == info_request(Some(arg)),
{
}

/// After a plugin is enabled it shows as enabled, and after it is disabled as disabled.
pub proof fn info_shows_the_last_switch(s: RegistryView, name: Seq<char>, on: bool)
    requires
        lookup(s, name) is Some,
    ensures
        info_answer(Some(switched(s, name, on)), name) == (
            false,
            info_text(Plugin { enabled: on, ..lookup(s, name)->0 }),
        ),
{
    switching_takes_effect(s, name, on);
}

/// Whether two servers differ in their environment variables at most, and not in how many
/// of them there are.
pub open spec fn same_but_env(x: (String, McpServer), y: (String, McpServer)) -> bool {
    &&& x.0@ == y.0@
    &&& x.1.command@ == y.1.command@
    &&& x.1.args == y.1.args
    &&& x.1.cwd == y.1.cwd
    &&& x.1.sandbox == y.1.sandbox
    &&& match (x.1.env, y.1.env) {
        (Some(e), Some(f)) => e@.len() == f@.len(),
        (None, None) => true,
        _ => false,
    }
}

/// Of its environment variables a description shows the number only: plugins whose servers
/// differ in nothing but the variables' names and values are described alike.
pub proof fn environments_are_not_shown(p: Plugin, q: Plugin)
    requires
        p.manifest.plugin == q.manifest.plugin,
        p.manifest.skills == q.manifest.skills,
        p.enabled == q.enabled,
        p.base_path == q.base_path,
        p.manifest.mcp_servers is Some,
        q.manifest.mcp_servers is Some,
        p.manifest.mcp_servers->0@.len() == q.manifest.mcp_servers->0@.len(),
        forall|i: int|
            0 <= i < p.manifest.mcp_servers->0@.len() ==> same_but_env(
                #[trigger] p.manifest.mcp_servers->0@[i],
                q.manifest.mcp_servers->0@[i],
            ),
    ensures
        info_text(p) == info_text(q),
{
    let x = p.manifest.mcp_servers->0@;
    let y = q.manifest.mcp_servers->0@;
    lemma_servers_alike(x, y, x.len());
}

proof fn lemma_servers_alike(
    x: Seq<(String, McpServer)>,
    y: Seq<(String, McpServer)>,
    n: nat,
)
    requires
        n <= x.len(),
        x.len() == y.len(),
        forall|i: int| 0 <= i < x.len() ==> same_but_env(#[trigger] x[i], y[i]),
    ensures
        servers_lines(x, n) == servers_lines(y, n),
    decreases n,
{
    if n > 0 {
        lemma_servers_alike(x, y, (n - 1) as nat);
        assert(same_but_env(x[n - 1], y[n - 1]));
    }
}

/// A name stands for the first plugin that has it.
pub proof fn names_stand_for_the_first_plugin(s: RegistryView, name: Seq<char>, i: int)
    requires
        0 <= i < s.len(),
        s[i].0 == name,
        forall|j: int| 0 <= j < i ==> (#[trigger] s[j]).0 != name,
    ensures
        index_of(s, name, 0) == Some(i),
        lookup(s, name) == Some(s[i].1),
        enabled_in(s, name) == s[i].1.enabled,
{
    lemma_index_of(s, name, 0);
}

/// A name that no plugin has stands for none, and a plugin that is not there is not enabled.
pub proof fn unknown_names_stand_for_nothing(s: RegistryView, name: Seq<char>)
    requires
        forall|j: int| 0 <= j < s.len() ==> (#[trigger] s[j]).0 != name,
    ensures
        index_of(s, name, 0) is None,
        lookup(s, name) is None,
        !enabled_in(s, name),
{
    lemma_index_of(s, name, 0);
}

/// In a registry that holds every name once, switching reaches the plugin of that name and
/// sets its state, whatever that was; every other plugin is the one that was there.
pub proof fn switching_sets_one_state(s: RegistryView, name: Seq<char>, on: bool, i: int)
    requires
        distinct(s),
        0 <= i < s.len(),
    ensures
        switched(s, name, on).len() == s.len(),
        s[i].0 != name ==> switched(s, name, on)[i] == s[i],
        s[i].0 == name ==> {
            let now = switched(s, name, on)[i];
            &&& now.0 == name
            &&& now.1.enabled == on
            &&& now.1.manifest == s[i].1.manifest
            &&& now.1.base_path == s[i].1.base_path
        },
{
    lemma_index_of(s, name, 0);
}

/// What is inserted takes the place of the plugin that had its name, or comes last where
/// there was none; every other plugin stays in its place.
pub proof fn inserting_replaces_or_appends(
    s: RegistryView,
    name: Seq<char>,
    plugin: Plugin,
    i: int,
)
    requires
        distinct(s),
        0 <= i < s.len(),
    ensures
        s[i].0 != name ==> inserted(s, name, plugin)[i] == s[i],
        s[i].0 == name ==> inserted(s, name, plugin)[i] == (name, plugin),
        s[i].0 == name ==> inserted(s, name, plugin).len() == s.len(),
        lookup(s, name) is None ==> inserted(s, name, plugin).len() == s.len() + 1,
        lookup(s, name) is None ==> inserted(s, name, plugin).last() == (name, plugin),
        distinct(inserted(s, name, plugin)),
{
    lemma_index_of(s, name, 0);
}

/// The first plugin that is inserted is the only one.
pub proof fn inserting_into_nothing_gives_one(name: Seq<char>, plugin: Plugin)
    ensures
        inserted(RegistryView::empty(), name, plugin) == seq![(name, plugin)],
{
    assert(inserted(RegistryView::empty(), name, plugin) =~= seq![(name, plugin)]);
}

/// Inserting twice under one name leaves the second plugin.
pub proof fn the_last_insertion_counts(
    s: RegistryView,
    name: Seq<char>,
    first: Plugin,
    last: Plugin,
)
    ensures
        inserted(inserted(s, name, first), name, last) == inserted(s, name, last),
{
    let t = inserted(s, name, first);
    lemma_index_of(s, name, 0);
    match index_of(s, name, 0) {
        Some(k) => {
            lemma_same_index(s, t, name, 0);
        },
        None => {
            lemma_appended(s, (name, first), name, 0);
        },
    }
    assert(inserted(t, name, last) =~= inserted(s, name, last));
}

/// A registry holds every name once exactly if its names are without duplicates.
pub proof fn distinct_means_no_name_twice(s: RegistryView)
    ensures
        distinct(s) <==> s.map_values(|e: (Seq<char>, Plugin)| e.0).no_duplicates(),
{
    let names = s.map_values(|e: (Seq<char>, Plugin)| e.0);
    if distinct(s) {
        assert forall|i: int, j: int|
            0 <= i < names.len() && 0 <= j < names.len() && i != j implies names[i] != names[j] by {
            assert(names[i] == s[i].0 && names[j] == s[j].0);
        }
    }
    if names.no_duplicates() {
        assert forall|i: int, j: int| 0 <= i < j < s.len() implies (#[trigger] s[i]).0 != (
        #[trigger] s[j]).0 by {
            assert(names[i] == s[i].0 && names[j] == s[j].0);
        }
    }
}

/// The plugins that are counted as enabled are those that are.
pub proof fn enabled_plugins_are_counted(s: RegistryView, n: nat)
    requires
        n <= s.len(),
    ensures
        enabled_count(s, n) == s.take(n as int).filter(
            |e: (Seq<char>, Plugin)| e.1.enabled,
        ).len(),
    decreases n,
{
    reveal(Seq::filter);
    if n > 0 {
        enabled_plugins_are_counted(s, (n - 1) as nat);
        assert(s.take(n as int).drop_last() =~= s.take(n - 1));
        assert(s.take(n as int).last() == s[n - 1]);
    }
}

/// After a request to enable a plugin it is enabled, and after a request to disable it it is
/// not, whatever its state was before; what the plugin is besides stays.
pub proof fn requests_set_the_state(s: RegistryView, name: Seq<char>)
    requires
        lookup(s, name) is Some,
    ensures
        respond(Some(s), Request::Enable(name)).1 matches Some(t) && lookup(t, name) == Some(
            Plugin { enabled: true, ..lookup(s, name)->0 },
        ) && enabled_in(t, name),
        respond(Some(s), Request::Disable(name)).1 matches Some(t) && lookup(t, name) == Some(
            Plugin { enabled: false, ..lookup(s, name)->0 },
        ) && !enabled_in(t, name),
{
    switching_takes_effect(s, name, true);
    switching_takes_effect(s, name, false);
}

/// The same of the commands that do nothing else, which leave no registry where there is
/// none.
pub proof fn switch_commands_set_the_state(s: RegistryView, name: Seq<char>, on: bool)
    requires
        lookup(s, name) is Some,
    ensures
        after_switch(Some(s), name, on) matches Some(t) && lookup(t, name) == Some(
            Plugin { enabled: on, ..lookup(s, name)->0 },
        ) && enabled_in(t, name) == on,
        after_switch(None, name, on) is None,
{
    switching_takes_effect(s, name, on);
}

/// A request to enable or disable one plugin leaves every other plugin as it was, in its
/// place.
pub proof fn requests_leave_the_others(s: RegistryView, name: Seq<char>, i: int)
    requires
        0 <= i < s.len(),
        s[i].0 != name,
    ensures
        respond(Some(s), Request::Enable(name)).1 matches Some(t) && t.len() == s.len() && t[i]
            == s[i],
        respond(Some(s), Request::Disable(name)).1 matches Some(t) && t.len() == s.len() && t[i]
            == s[i],
        after_switch(Some(s), name, true) matches Some(t) && t.len() == s.len() && t[i] == s[i],
        after_switch(Some(s), name, false) matches Some(t) && t.len() == s.len() && t[i] == s[i],
{
    lemma_index_of(s, name, 0);
}

/// The names and their order outlast every request.
pub proof fn requests_keep_the_names(s: RegistryView, request: Request, i: int)
    requires
        0 <= i < s.len(),
    ensures
        respond(Some(s), request).1 matches Some(t) && t.len() == s.len() && t[i].0 == s[i].0,
{
    match request {
        Request::Enable(name) => lemma_index_of(s, name, 0),
        Request::Disable(name) => lemma_index_of(s, name, 0),
        _ => (),
    }
}

/// Making a request twice is making it once: the second time it gets the same answer and
/// changes nothing.
pub proof fn requests_can_be_repeated(registry: Option<RegistryView>, request: Request)
    ensures
        respond(respond(registry, request).1, request) == respond(registry, request),
{
    if registry is Some {
        let s = registry->0;
        match request {
            Request::Enable(name) => lemma_repeated(s, name, true),
            Request::Disable(name) => lemma_repeated(s, name, false),
            _ => (),
        }
    }
}

proof fn lemma_repeated(s: RegistryView, name: Seq<char>, on: bool)
    ensures
        switched(switched(s, name, on), name, on) == switched(s, name, on),
        lookup(switched(s, name, on), name) is Some <==> lookup(s, name) is Some,
{
    the_last_switch_counts(s, name, on, on);
    if lookup(s, name) is Some {
        switching_takes_effect(s, name, on);
    }
}

/// Enabling after disabling is enabling, and the other way round.
pub proof fn the_last_request_counts(registry: Option<RegistryView>, name: Seq<char>)
    ensures
        respond(respond(registry, Request::Disable(name)).1, Request::Enable(name)) == respond(
            registry,
            Request::Enable(name),
        ),
        respond(respond(registry, Request::Enable(name)).1, Request::Disable(name)) == respond(
            registry,
            Request::Disable(name),
        ),
{
    if registry is Some {
        let s = registry->0;
        the_last_switch_counts(s, name, false, true);
        the_last_switch_counts(s, name, true, false);
        lemma_repeated(s, name, true);
        lemma_repeated(s, name, false);
    }
}

/// A request about a plugin that is there gets a message that says what was done, and one
/// about a plugin that is not there an error with the name, and nothing changes.
pub proof fn requests_are_answered(s: RegistryView, name: Seq<char>)
    ensures
        lookup(s, name) is Some ==> {
            &&& respond(Some(s), Request::Enable(name)).0 == (
                false,
                "Plugin '"@ + name + "' enabled."@,
            )
            &&& respond(Some(s), Request::Disable(name)).0 == (
                false,
                "Plugin '"@ + name + "' disabled."@,
            )
            &&& respond(Some(s), Request::Info(name)).0 == (false, info_text(lookup(s, name)->0))
        },
        lookup(s, name) is None ==> {
            let error = (true, "Plugin '"@ + name + "' not found."@);
            &&& respond(Some(s), Request::Enable(name)) == (error, Some(s))
            &&& respond(Some(s), Request::Disable(name)) == (error, Some(s))
            &&& respond(Some(s), Request::Info(name)) == (error, Some(s))
        },
{
}

/// The commands that show or switch one plugin answer as the requests do.
pub proof fn commands_answer_as_requests_do(registry: Option<RegistryView>, name: Seq<char>)
    ensures
        respond(registry, Request::List) == (list_answer(registry), registry),
        respond(registry, Request::Info(name)) == (info_answer(registry, name), registry),
        respond(registry, Request::Enable(name)) == (
            switch_answer(registry, name, true),
            after_switch(registry, name, true),
        ),
        respond(registry, Request::Disable(name)) == (
            switch_answer(registry, name, false),
            after_switch(registry, name, false),
        ),
{
}

/// Without a registry there is one answer to everything but a call without a name, which is
/// answered with how to call, registry or not.
pub proof fn no_registry_is_an_error(registry: Option<RegistryView>, name: Seq<char>)
    ensures
        ({
            let error = ((true, "Plugin registry not initialized."@), None::<RegistryView>);
            &&& respond(None, Request::List) == error
            &&& respond(None, Request::Info(name)) == error
            &&& respond(None, Request::Enable(name)) == error
            &&& respond(None, Request::Disable(name)) == error
        }),
        respond(registry, Request::Usage(name)) == ((true, name), registry),
{
}

/// `/plugin` alone, or with a word that begins with `list`, asks for the list.
pub proof fn list_is_asked_for(rest: Seq<char>)
    ensures
        list_request(None) == Request::List,
        list_request(Some("list"@ + rest)) == Request::List,
{
    assert(("list"@ + rest).subrange(0, "list"@.len() as int) =~= "list"@);
}

/// `/plugin enable` and `/plugin disable` with a space behind them ask for what they say
/// with the name that follows, blanks round it or not.
pub proof fn switches_are_asked_for(left: Seq<char>, name: Seq<char>, right: Seq<char>)
    requires
        blank(left),
        blank(right),
        name.len() > 0 ==> !is_white_space(name.first()) && !is_white_space(name.last()),
    ensures
        list_request(Some("enable "@ + (left + name + right))) == Request::Enable(name),
        list_request(Some("disable "@ + (left + name + right))) == Request::Disable(name),
{
    trimming_leaves_what_is_between_the_blanks(left, name, right);
    let arg = left + name + right;
    reveal_strlit("list");
    reveal_strlit("enable ");
    reveal_strlit("disable ");
    let e = "enable "@ + arg;
    let d = "disable "@ + arg;
    lemma_prefix("list"@, e);
    lemma_prefix("list"@, d);
    lemma_prefix("enable "@, d);
    assert(e[0] == 'e' && d[0] == 'd' && "list"@[0] == 'l' && "enable "@[0] == 'e');
    assert(e.subrange(0, 7) =~= "enable "@);
    assert(d.subrange(0, 8) =~= "disable "@);
    assert(e.skip(7) =~= arg);
    assert(d.skip(8) =~= arg);
}

/// Whatever else follows `/plugin` is the name of a plugin to show, blanks round it or not.
pub proof fn everything_else_is_a_name(left: Seq<char>, name: Seq<char>, right: Seq<char>)
    requires
        blank(left),
        blank(right),
        name.len() > 0 ==> !is_white_space(name.first()) && !is_white_space(name.last()),
        !"list"@.is_prefix_of(left + name + right),
        !"enable "@.is_prefix_of(left + name + right),
        !"disable "@.is_prefix_of(left + name + right),
    ensures
        list_request(Some(left + name + right)) == Request::Info(name),
{
    trimming_leaves_what_is_between_the_blanks(left, name, right);
}

/// The commands that take a name ask for what they say with that name, blanks round it or
/// not.
pub proof fn names_are_taken_without_blanks(left: Seq<char>, name: Seq<char>, right: Seq<char>)
    requires
        blank(left),
        blank(right),
        name.len() > 0,
        !is_white_space(name.first()),
        !is_white_space(name.last()),
    ensures
        enable_request(Some(left + name + right)) == Request::Enable(name),
        disable_request(Some(left + name + right)) == Request::Disable(name),
        info_request(Some(left + name + right)) == Request::Info(name),
{
    trimming_leaves_what_is_between_the_blanks(left, name, right);
}

/// Called without a name, or with blanks only, they answer with how they are called.
pub proof fn missing_names_are_told(arg: Option<Seq<char>>)
    requires
        arg matches Some(a) ==> blank(a),
    ensures
        enable_request(arg) == Request::Usage("Usage: /plugin enable <name>"@),
        disable_request(arg) == Request::Usage("Usage: /plugin disable <name>"@),
        info_request(arg) == Request::Usage("Usage: /plugin info <name>"@),
{
    if arg is Some {
        let none = Seq::<char>::empty();
        trimming_leaves_what_is_between_the_blanks(arg->0, none, none);
        assert(arg->0 + none + none =~= arg->0);
    }
}

/// Each command of the group asks for what its name says.
pub proof fn actions_ask_for_what_they_are_called(arg: Option<Seq<char>>)
    ensures
        action_request(PluginAction::List, arg) == list_request(arg),
        action_request(PluginAction::Enable, arg) == enable_request(arg),
        action_request(PluginAction::Disable, arg) == disable_request(arg),
        action_request(PluginAction::Info, arg) == info_request(arg),
{
}

/// What a command is described by is its name, its aliases in order, its usage and the text
/// that all plugin commands share.
pub proof fn descriptions_are_whole(
    info: CommandInfo,
    name: Seq<char>,
    aliases: Seq<Seq<char>>,
    usage: Seq<char>,
)
    requires
        describes(info, name, aliases, usage),
    ensures
        info.name@ == name,
        info.usage@ == usage,
        info.description_id == MessageId::CmdPluginDescription,
        info.aliases@.len() == aliases.len(),
        forall|i: int| 0 <= i < aliases.len() ==> #[trigger] info.aliases@[i]@ == aliases[i],
{
    let shown = info.aliases@.map_values(|a: &'static str| a@);
    assert forall|i: int| 0 <= i < aliases.len() implies #[trigger] info.aliases@[i]@
        == aliases[i] by {
        assert(shown[i] == info.aliases@[i]@);
    }
}

/// An answer shows whether it is an error, and its text; an app shows its registry, if there
/// is one, and is well formed as that is; an argument shows its text.
pub proof fn answers_and_apps_are_shown_whole(
    result: CommandResult,
    app: App,
    arg: Option<&str>,
)
    ensures
        result@.0 == result.is_error,
        result@.1 == result.text@,
        app.plugins matches Some(r) ==> app.registry() == Some(r@) && app.wf() == distinct(r@),
        app.plugins is None ==> app.registry() is None && app.wf(),
        arg matches Some(a) ==> arg_view(arg) == Some(a@),
        arg is None ==> arg_view(arg) is None,
{
}

} // verus!
