//! The plugins that were discovered, by name.
use crate::text::same_text;
use vstd::prelude::*;

verus! {

/// What a plugin says of itself.
#[derive(Debug)]
pub struct PluginMeta {
    pub name: String,
    pub description: Option<String>,
    pub version: Option<String>,
    pub author: Option<String>,
}

/// Where a plugin keeps its skills.
#[derive(Debug)]
pub struct SkillsSection {
    pub path: Option<String>,
}

/// How a server that a plugin brings is started.
#[derive(Debug)]
pub struct McpServer {
    pub command: String,
    pub args: Option<Vec<String>>,
    pub env: Option<Vec<(String, String)>>,
    pub cwd: Option<String>,
    pub sandbox: Option<bool>,
}

/// A plugin's manifest.
#[derive(Debug)]
pub struct PluginManifest {
    pub plugin: PluginMeta,
    pub skills: Option<SkillsSection>,
    /// The servers by name, in the order in which they are shown.
    pub mcp_servers: Option<Vec<(String, McpServer)>>,
}

/// A plugin that was loaded from `base_path`.
#[derive(Debug)]
pub struct Plugin {
    pub manifest: PluginManifest,
    pub enabled: bool,
    pub base_path: String,
}

/// A registry's plugins under their names, in the order in which they are listed.
pub type RegistryView = Seq<(Seq<char>, Plugin)>;

/// The discovered plugins; every name stands once.
#[derive(Debug)]
pub struct PluginRegistry {
    entries: Vec<(String, Plugin)>,
}

/// Where the first plugin called `name` stands, from `i` on.
pub open spec fn index_of(s: RegistryView, name: Seq<char>, i: int) -> Option<int>
    decreases s.len() - i,
{
    if i < 0 || i >= s.len() {
        None
    } else if s[i].0 == name {
        Some(i)
    } else {
        index_of(s, name, i + 1)
    }
}

/// The plugin called `name`.
pub open spec fn lookup(s: RegistryView, name: Seq<char>) -> Option<Plugin> {
    match index_of(s, name, 0) {
        Some(i) => Some(s[i].1),
        None => None,
    }
}

/// Whether there is a plugin called `name` that is enabled.
pub open spec fn enabled_in(s: RegistryView, name: Seq<char>) -> bool {
    lookup(s, name) is Some && lookup(s, name)->0.enabled
}

/// The registry with the plugin called `name` switched on or off; the same registry
/// where there is none.
pub open spec fn switched(s: RegistryView, name: Seq<char>, on: bool) -> RegistryView {
    match index_of(s, name, 0) {
        Some(i) => s.update(i, (s[i].0, Plugin { enabled: on, ..s[i].1 })),
        None => s,
    }
}

/// The registry with `plugin` under `name`, in the place of one that had that name.
pub open spec fn inserted(s: RegistryView, name: Seq<char>, plugin: Plugin) -> RegistryView {
    match index_of(s, name, 0) {
        Some(i) => s.update(i, (s[i].0, plugin)),
        None => s.push((name, plugin)),
    }
}

/// How many of the first `n` plugins are enabled.
pub open spec fn enabled_count(s: RegistryView, n: nat) -> nat
    decreases n,
{
    if n == 0 {
        0
    } else {
        enabled_count(s, (n - 1) as nat) + (if s[n - 1].1.enabled {
            1nat
        } else {
            0nat
        })
    }
}

/// Whether every name stands once.
pub open spec fn distinct(s: RegistryView) -> bool {
    forall|i: int, j: int| 0 <= i < j < s.len() ==> (#[trigger] s[i]).0 != (#[trigger] s[j]).0
}

/// What [`index_of`] finds is the first place with that name, or there is none.
pub proof fn lemma_index_of(s: RegistryView, name: Seq<char>, i: int)
    requires
        0 <= i,
    ensures
        match index_of(s, name, i) {
            Some(k) => i <= k < s.len() && s[k].0 == name && forall|j: int|
                i <= j < k ==> (#[trigger] s[j]).0 != name,
            None => forall|j: int| i <= j < s.len() ==> (#[trigger] s[j]).0 != name,
        },
    decreases s.len() - i,
{
    if i < s.len() && s[i].0 != name {
        lemma_index_of(s, name, i + 1);
    }
}

impl View for PluginRegistry {
    type V = RegistryView;

    closed spec fn view(&self) -> RegistryView {
        self.entries@.map_values(|e: (String, Plugin)| (e.0@, e.1))
    }
}

impl PluginRegistry {
    /// Whether every name stands once. The constructors and methods keep it so.
    pub open spec fn wf(self) -> bool {
        distinct(self@)
    }

    /// A registry without plugins.
    pub fn new() -> (r: PluginRegistry)
        ensures
            r@ == RegistryView::empty(),
            r.wf(),
    {
        let r = PluginRegistry { entries: Vec::new() };
        assert(r@ =~= RegistryView::empty());
        r
    }

    /// Where the plugin called `name` stands.
    fn position(&self, name: &str) -> (r: Option<usize>)
        ensures
            match r {
                Some(i) => index_of(self@, name@, 0) == Some(i as int) && i < self.entries@.len(),
                None => index_of(self@, name@, 0) is None,
            },
    {
        for i in 0..self.entries.len()
            invariant
                index_of(self@, name@, 0) == index_of(self@, name@, i as int),
        {
            assert(self@[i as int].0 == self.entries@[i as int].0@);
            if same_text(self.entries[i].0.as_str(), name) {
                return Some(i);
            }
        }
        None
    }

    /// Puts `plugin` under `name`, in the place of one that had that name.
    pub fn insert(&mut self, name: String, plugin: Plugin)
        ensures
            final(self)@ == inserted(old(self)@, name@, plugin),
            old(self).wf() ==> final(self).wf(),
    {
        proof {
            lemma_index_of(self@, name@, 0);
        }
        match self.position(name.as_str()) {
            Some(i) => {
                self.entries[i].1 = plugin;
            },
            None => {
                self.entries.push((name, plugin));
            },
        }
        assert(self@ =~= inserted(old(self)@, name@, plugin));
    }

    /// Switches the plugin called `name`; whether there is one.
    fn switch(&mut self, name: &str, on: bool) -> (r: bool)
        ensures
            r == (index_of(old(self)@, name@, 0) is Some),
            final(self)@ == switched(old(self)@, name@, on),
            old(self).wf() ==> final(self).wf(),
    {
        proof {
            lemma_index_of(self@, name@, 0);
        }
        match self.position(name) {
            Some(i) => {
                self.entries[i].1.enabled = on;
                assert(self@ =~= switched(old(self)@, name@, on));
                true
            },
            None => false,
        }
    }

    /// Enables the plugin called `name`; whether there is one.
    pub fn enable(&mut self, name: &str) -> (r: bool)
        ensures
            r == (lookup(old(self)@, name@) is Some),
            final(self)@ == switched(old(self)@, name@, true),
            old(self).wf() ==> final(self).wf(),
    {
        self.switch(name, true)
    }

    /// Disables the plugin called `name`; whether there is one.
    pub fn disable(&mut self, name: &str) -> (r: bool)
        ensures
            r == (lookup(old(self)@, name@) is Some),
            final(self)@ == switched(old(self)@, name@, false),
            old(self).wf() ==> final(self).wf(),
    {
        self.switch(name, false)
    }

    /// The plugin called `name`.
    pub fn get(&self, name: &str) -> (r: Option<&Plugin>)
        ensures
            match r {
                Some(p) => lookup(self@, name@) == Some(*p),
                None => lookup(self@, name@) is None,
            },
    {
        match self.position(name) {
            Some(i) => Some(&self.entries[i].1),
            None => None,
        }
    }

    /// Whether there is a plugin called `name` that is enabled.
    pub fn is_enabled(&self, name: &str) -> (r: bool)
        ensures
            r == enabled_in(self@, name@),
    {
        match self.get(name) {
            Some(p) => p.enabled,
            None => false,
        }
    }

    /// How many plugins there are.
    pub fn len(&self) -> (r: usize)
        ensures
            r == self@.len(),
    {
        self.entries.len()
    }

    /// Whether there are no plugins.
    pub fn is_empty(&self) -> (r: bool)
        ensures
            r == (self@.len() == 0),
    {
        self.entries.len() == 0
    }

    /// How many plugins are enabled.
    pub fn enabled_len(&self) -> (r: usize)
        ensures
            r == enabled_count(self@, self@.len()),
    {
        let mut n: usize = 0;
        for i in 0..self.entries.len()
            invariant
                n == enabled_count(self@, i as nat),
                n <= i,
        {
            assert(self@[i as int].1 == self.entries@[i as int].1);
            if self.entries[i].1.enabled {
                n = n + 1;
            }
        }
        n
    }

    /// The plugins under their names, in order.
    pub fn list(&self) -> (r: &Vec<(String, Plugin)>)
        ensures
            r@.map_values(|e: (String, Plugin)| (e.0@, e.1)) == self@,
    {
        &self.entries
    }
}

} // verus!
