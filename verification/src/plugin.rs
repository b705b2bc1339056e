//! What the launcher knows of a loaded plugin and of the entries that it
//! answers a query with.

use vstd::prelude::*;

verus! {

/// The description that a plugin publishes about itself.
pub struct PluginInfo {
    pub name: String,
    pub version: String,
    pub description: String,
    pub author: String,
    /// The first word of a query that addresses this plugin; empty for a
    /// plugin that answers every query.
    pub default_prefix: String,
    pub default_config: String,
}

/// One answer of a plugin to a query.
pub struct Entry {
    pub name: String,
    pub description: String,
    /// What the plugin is handed back when the entry is chosen.
    pub value: String,
    pub icon: Option<String>,
    pub emoji: Option<String>,
}

/// A loaded plugin: its description, and the place of its entry points in
/// the table of loaded libraries that calls them.
pub struct Plugin {
    pub info: PluginInfo,
    pub slot: usize,
}

/// An entry together with the plugin that produced it.
pub struct IndexedEntry {
    pub entry: Entry,
    pub plugin: Plugin,
}

fn copy_text(s: &Option<String>) -> (r: Option<String>)
    ensures
        r == *s,
{
    match s {
        Some(t) => Some(t.clone()),
        None => None,
    }
}

impl Clone for PluginInfo {
    fn clone(&self) -> (r: Self)
        ensures
            r == *self,
    {
        PluginInfo {
            name: self.name.clone(),
            version: self.version.clone(),
            description: self.description.clone(),
            author: self.author.clone(),
            default_prefix: self.default_prefix.clone(),
            default_config: self.default_config.clone(),
        }
    }
}

impl Clone for Entry {
    fn clone(&self) -> (r: Self)
        ensures
            r == *self,
    {
        Entry {
            name: self.name.clone(),
            description: self.description.clone(),
            value: self.value.clone(),
            icon: copy_text(&self.icon),
            emoji: copy_text(&self.emoji),
        }
    }
}

impl Clone for Plugin {
    fn clone(&self) -> (r: Self)
        ensures
            r == *self,
    {
        Plugin { info: self.info.clone(), slot: self.slot }
    }
}

impl Clone for IndexedEntry {
    fn clone(&self) -> (r: Self)
        ensures
            r == *self,
    {
        IndexedEntry { entry: self.entry.clone(), plugin: self.plugin.clone() }
    }
}

} // verus!
