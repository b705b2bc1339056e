//! The configuration of the launcher: its window settings and the settings of
//! each plugin, the table of settings handed to the plugins, and what a
//! failed read of the configuration file reports.

use vstd::prelude::*;

use crate::store::StrMap;
use vstd::string::StringExecFns;

verus! {

/// The settings of the launcher window, the `[yaal]` table of the
/// configuration file.
pub struct YaalConfig {
    pub height: u32,
    pub width: u32,
    pub maximized: bool,
    pub resizable: bool,
    pub fullscreened: bool,
    pub custom_css: Option<String>,
}

/// The settings of one plugin, a `[[plugins]]` table of the configuration
/// file: its name, the query prefix it answers to, and every other key of the
/// table with its value.
pub struct PluginConfig {
    pub name: String,
    pub prefix: String,
    pub extra: StrMap<String>,
}

/// The whole configuration file.
pub struct Config {
    pub yaal: YaalConfig,
    pub plugins: Option<Vec<PluginConfig>>,
}

/// The settings handed to the plugin named `p.name`: its extra keys, and the
/// key `prefix` set to its prefix.
pub open spec fn plugin_pairs(p: PluginConfig) -> Map<Seq<char>, Seq<char>> {
    p.extra@.insert("prefix"@, p.prefix@)
}

/// The table of settings that a list of plugin configurations gives: each
/// plugin in order enters its name with its settings, so of two plugins with
/// one name the later one wins.
pub open spec fn plugin_settings(ps: Seq<PluginConfig>) -> Map<Seq<char>, Map<Seq<char>, Seq<char>>>
    decreases ps.len(),
{
    if ps.len() == 0 {
        Map::empty()
    } else {
        plugin_settings(ps.drop_last()).insert(ps.last().name@, plugin_pairs(ps.last()))
    }
}

/// The table of plugin settings of a configuration; empty when it names no
/// plugins.
pub open spec fn config_settings(c: Config) -> Map<Seq<char>, Map<Seq<char>, Seq<char>>> {
    match c.plugins {
        Some(ps) => plugin_settings(ps@),
        None => Map::empty(),
    }
}

/// The table of settings of every configured plugin, keyed by plugin name.
pub fn get_config_hashmap(config: Config) -> (r: StrMap<StrMap<String>>)
    ensures
        r@ == config_settings(config),
{
    let mut table: StrMap<StrMap<String>> = StrMap::new();
    match config.plugins {
        None => {},
        Some(plugins) => {
            let ghost ps = plugins@;
            let total = plugins.len();
            let mut rest = plugins;
            let mut done: usize = 0;
            while rest.len() > 0
                invariant
                    total == ps.len(),
                    done + rest@.len() == ps.len(),
                    rest@ == ps.subrange(done as int, ps.len() as int),
                    table@ == plugin_settings(ps.subrange(0, done as int)),
                decreases rest@.len(),
            {
                let plugin = rest.remove(0);
                let mut pairs = plugin.extra;
                pairs.insert("prefix".to_owned(), plugin.prefix);
                table.insert(plugin.name, pairs);
                proof {
                    assert(ps.subrange(0, done + 1).drop_last() =~= ps.subrange(0, done as int));
                    assert(ps.subrange(0, done + 1).last() == ps[done as int]);
                }
                done = done + 1;
                assert(rest@ =~= ps.subrange(done as int, ps.len() as int));
            }
            assert(ps.subrange(0, done as int) =~= ps);
        },
    }
    table
}

/// The configuration that a fresh installation starts with.
pub fn default_config() -> (c: Config)
    ensures
        c.yaal.height == 300,
        c.yaal.width == 400,
        !c.yaal.maximized,
        !c.yaal.resizable,
        !c.yaal.fullscreened,
        c.yaal.custom_css is None,
        c.plugins matches Some(ps) && ps@.len() == 0,
{
    Config {
        yaal: YaalConfig {
            height: 300,
            width: 400,
            maximized: false,
            resizable: false,
            fullscreened: false,
            custom_css: None,
        },
        plugins: Some(Vec::new()),
    }
}

/// The table of settings has exactly the configured plugin names as keys.
/// Under each name stand the settings of the last plugin with that name:
/// its prefix under the key `prefix`, and each of its other keys, except a
/// key `prefix`, with its value.
pub proof fn lemma_plugin_settings(ps: Seq<PluginConfig>, i: int)
    requires
        0 <= i < ps.len(),
        forall|j: int| i < j < ps.len() ==> #[trigger] ps[j].name@ != ps[i].name@,
    ensures
        forall|k: Seq<char>|
            #[trigger] plugin_settings(ps).contains_key(k) <==> exists|j: int| 0 <= j < ps.len() && ps[j].name@ == k,
        plugin_settings(ps)[ps[i].name@] == plugin_pairs(ps[i]),
        plugin_settings(ps)[ps[i].name@]["prefix"@] == ps[i].prefix@,
        forall|k: Seq<char>|
            k != "prefix"@ && #[trigger] ps[i].extra@.contains_key(k) ==> plugin_settings(ps)[ps[i].name@].contains_key(k)
                && plugin_settings(ps)[ps[i].name@][k] == ps[i].extra@[k],
    decreases ps.len(),
{
    lemma_settings_dom(ps);
    if i < ps.len() - 1 {
        let t = ps.drop_last();
        assert forall|j: int| i < j < t.len() implies #[trigger] t[j].name@ != t[i].name@ by {
            assert(t[j] == ps[j] && t[i] == ps[i]);
        }
        lemma_plugin_settings(t, i);
        assert(ps[ps.len() - 1].name@ != ps[i].name@);
        assert(t[i] == ps[i]);
    }
}

/// The keys of the table of settings are the configured plugin names.
pub proof fn lemma_settings_dom(ps: Seq<PluginConfig>)
    ensures
        forall|k: Seq<char>|
            #[trigger] plugin_settings(ps).contains_key(k) <==> exists|j: int| 0 <= j < ps.len() && ps[j].name@ == k,
    decreases ps.len(),
{
    if ps.len() > 0 {
        let t = ps.drop_last();
        lemma_settings_dom(t);
        assert forall|k: Seq<char>|
            #[trigger] plugin_settings(ps).contains_key(k) <==> exists|j: int| 0 <= j < ps.len() && ps[j].name@ == k by {
            assert(plugin_settings(ps) == plugin_settings(t).insert(ps.last().name@, plugin_pairs(ps.last())));
            if plugin_settings(ps).contains_key(k) && k != ps.last().name@ {
                assert(plugin_settings(t).contains_key(k));
                let j = choose|j: int| 0 <= j < t.len() && t[j].name@ == k;
                assert(ps[j] == t[j]);
            }
            if plugin_settings(ps).contains_key(k) && k == ps.last().name@ {
                assert(ps[ps.len() - 1].name@ == k);
            }
            if exists|j: int| 0 <= j < ps.len() && ps[j].name@ == k {
                let j = choose|j: int| 0 <= j < ps.len() && ps[j].name@ == k;
                if j < ps.len() - 1 {
                    assert(t[j] == ps[j]);
                    assert(plugin_settings(t).contains_key(k));
                }
            }
        }
    }
}

/// What reading and parsing the configuration file gave.
pub enum ConfigFile {
    /// The file was read and parsed.
    Parsed(Config),
    /// The file could not be read, for the given reason.
    Unreadable(String),
    /// The file was read but is not a valid configuration, for the given
    /// reason.
    Malformed(String),
}

/// Why the configuration could not be loaded.
pub enum ConfigError {
    /// The file at hand could not be read.
    Unreadable { reason: String },
    /// The file at `path` is not a valid configuration.
    Malformed { path: String, reason: String },
}

/// The text reported for a configuration error.
pub open spec fn error_text(e: ConfigError) -> Seq<char> {
    match e {
        ConfigError::Unreadable { reason } => "Could not load config file: "@ + reason@,
        ConfigError::Malformed { path, reason } => "Could not parse config file: "@ + path@ + " - Error: "@
            + reason@,
    }
}

impl ConfigError {
    /// The message reported before the launcher gives up.
    pub fn message(&self) -> (m: String)
        ensures
            m@ == error_text(*self),
    {
        match self {
            ConfigError::Unreadable { reason } => {
                let mut m = "Could not load config file: ".to_owned();
                m.append(reason.as_str());
                m
            },
            ConfigError::Malformed { path, reason } => {
                let mut m = "Could not parse config file: ".to_owned();
                m.append(path.as_str());
                m.append(" - Error: ");
                m.append(reason.as_str());
                m
            },
        }
    }
}

/// The configuration stored at `path`, given what reading and parsing that
/// file gave: the parsed configuration, or the error that stops the
/// launcher.
pub fn get_config(path: &str, file: ConfigFile) -> (r: Result<Config, ConfigError>)
    ensures
        match file {
            ConfigFile::Parsed(c) => r == Ok::<Config, ConfigError>(c),
            ConfigFile::Unreadable(reason) => r == Err::<Config, ConfigError>(
                ConfigError::Unreadable { reason },
            ),
            ConfigFile::Malformed(reason) => r matches Err(ConfigError::Malformed { path: p, reason: why })
                && p@ == path@ && why == reason,
        },
{
    match file {
        ConfigFile::Parsed(c) => Ok(c),
        ConfigFile::Unreadable(reason) => Err(ConfigError::Unreadable { reason }),
        ConfigFile::Malformed(reason) => Err(ConfigError::Malformed { path: path.to_owned(), reason }),
    }
}

/// How the launcher window is set up.
pub struct WindowSettings {
    pub title: String,
    pub maximized: bool,
    pub fullscreened: bool,
    pub default_height: i32,
    pub default_width: i32,
    pub decorated: bool,
    pub resizable: bool,
}

/// The window settings of a configuration: a maximized window without
/// decorations titled `Yaal`, fullscreen and resizable as configured, whose
/// default size is the configured size read as signed numbers.
pub fn window_settings(yaal: &YaalConfig) -> (w: WindowSettings)
    ensures
        w.title@ == "Yaal"@,
        w.maximized,
        w.fullscreened == yaal.fullscreened,
        w.default_height == yaal.height as i32,
        w.default_width == yaal.width as i32,
        !w.decorated,
        w.resizable == yaal.resizable,
{
    WindowSettings {
        title: "Yaal".to_owned(),
        maximized: true,
        fullscreened: yaal.fullscreened,
        default_height: yaal.height as i32,
        default_width: yaal.width as i32,
        decorated: false,
        resizable: yaal.resizable,
    }
}

} // verus!
