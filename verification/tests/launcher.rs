use yaal::config::{
    default_config, get_config, get_config_hashmap, window_settings, Config, ConfigError, ConfigFile,
    PluginConfig, YaalConfig,
};
use yaal::entries;
use yaal::keys::{input_key_response, list_key_response, InputKeyResponse, Key, KeyPress};
use yaal::listing::{entry_matches, visible_entries, MAX_VISIBLE_ROWS};
use yaal::loader::{init_config_payload, is_plugin_file};
use yaal::plugin::{Entry, IndexedEntry, Plugin, PluginInfo};
use yaal::routing;
use yaal::store::StrMap;
use yaal::text::{contains, same_text, split_query, starts_with};

fn info(name: &str, prefix: &str) -> PluginInfo {
    PluginInfo {
        name: name.to_string(),
        version: "1.0".to_string(),
        description: String::new(),
        author: String::new(),
        default_prefix: prefix.to_string(),
        default_config: String::new(),
    }
}

fn plugin(name: &str, prefix: &str, slot: usize) -> Plugin {
    Plugin { info: info(name, prefix), slot }
}

fn entry(name: &str) -> Entry {
    Entry {
        name: name.to_string(),
        description: String::new(),
        value: format!("run {}", name),
        icon: None,
        emoji: None,
    }
}

fn names(v: &[IndexedEntry]) -> Vec<String> {
    v.iter().map(|e| e.entry.name.clone()).collect()
}

fn plugin_config(name: &str, prefix: &str, extra: &[(&str, &str)]) -> PluginConfig {
    let mut m = StrMap::new();
    for (k, v) in extra {
        m.insert(k.to_string(), v.to_string());
    }
    PluginConfig { name: name.to_string(), prefix: prefix.to_string(), extra: m }
}

fn yaal_config() -> YaalConfig {
    YaalConfig {
        height: 200,
        width: 300,
        maximized: false,
        resizable: true,
        fullscreened: false,
        custom_css: None,
    }
}

#[test]
fn split_query_at_first_space() {
    assert_eq!(split_query("files my doc"), ("files".to_string(), "my doc".to_string()));
    assert_eq!(split_query("single"), ("single".to_string(), String::new()));
    assert_eq!(split_query(""), (String::new(), String::new()));
    assert_eq!(split_query("a  b"), ("a".to_string(), " b".to_string()));
    assert_eq!(split_query(" lead"), (String::new(), "lead".to_string()));
}

#[test]
fn split_query_keeps_unicode() {
    assert_eq!(split_query("épée ça va"), ("épée".to_string(), "ça va".to_string()));
}

#[test]
fn text_tests() {
    assert!(contains("firefox", "ref"));
    assert!(contains("firefox", ""));
    assert!(!contains("fire", "firefox"));
    assert!(starts_with("firefox", "fire"));
    assert!(!starts_with("firefox", "fox"));
    assert!(same_text("abc", "abc"));
    assert!(!same_text("abc", "abd"));
    assert!(!same_text("abc", "ab"));
}

#[test]
fn map_insert_get_and_overwrite() {
    let mut m: StrMap<String> = StrMap::new();
    assert_eq!(m.len(), 0);
    m.insert("a".to_string(), "1".to_string());
    m.insert("b".to_string(), "2".to_string());
    assert_eq!(m.get("a"), Some(&"1".to_string()));
    m.insert("a".to_string(), "3".to_string());
    assert_eq!(m.get("a"), Some(&"3".to_string()));
    assert_eq!(m.get("c"), None);
    assert_eq!(m.len(), 2);
    assert!(m.contains_key("b"));
    assert!(!m.contains_key("B"));
    let keys: Vec<&str> = m.pairs().iter().map(|p| p.0.as_str()).collect();
    assert_eq!(keys, vec!["a", "b"]);
}

#[test]
fn config_table_holds_prefix_and_extra_keys() {
    let config = Config {
        yaal: yaal_config(),
        plugins: Some(vec![
            plugin_config("apps", "a", &[("terminal", "kitty")]),
            plugin_config("web", "w", &[("engine", "ddg"), ("prefix", "ignored")]),
        ]),
    };
    let table = get_config_hashmap(config);
    assert_eq!(table.len(), 2);
    let apps = table.get("apps").unwrap();
    assert_eq!(apps.get("prefix"), Some(&"a".to_string()));
    assert_eq!(apps.get("terminal"), Some(&"kitty".to_string()));
    assert_eq!(apps.len(), 2);
    let web = table.get("web").unwrap();
    assert_eq!(web.get("prefix"), Some(&"w".to_string()));
    assert_eq!(web.get("engine"), Some(&"ddg".to_string()));
}

#[test]
fn config_table_later_plugin_wins() {
    let config = Config {
        yaal: yaal_config(),
        plugins: Some(vec![
            plugin_config("apps", "a", &[("terminal", "kitty")]),
            plugin_config("apps", "b", &[]),
        ]),
    };
    let table = get_config_hashmap(config);
    assert_eq!(table.len(), 1);
    let apps = table.get("apps").unwrap();
    assert_eq!(apps.get("prefix"), Some(&"b".to_string()));
    assert_eq!(apps.get("terminal"), None);
}

#[test]
fn config_table_empty_without_plugins() {
    let config = Config { yaal: yaal_config(), plugins: None };
    assert_eq!(get_config_hashmap(config).len(), 0);
    assert_eq!(get_config_hashmap(default_config()).len(), 0);
}

#[test]
fn payload_is_json_of_settings() {
    let config = Config {
        yaal: yaal_config(),
        plugins: Some(vec![plugin_config("apps", "a", &[("terminal", "kitty"), ("quote", "say \"hi\"")])]),
    };
    let table = get_config_hashmap(config);
    assert_eq!(
        init_config_payload(&table, "apps"),
        "{\"prefix\":\"a\",\"quote\":\"say \\\"hi\\\"\",\"terminal\":\"kitty\"}"
    );
    assert_eq!(init_config_payload(&table, "other"), "{}");
}

#[test]
fn default_configuration() {
    let c = default_config();
    assert_eq!(c.yaal.height, 300);
    assert_eq!(c.yaal.width, 400);
    assert!(!c.yaal.maximized && !c.yaal.resizable && !c.yaal.fullscreened);
    assert!(c.yaal.custom_css.is_none());
    assert_eq!(c.plugins.map(|p| p.len()), Some(0));
}

#[test]
fn get_config_passes_a_parsed_file() {
    let r = get_config("/tmp/config.toml", ConfigFile::Parsed(default_config()));
    assert_eq!(r.ok().map(|c| c.yaal.width), Some(400));
}

#[test]
fn get_config_unreadable_file() {
    let r = get_config("/tmp/config.toml", ConfigFile::Unreadable("No such file".to_string()));
    match r {
        Err(e) => {
            assert!(matches!(e, ConfigError::Unreadable { .. }));
            assert_eq!(e.message(), "Could not load config file: No such file");
        },
        Ok(_) => panic!("expected an error"),
    }
}

#[test]
fn get_config_malformed_file() {
    let r = get_config("/home/u/.config/yaal/config.toml", ConfigFile::Malformed("missing field `yaal`".to_string()));
    match r {
        Err(e) => {
            assert!(matches!(e, ConfigError::Malformed { .. }));
            assert_eq!(
                e.message(),
                "Could not parse config file: /home/u/.config/yaal/config.toml - Error: missing field `yaal`"
            );
        },
        Ok(_) => panic!("expected an error"),
    }
}

#[test]
fn window_settings_follow_configuration() {
    let w = window_settings(&yaal_config());
    assert_eq!(w.title, "Yaal");
    assert!(w.maximized);
    assert!(!w.decorated);
    assert!(w.resizable);
    assert!(!w.fullscreened);
    assert_eq!(w.default_height, 200);
    assert_eq!(w.default_width, 300);
    let mut big = yaal_config();
    big.height = 3_000_000_000;
    big.fullscreened = true;
    let w = window_settings(&big);
    assert_eq!(w.default_height, -1_294_967_296);
    assert!(w.fullscreened);
}

#[test]
fn plugin_files_have_so_extension() {
    assert!(is_plugin_file("libapps.so"));
    assert!(is_plugin_file("a.so"));
    assert!(is_plugin_file("..so"));
    assert!(!is_plugin_file(".so"));
    assert!(!is_plugin_file("libapps.so.1"));
    assert!(!is_plugin_file("libapps.SO"));
    assert!(!is_plugin_file("readme"));
}

#[test]
fn requests_go_to_answering_plugins() {
    let plugins = vec![plugin("apps", "", 0), plugin("files", "f", 1), plugin("web", "w", 2)];
    let r = entries::entry_requests(&plugins, "f notes");
    assert_eq!(r, vec![Some("notes".to_string()), Some("notes".to_string()), None]);
    let r = entries::entry_requests(&plugins, "fire");
    assert_eq!(r, vec![Some("fire".to_string()), None, None]);
}

#[test]
fn query_keeps_names_containing_search_text() {
    let plugins = vec![plugin("apps", "", 0), plugin("files", "f", 1), plugin("web", "w", 2)];
    let responses = vec![
        vec![entry("notes app"), entry("browser")],
        vec![entry("my notes.txt"), entry("todo.txt")],
        vec![entry("notes online")],
    ];
    let r = entries::query_entries(plugins, "f notes".to_string(), responses);
    assert_eq!(names(&r), vec!["notes app", "my notes.txt"]);
    assert_eq!(r[0].plugin.slot, 0);
    assert_eq!(r[1].plugin.slot, 1);
    assert_eq!(r[1].entry.value, "run my notes.txt");
}

#[test]
fn query_with_one_word_searches_that_word() {
    let plugins = vec![plugin("apps", "", 0), plugin("files", "f", 1)];
    let responses = vec![vec![entry("firefox"), entry("files")], vec![entry("f1")]];
    let r = entries::query_entries(plugins, "fi".to_string(), responses);
    assert_eq!(names(&r), vec!["firefox", "files"]);
}

#[test]
fn routed_requests_and_results() {
    let plugins = vec![plugin("apps", "", 0), plugin("calc", "=", 1), plugin("web", "w", 2)];
    let req = routing::entry_requests(&plugins, "=1+2 x");
    assert_eq!(req, vec![Some("=1+2 x".to_string()), Some("=1+2 x".to_string()), None]);
    let responses = vec![vec![entry("calculator")], vec![entry("3")], vec![entry("web")]];
    let r = routing::query_entries(plugins, "=1+2 x".to_string(), responses);
    assert_eq!(names(&r), vec!["calculator", "3"]);
    assert_eq!(r[1].plugin.info.name, "calc");
}

#[test]
fn row_matching_rules() {
    assert!(entry_matches("", "w", "anything"));
    assert!(entry_matches("fox", "", "firefox"));
    assert!(!entry_matches("fox", "", "chrome"));
    assert!(entry_matches("w", "web", "search"));
    assert!(!entry_matches("x", "web", "search"));
    assert!(entry_matches("web sea", "web", "search"));
    assert!(!entry_matches("we sea", "web", "search"));
    assert!(!entry_matches("web arch", "web", "search"));
}

#[test]
fn visible_entries_ignore_case() {
    let list = vec![
        IndexedEntry { entry: entry("FireFox"), plugin: plugin("apps", "", 0) },
        IndexedEntry { entry: entry("Chrome"), plugin: plugin("apps", "", 0) },
        IndexedEntry { entry: entry("Search"), plugin: plugin("web", "Web", 1) },
    ];
    assert_eq!(visible_entries(&list, "FOX"), vec![0]);
    assert_eq!(visible_entries(&list, "we"), vec![2]);
    assert_eq!(visible_entries(&list, "WEB SE"), vec![2]);
    assert_eq!(visible_entries(&list, ""), vec![0, 1, 2]);
}

#[test]
fn visible_entries_are_capped() {
    let list: Vec<IndexedEntry> = (0..20)
        .map(|i| IndexedEntry { entry: entry(&format!("item {}", i)), plugin: plugin("apps", "", 0) })
        .collect();
    let shown = visible_entries(&list, "item");
    assert_eq!(shown.len(), MAX_VISIBLE_ROWS);
    assert_eq!(shown, (0..12).collect::<Vec<usize>>());
    assert_eq!(visible_entries(&list, "item 1"), vec![1, 10, 11, 12, 13, 14, 15, 16, 17, 18, 19]);
}

#[test]
fn list_keys_navigate_with_wrap_around() {
    let up = KeyPress { key: Key::Up, unicode: None };
    let down = KeyPress { key: Key::Down, unicode: None };
    assert_eq!(list_key_response(down, Some(0), 3).activate, Some(1));
    assert_eq!(list_key_response(down, Some(2), 3).activate, Some(0));
    assert_eq!(list_key_response(up, Some(0), 3).activate, Some(2));
    assert_eq!(list_key_response(up, Some(2), 3).activate, Some(1));
    assert_eq!(list_key_response(up, None, 3).activate, None);
    // moving down then up comes back
    let j = list_key_response(down, Some(1), 3).activate.unwrap();
    assert_eq!(list_key_response(up, Some(j), 3).activate, Some(1));
}

#[test]
fn list_keys_type_quit_and_submit() {
    let r = list_key_response(KeyPress { key: Key::Other, unicode: Some('a') }, Some(0), 2);
    assert_eq!(r.typed, Some('a'));
    assert!(!r.quit && !r.submit_focused);
    assert_eq!(r.activate, None);
    let r = list_key_response(KeyPress { key: Key::Other, unicode: Some('é') }, Some(0), 2);
    assert_eq!(r.typed, None);
    let r = list_key_response(KeyPress { key: Key::Escape, unicode: Some('\u{1b}') }, Some(0), 2);
    assert!(r.quit);
    assert_eq!(r.typed, None);
    let r = list_key_response(KeyPress { key: Key::Return, unicode: Some('\r') }, Some(0), 2);
    assert!(r.submit_focused);
    assert_eq!(r.typed, Some('\r'));
    assert!(!r.quit);
}

#[test]
fn input_keys() {
    assert!(matches!(input_key_response(Key::Escape, 3), InputKeyResponse::Quit));
    assert!(matches!(input_key_response(Key::Down, 3), InputKeyResponse::FocusRow(0)));
    assert!(matches!(input_key_response(Key::Up, 3), InputKeyResponse::FocusRow(2)));
    assert!(matches!(input_key_response(Key::Up, 0), InputKeyResponse::Ignore));
    assert!(matches!(input_key_response(Key::Other, 3), InputKeyResponse::Ignore));
}
