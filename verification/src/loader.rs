//! The decisions taken while plugins are loaded: which files of the plugin
//! folder are plugin libraries, and what settings text a plugin is
//! initialised with.

use vstd::prelude::*;

use crate::store::StrMap;
use crate::text::chars_of;

verus! {

/// The file name has the extension `so`: it ends in `.so` after at least one
/// other character (a name that is only `.so` is a hidden file without an
/// extension).
pub open spec fn plugin_file_name(s: Seq<char>) -> bool {
    &&& s.len() >= 4
    &&& s[s.len() - 3] == '.'
    &&& s[s.len() - 2] == 's'
    &&& s[s.len() - 1] == 'o'
}

/// A file name is a plugin library exactly when it is a non-empty stem
/// followed by `.so`.
pub proof fn lemma_plugin_file_name(stem: Seq<char>, t: Seq<char>)
    ensures
        plugin_file_name(stem + seq!['.', 's', 'o']) <==> stem.len() > 0,
        plugin_file_name(t) ==> t == t.subrange(0, t.len() - 3) + seq!['.', 's', 'o'] && t.len() - 3 > 0,
{
    let n = stem + seq!['.', 's', 'o'];
    assert(n[n.len() - 3] == '.' && n[n.len() - 2] == 's' && n[n.len() - 1] == 'o');
    if plugin_file_name(t) {
        assert(t =~= t.subrange(0, t.len() - 3) + seq!['.', 's', 'o']);
    }
}

/// Whether a file of the plugin folder, given by its file name, is a plugin
/// library.
pub fn is_plugin_file(file_name: &str) -> (b: bool)
    ensures
        b == plugin_file_name(file_name@),
{
    let c = chars_of(file_name);
    let n = c.len();
    n >= 4 && c[n - 3] == '.' && c[n - 2] == 's' && c[n - 1] == 'o'
}

#[verifier::external_type_specification]
#[verifier::external_body]
pub struct ExJsonError(serde_json::Error);

/// The JSON text of an object with the given string members, as
/// `serde_json::to_string` writes it for a `BTreeMap` of strings: the members
/// ordered by key.  It depends on the map alone.
pub uninterp spec fn json_object_text(m: Map<Seq<char>, Seq<char>>) -> Seq<char>;

/// Calls `serde_json::to_string` on the pairs of `m` collected into a
/// `BTreeMap<&str, &str>`.  Claimed: the call succeeds, and its text is
/// `json_object_text` of the map.  serde_json documents that serialising
/// fails only when a `Serialize` impl decides to fail or a map has keys that
/// are not strings; neither holds of a map of strings.
#[verifier::external_body]
fn json_object(m: &StrMap<String>) -> (r: Result<String, serde_json::Error>)
    ensures
        r is Ok,
        r.unwrap()@ == json_object_text(m@),
{
    let ordered: std::collections::BTreeMap<&str, &str> = m.pairs().iter().map(
        |p: &(String, String)| (p.0.as_str(), p.1.as_str()),
    ).collect();
    serde_json::to_string(&ordered)
}

/// The settings text that the plugin named `plugin_name` is initialised
/// with: the JSON object of its settings, or `{}` when it has none.
pub fn init_config_payload(settings: &StrMap<StrMap<String>>, plugin_name: &str) -> (r: String)
    ensures
        settings@.contains_key(plugin_name@) ==> r@ == json_object_text(settings@[plugin_name@]),
        !settings@.contains_key(plugin_name@) ==> r@ == "{}"@,
{
    match settings.get(plugin_name) {
        Some(pairs) => match json_object(pairs) {
            Ok(text) => text,
            Err(_) => "{}".to_owned(),
        },
        None => "{}".to_owned(),
    }
}

} // verus!
