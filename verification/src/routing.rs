//! Answering a query by routing it on its first word.
//!
//! A plugin answers a query when its default prefix is empty, equals the
//! query's first word, or begins that word.  Each answering plugin is asked
//! with the whole query, and every entry it answers with is kept, plugin by
//! plugin, in order.
//!
//! Asking a plugin is a call into a loaded library, made by the caller: it
//! takes the requests from [`entry_requests`] and hands the answers to
//! [`query_entries`].

use vstd::prelude::*;

use crate::plugin::{Entry, IndexedEntry, Plugin};
use crate::text::{chars_of, chars_start_with, query_prefix, same_text, seq_starts_with, split_query};

verus! {

/// A plugin with this default prefix answers a query whose first word is
/// `prefix`.
pub open spec fn routes_to(default_prefix: Seq<char>, prefix: Seq<char>) -> bool {
    default_prefix.len() == 0 || default_prefix == prefix || seq_starts_with(prefix, default_prefix)
}

/// Every entry of `es`, paired with `p`, in order.
pub open spec fn tagged(es: Seq<Entry>, p: Plugin) -> Seq<IndexedEntry>
    decreases es.len(),
{
    if es.len() == 0 {
        Seq::empty()
    } else {
        tagged(es.drop_last(), p).push(IndexedEntry { entry: es.last(), plugin: p })
    }
}

/// The result of a routed query: plugin by plugin, every entry of each
/// plugin that the query is routed to.
pub open spec fn routed(ps: Seq<Plugin>, rs: Seq<Vec<Entry>>, q: Seq<char>) -> Seq<IndexedEntry>
    decreases ps.len(),
{
    if ps.len() == 0 {
        Seq::empty()
    } else {
        routed(ps.drop_last(), rs.drop_last(), q) + if routes_to(
            ps.last().info.default_prefix@,
            query_prefix(q),
        ) {
            tagged(rs[ps.len() - 1]@, ps.last())
        } else {
            Seq::<IndexedEntry>::empty()
        }
    }
}

/// Whether a plugin with default prefix `dp` answers a query whose first
/// word is `prefix`.
fn is_routed(dp: &str, prefix: &str) -> (b: bool)
    ensures
        b == routes_to(dp@, prefix@),
{
    dp.is_empty() || same_text(dp, prefix) || chars_start_with(&chars_of(prefix), &chars_of(dp))
}

/// For each plugin, the text to ask it with (the whole query), or `None`
/// when the query is not routed to it.
pub fn entry_requests(plugins: &Vec<Plugin>, query: &str) -> (r: Vec<Option<String>>)
    ensures
        r@.len() == plugins@.len(),
        forall|i: int|
            0 <= i < r@.len() ==> (#[trigger] r@[i] is Some <==> routes_to(
                plugins@[i].info.default_prefix@,
                query_prefix(query@),
            )),
        forall|i: int| 0 <= i < r@.len() && #[trigger] r@[i] is Some ==> r@[i]->0@ == query@,
{
    let (prefix, _) = split_query(query);
    let mut out: Vec<Option<String>> = Vec::new();
    let mut i: usize = 0;
    while i < plugins.len()
        invariant
            i <= plugins@.len(),
            prefix@ == query_prefix(query@),
            out@.len() == i,
            forall|k: int|
                0 <= k < i ==> (#[trigger] out@[k] is Some <==> routes_to(
                    plugins@[k].info.default_prefix@,
                    query_prefix(query@),
                )),
            forall|k: int| 0 <= k < i && #[trigger] out@[k] is Some ==> out@[k]->0@ == query@,
        decreases plugins@.len() - i,
    {
        if is_routed(plugins[i].info.default_prefix.as_str(), prefix.as_str()) {
            out.push(Some(query.to_owned()));
        } else {
            out.push(None);
        }
        i = i + 1;
    }
    out
}

/// The entries that answer `query`, given for each plugin the entries it
/// answered with (ignored for a plugin that the query is not routed to).
pub fn query_entries(plugins: Vec<Plugin>, query: String, responses: Vec<Vec<Entry>>) -> (r: Vec<IndexedEntry>)
    requires
        responses@.len() == plugins@.len(),
    ensures
        r@ == routed(plugins@, responses@, query@),
{
    let (prefix, _) = split_query(query.as_str());
    let mut out: Vec<IndexedEntry> = Vec::new();
    let mut i: usize = 0;
    while i < plugins.len()
        invariant
            responses@.len() == plugins@.len(),
            i <= plugins@.len(),
            prefix@ == query_prefix(query@),
            out@ == routed(plugins@.take(i as int), responses@.take(i as int), query@),
        decreases plugins@.len() - i,
    {
        let ghost before = out@;
        let plugin = &plugins[i];
        let answering = is_routed(plugin.info.default_prefix.as_str(), prefix.as_str());
        if answering {
            let es = &responses[i];
            let mut j: usize = 0;
            while j < es.len()
                invariant
                    j <= es@.len(),
                    out@ == before + tagged(es@.take(j as int), *plugin),
                decreases es@.len() - j,
            {
                out.push(IndexedEntry { entry: es[j].clone(), plugin: plugin.clone() });
                proof {
                    assert(es@.take(j + 1).drop_last() =~= es@.take(j as int));
                    assert(es@.take(j + 1).last() == es@[j as int]);
                }
                j = j + 1;
                assert(out@ =~= before + tagged(es@.take(j as int), *plugin));
            }
            assert(es@.take(j as int) =~= es@);
        }
        proof {
            let ps = plugins@.take(i + 1);
            let rs = responses@.take(i + 1);
            assert(ps.drop_last() =~= plugins@.take(i as int));
            assert(rs.drop_last() =~= responses@.take(i as int));
            assert(ps.last() == plugins@[i as int]);
            assert(rs[ps.len() - 1] == responses@[i as int]);
            assert(out@ =~= routed(ps, rs, query@));
        }
        i = i + 1;
    }
    assert(plugins@.take(i as int) =~= plugins@);
    assert(responses@.take(i as int) =~= responses@);
    out
}

/// The tagged entries are the entries of `es`, in order, each with `p`.
pub proof fn lemma_tagged(es: Seq<Entry>, p: Plugin)
    ensures
        tagged(es, p).len() == es.len(),
        forall|k: int| 0 <= k < es.len() ==> #[trigger] tagged(es, p)[k] == (IndexedEntry { entry: es[k], plugin: p }),
    decreases es.len(),
{
    if es.len() > 0 {
        lemma_tagged(es.drop_last(), p);
        assert forall|k: int| 0 <= k < es.len() implies #[trigger] tagged(es, p)[k] == (IndexedEntry {
            entry: es[k],
            plugin: p,
        }) by {
            if k < es.len() - 1 {
                assert(es.drop_last()[k] == es[k]);
            }
        }
    }
}

/// A routed query invents nothing and drops nothing: every entry it yields
/// was answered by a plugin the query is routed to and comes with that
/// plugin, and every entry that such a plugin answered with is yielded.
pub proof fn lemma_routed_sound_and_complete(ps: Seq<Plugin>, rs: Seq<Vec<Entry>>, q: Seq<char>)
    requires
        rs.len() == ps.len(),
    ensures
        forall|k: int|
            0 <= k < routed(ps, rs, q).len() ==> exists|i: int|
                #![trigger ps[i]]
                0 <= i < ps.len() && {
                    let e = #[trigger] routed(ps, rs, q)[k];
                    &&& routes_to(ps[i].info.default_prefix@, query_prefix(q))
                    &&& e.plugin == ps[i]
                    &&& rs[i]@.contains(e.entry)
                },
        forall|i: int, j: int|
            0 <= i < ps.len() && 0 <= j < rs[i]@.len() && routes_to(ps[i].info.default_prefix@, query_prefix(q))
                ==> #[trigger] routed(ps, rs, q).contains(IndexedEntry { entry: #[trigger] rs[i]@[j], plugin: ps[i] }),
    decreases ps.len(),
{
    if ps.len() > 0 {
        let n = ps.len() - 1;
        let tp = ps.drop_last();
        let tr = rs.drop_last();
        lemma_routed_sound_and_complete(tp, tr, q);
        lemma_tagged(rs[n]@, ps[n]);
        let prev = routed(tp, tr, q);
        let cur = routed(ps, rs, q);
        let tail = if routes_to(ps.last().info.default_prefix@, query_prefix(q)) {
            tagged(rs[n]@, ps.last())
        } else {
            Seq::<IndexedEntry>::empty()
        };
        assert(cur == prev + tail);
        assert(ps.last() == ps[n]);
        assert forall|k: int| 0 <= k < cur.len() implies exists|i: int|
            #![trigger ps[i]]
            0 <= i < ps.len() && {
                let e = #[trigger] cur[k];
                &&& routes_to(ps[i].info.default_prefix@, query_prefix(q))
                &&& e.plugin == ps[i]
                &&& rs[i]@.contains(e.entry)
            } by {
            if k < prev.len() {
                assert(cur[k] == prev[k]);
                let i = choose|i: int|
                    #![trigger tp[i]]
                    0 <= i < tp.len() && {
                        let e = #[trigger] prev[k];
                        &&& routes_to(tp[i].info.default_prefix@, query_prefix(q))
                        &&& e.plugin == tp[i]
                        &&& tr[i]@.contains(e.entry)
                    };
                assert(tp[i] == ps[i] && tr[i] == rs[i]);
            } else {
                let m = k - prev.len();
                assert(cur[k] == tail[m]);
                assert(tail[m].entry == rs[n]@[m]);
            }
        }
        assert forall|i: int, j: int|
            0 <= i < ps.len() && 0 <= j < rs[i]@.len() && routes_to(ps[i].info.default_prefix@, query_prefix(q))
                implies #[trigger] cur.contains(IndexedEntry { entry: #[trigger] rs[i]@[j], plugin: ps[i] }) by {
            let x = IndexedEntry { entry: rs[i]@[j], plugin: ps[i] };
            if i < n {
                assert(tp[i] == ps[i] && tr[i] == rs[i]);
                assert(prev.contains(x));
                let k = choose|k: int| 0 <= k < prev.len() && prev[k] == x;
                assert(cur[k] == x);
            } else {
                assert(tail[j] == x);
                assert(cur[prev.len() + j] == x);
            }
        }
    }
}

/// A query is routed to a plugin exactly when the plugin has no default
/// prefix or the query's first word begins with it; in particular a first
/// word equal to the default prefix is routed to the plugin.
pub proof fn lemma_routes_to(dp: Seq<char>, prefix: Seq<char>)
    ensures
        routes_to(dp, prefix) <==> (dp.len() == 0 || seq_starts_with(prefix, dp)),
        routes_to(dp, dp),
        dp.len() > prefix.len() ==> !routes_to(dp, prefix),
{
    assert(dp.subrange(0, dp.len() as int) =~= dp);
    if dp == prefix {
        assert(prefix.subrange(0, dp.len() as int) =~= dp);
    }
}

} // verus!
