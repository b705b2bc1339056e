//! Answering a search query from the plugins.
//!
//! The first word of a query is its prefix.  A plugin with an empty default
//! prefix answers every query; another answers the queries whose prefix is
//! its default prefix.  Each plugin that answers is asked with the search
//! text (the query after its first word, or the first word itself when
//! nothing follows it), and of its entries those whose name contains the
//! search text are kept, plugin by plugin, in order.
//!
//! Asking a plugin is a call into a loaded library, made by the caller: it
//! takes the requests from [`entry_requests`] and hands the answers to
//! [`query_entries`].

use vstd::prelude::*;

use crate::plugin::{Entry, IndexedEntry, Plugin};
use crate::text::{
    chars_contain, chars_of, first_space, has_space, lemma_first_space, query_prefix, query_rest, same_text, seq_contains,
    split_query,
};

verus! {

/// The text that the answering plugins are asked with, and that the names
/// of their entries are matched against.
pub open spec fn search_text(q: Seq<char>) -> Seq<char> {
    if query_rest(q).len() == 0 {
        query_prefix(q)
    } else {
        query_rest(q)
    }
}

/// A plugin with this default prefix answers a query with this prefix.
pub open spec fn answers(default_prefix: Seq<char>, prefix: Seq<char>) -> bool {
    default_prefix.len() == 0 || default_prefix == prefix
}

/// The entries of `es` whose name contains `text`, each paired with `p`, in
/// order.
pub open spec fn kept_entries(es: Seq<Entry>, p: Plugin, text: Seq<char>) -> Seq<IndexedEntry>
    decreases es.len(),
{
    if es.len() == 0 {
        Seq::empty()
    } else {
        kept_entries(es.drop_last(), p, text) + if seq_contains(es.last().name@, text) {
            seq![IndexedEntry { entry: es.last(), plugin: p }]
        } else {
            Seq::<IndexedEntry>::empty()
        }
    }
}

/// The result of a query: plugin by plugin, the kept entries of the answer
/// of each plugin that answers the query.
pub open spec fn gathered(ps: Seq<Plugin>, rs: Seq<Vec<Entry>>, q: Seq<char>) -> Seq<IndexedEntry>
    decreases ps.len(),
{
    if ps.len() == 0 {
        Seq::empty()
    } else {
        gathered(ps.drop_last(), rs.drop_last(), q) + if answers(
            ps.last().info.default_prefix@,
            query_prefix(q),
        ) {
            kept_entries(rs[ps.len() - 1]@, ps.last(), search_text(q))
        } else {
            Seq::<IndexedEntry>::empty()
        }
    }
}

/// The search text of a query.
fn search_text_of(query: &str) -> (r: String)
    ensures
        r@ == search_text(query@),
{
    let (prefix, rest) = split_query(query);
    if rest.as_str().is_empty() {
        prefix
    } else {
        rest
    }
}

/// For each plugin, the text to ask it with, or `None` when it does not
/// answer the query.
pub fn entry_requests(plugins: &Vec<Plugin>, query: &str) -> (r: Vec<Option<String>>)
    ensures
        r@.len() == plugins@.len(),
        forall|i: int|
            0 <= i < r@.len() ==> (#[trigger] r@[i] is Some <==> answers(
                plugins@[i].info.default_prefix@,
                query_prefix(query@),
            )),
        forall|i: int| 0 <= i < r@.len() && #[trigger] r@[i] is Some ==> r@[i]->0@ == search_text(query@),
{
    let (prefix, _) = split_query(query);
    let text = search_text_of(query);
    let mut out: Vec<Option<String>> = Vec::new();
    let mut i: usize = 0;
    while i < plugins.len()
        invariant
            i <= plugins@.len(),
            prefix@ == query_prefix(query@),
            text@ == search_text(query@),
            out@.len() == i,
            forall|k: int|
                0 <= k < i ==> (#[trigger] out@[k] is Some <==> answers(
                    plugins@[k].info.default_prefix@,
                    query_prefix(query@),
                )),
            forall|k: int| 0 <= k < i && #[trigger] out@[k] is Some ==> out@[k]->0@ == search_text(query@),
        decreases plugins@.len() - i,
    {
        let dp = plugins[i].info.default_prefix.as_str();
        if dp.is_empty() || same_text(dp, prefix.as_str()) {
            out.push(Some(text.clone()));
        } else {
            out.push(None);
        }
        i = i + 1;
    }
    out
}

/// The entries that answer `query`, given for each plugin the entries it
/// answered with (ignored for a plugin that does not answer the query).
pub fn query_entries(plugins: Vec<Plugin>, query: String, responses: Vec<Vec<Entry>>) -> (r: Vec<IndexedEntry>)
    requires
        responses@.len() == plugins@.len(),
    ensures
        r@ == gathered(plugins@, responses@, query@),
{
    let (prefix, _) = split_query(query.as_str());
    let text = search_text_of(query.as_str());
    let wanted = chars_of(text.as_str());
    let mut out: Vec<IndexedEntry> = Vec::new();
    let mut i: usize = 0;
    while i < plugins.len()
        invariant
            responses@.len() == plugins@.len(),
            i <= plugins@.len(),
            prefix@ == query_prefix(query@),
            wanted@ == search_text(query@),
            out@ == gathered(plugins@.take(i as int), responses@.take(i as int), query@),
        decreases plugins@.len() - i,
    {
        let ghost before = out@;
        let plugin = &plugins[i];
        let dp = plugin.info.default_prefix.as_str();
        let answering = dp.is_empty() || same_text(dp, prefix.as_str());
        if answering {
            let es = &responses[i];
            let mut j: usize = 0;
            while j < es.len()
                invariant
                    j <= es@.len(),
                    wanted@ == search_text(query@),
                    out@ == before + kept_entries(es@.take(j as int), *plugin, wanted@),
                decreases es@.len() - j,
            {
                let name = chars_of(es[j].name.as_str());
                if chars_contain(&name, &wanted) {
                    out.push(IndexedEntry { entry: es[j].clone(), plugin: plugin.clone() });
                }
                proof {
                    assert(es@.take(j + 1).drop_last() =~= es@.take(j as int));
                    assert(es@.take(j + 1).last() == es@[j as int]);
                }
                j = j + 1;
                assert(out@ =~= before + kept_entries(es@.take(j as int), *plugin, wanted@));
            }
            assert(es@.take(j as int) =~= es@);
        }
        proof {
            let ps = plugins@.take(i + 1);
            let rs = responses@.take(i + 1);
            assert(ps.drop_last() =~= plugins@.take(i as int));
            assert(rs.drop_last() =~= responses@.take(i as int));
            assert(ps.last() == plugins@[i as int]);
            assert(rs[ps.len() - 1] == responses@[i as int]);
            assert(out@ =~= gathered(ps, rs, query@));
        }
        i = i + 1;
    }
    assert(plugins@.take(i as int) =~= plugins@);
    assert(responses@.take(i as int) =~= responses@);
    out
}

/// Each kept entry comes with `p`, is one of `es`, and its name contains
/// `text`; each entry of `es` whose name contains `text` is kept.
pub proof fn lemma_kept_entries(es: Seq<Entry>, p: Plugin, text: Seq<char>)
    ensures
        forall|k: int|
            0 <= k < kept_entries(es, p, text).len() ==> {
                let e = #[trigger] kept_entries(es, p, text)[k];
                &&& e.plugin == p
                &&& es.contains(e.entry)
                &&& seq_contains(e.entry.name@, text)
            },
        forall|j: int|
            0 <= j < es.len() && seq_contains(es[j].name@, text) ==> #[trigger] kept_entries(es, p, text).contains(
                IndexedEntry { entry: es[j], plugin: p },
            ),
    decreases es.len(),
{
    if es.len() > 0 {
        let t = es.drop_last();
        lemma_kept_entries(t, p, text);
        let prev = kept_entries(t, p, text);
        let cur = kept_entries(es, p, text);
        assert forall|k: int| 0 <= k < cur.len() implies {
            let e = #[trigger] cur[k];
            &&& e.plugin == p
            &&& es.contains(e.entry)
            &&& seq_contains(e.entry.name@, text)
        } by {
            if k < prev.len() {
                assert(cur[k] == prev[k]);
                let j = choose|j: int| 0 <= j < t.len() && t[j] == prev[k].entry;
                assert(es[j] == t[j]);
            } else {
                assert(es[es.len() - 1] == es.last());
            }
        }
        assert forall|j: int|
            0 <= j < es.len() && seq_contains(es[j].name@, text) implies #[trigger] cur.contains(
            IndexedEntry { entry: es[j], plugin: p },
        ) by {
            let x = IndexedEntry { entry: es[j], plugin: p };
            if j < es.len() - 1 {
                assert(t[j] == es[j]);
                assert(prev.contains(x));
                let k = choose|k: int| 0 <= k < prev.len() && prev[k] == x;
                assert(cur[k] == x);
            } else {
                assert(cur[cur.len() - 1] == x);
            }
        }
    }
}

/// A query invents nothing and drops nothing: every entry it yields was
/// answered by a plugin that answers the query, comes with that plugin, and
/// has a name that contains the search text; and every entry that such a
/// plugin answered with whose name contains the search text is yielded.
pub proof fn lemma_query_entries_sound_and_complete(ps: Seq<Plugin>, rs: Seq<Vec<Entry>>, q: Seq<char>)
    requires
        rs.len() == ps.len(),
    ensures
        forall|k: int|
            0 <= k < gathered(ps, rs, q).len() ==> exists|i: int|
                #![trigger ps[i]]
                0 <= i < ps.len() && {
                    let e = #[trigger] gathered(ps, rs, q)[k];
                    &&& answers(ps[i].info.default_prefix@, query_prefix(q))
                    &&& e.plugin == ps[i]
                    &&& rs[i]@.contains(e.entry)
                    &&& seq_contains(e.entry.name@, search_text(q))
                },
        forall|i: int, j: int|
            0 <= i < ps.len() && 0 <= j < rs[i]@.len() && answers(ps[i].info.default_prefix@, query_prefix(q))
                && seq_contains(rs[i]@[j].name@, search_text(q)) ==> #[trigger] gathered(ps, rs, q).contains(
                IndexedEntry { entry: #[trigger] rs[i]@[j], plugin: ps[i] },
            ),
    decreases ps.len(),
{
    if ps.len() > 0 {
        let n = ps.len() - 1;
        let tp = ps.drop_last();
        let tr = rs.drop_last();
        lemma_query_entries_sound_and_complete(tp, tr, q);
        lemma_kept_entries(rs[n]@, ps[n], search_text(q));
        let prev = gathered(tp, tr, q);
        let cur = gathered(ps, rs, q);
        let tail = if answers(ps.last().info.default_prefix@, query_prefix(q)) {
            kept_entries(rs[n]@, ps.last(), search_text(q))
        } else {
            Seq::<IndexedEntry>::empty()
        };
        assert(cur == prev + tail);
        assert forall|k: int| 0 <= k < cur.len() implies exists|i: int|
            #![trigger ps[i]]
            0 <= i < ps.len() && {
                let e = #[trigger] cur[k];
                &&& answers(ps[i].info.default_prefix@, query_prefix(q))
                &&& e.plugin == ps[i]
                &&& rs[i]@.contains(e.entry)
                &&& seq_contains(e.entry.name@, search_text(q))
            } by {
            if k < prev.len() {
                assert(cur[k] == prev[k]);
                let i = choose|i: int|
                    #![trigger tp[i]]
                    0 <= i < tp.len() && {
                        let e = #[trigger] prev[k];
                        &&& answers(tp[i].info.default_prefix@, query_prefix(q))
                        &&& e.plugin == tp[i]
                        &&& tr[i]@.contains(e.entry)
                        &&& seq_contains(e.entry.name@, search_text(q))
                    };
                assert(tp[i] == ps[i] && tr[i] == rs[i]);
            } else {
                assert(cur[k] == tail[k - prev.len()]);
                assert(ps.last() == ps[n]);
            }
        }
        assert forall|i: int, j: int|
            0 <= i < ps.len() && 0 <= j < rs[i]@.len() && answers(ps[i].info.default_prefix@, query_prefix(q))
                && seq_contains(rs[i]@[j].name@, search_text(q)) implies #[trigger] cur.contains(
            IndexedEntry { entry: #[trigger] rs[i]@[j], plugin: ps[i] },
        ) by {
            let x = IndexedEntry { entry: rs[i]@[j], plugin: ps[i] };
            if i < n {
                assert(tp[i] == ps[i] && tr[i] == rs[i]);
                assert(prev.contains(x));
                let k = choose|k: int| 0 <= k < prev.len() && prev[k] == x;
                assert(cur[k] == x);
            } else {
                assert(ps.last() == ps[n]);
                assert(tail.contains(x));
                let k = choose|k: int| 0 <= k < tail.len() && tail[k] == x;
                assert(cur[prev.len() + k] == x);
            }
        }
    }
}

/// The search text of a query without a space is the whole query.
pub proof fn lemma_search_text_one_word(q: Seq<char>)
    requires
        forall|j: int| 0 <= j < q.len() ==> q[j] != ' ',
    ensures
        search_text(q) == q,
{
    lemma_first_space(q);
    assert(!has_space(q));
    assert(query_prefix(q) =~= q);
}

/// For a query whose first space is at `k`: the search text is everything
/// after that space when something follows it, and the first word
/// otherwise; so the first word, a space and the search text make up the
/// query whenever something follows the space.
pub proof fn lemma_search_text_after_space(q: Seq<char>, k: int)
    requires
        0 <= k < q.len(),
        q[k] == ' ',
        forall|j: int| 0 <= j < k ==> q[j] != ' ',
    ensures
        k + 1 < q.len() ==> search_text(q) == q.subrange(k + 1, q.len() as int),
        k + 1 < q.len() ==> q.subrange(0, k) + seq![' '] + search_text(q) == q,
        k + 1 == q.len() ==> search_text(q) == q.subrange(0, k),
{
    lemma_first_space(q);
    assert(first_space(q) == k) by {
        if first_space(q) < k {
            assert(q[first_space(q)] == ' ');
        }
    }
    if k + 1 < q.len() {
        assert(q.subrange(0, k) + seq![' '] + q.subrange(k + 1, q.len() as int) =~= q);
    }
}

/// A plugin answers a query whose first word is its default prefix, a plugin
/// without a default prefix answers every query, and a plugin with a default
/// prefix answers no query with another first word.
pub proof fn lemma_answers(dp: Seq<char>, prefix: Seq<char>)
    ensures
        answers(dp, dp),
        dp.len() == 0 ==> answers(dp, prefix),
        dp.len() > 0 && dp != prefix ==> !answers(dp, prefix),
{
}

} // verus!
