//! Which entries the result list shows for the text typed in the search bar.
//!
//! The comparison ignores case: the typed text, each plugin's default prefix
//! and each entry name are lowercased first.  An empty search shows every
//! entry.  An entry of a plugin without a default prefix is shown when its
//! name contains the search.  Otherwise a one word search shows the entries
//! of the plugins whose default prefix begins with that word, and a longer
//! search shows the entries of the plugin whose default prefix is its first
//! word and whose name begins with the rest of it.  At most
//! [`MAX_VISIBLE_ROWS`] entries are shown: the first ones that match.

use vstd::prelude::*;

use crate::plugin::IndexedEntry;
use crate::text::{
    chars_contain, chars_of, chars_start_with, first_space, has_space, lemma_first_space, query_prefix, query_rest,
    same_text, seq_contains, seq_starts_with, split_query,
};

verus! {

/// The most rows that the result list shows.
pub const MAX_VISIBLE_ROWS: usize = 12;

/// The lowercase form of a text, as `str::to_lowercase` computes it.
pub uninterp spec fn lowercase(s: Seq<char>) -> Seq<char>;

/// Calls `str::to_lowercase`.  Claimed: the result is `lowercase` of the
/// argument, a function of the text alone.
#[verifier::external_body]
fn to_lowercase(s: &str) -> (r: String)
    ensures
        r@ == lowercase(s@),
{
    s.to_lowercase()
}

/// Whether an entry is shown for the lowercased search `q`, given its
/// plugin's lowercased default prefix `dp` and its lowercased name.
pub open spec fn row_matches(q: Seq<char>, dp: Seq<char>, name: Seq<char>) -> bool {
    if q.len() == 0 {
        true
    } else if dp.len() == 0 {
        seq_contains(name, q)
    } else if !has_space(q) {
        seq_starts_with(dp, query_prefix(q))
    } else {
        dp == query_prefix(q) && seq_starts_with(name, query_rest(q))
    }
}

/// Whether the entry at index `i` matches the search `q`, case ignored.
pub open spec fn shown_at(es: Seq<IndexedEntry>, q: Seq<char>, i: int) -> bool {
    row_matches(
        lowercase(q),
        lowercase(es[i].plugin.info.default_prefix@),
        lowercase(es[i].entry.name@),
    )
}

/// The indices below `n` of the entries that match the search, in order.
pub open spec fn matching_rows(es: Seq<IndexedEntry>, q: Seq<char>, n: nat) -> Seq<usize>
    decreases n,
{
    if n == 0 {
        Seq::empty()
    } else {
        matching_rows(es, q, (n - 1) as nat) + if shown_at(es, q, n - 1) {
            seq![(n - 1) as usize]
        } else {
            Seq::<usize>::empty()
        }
    }
}

/// The indices of the entries that the result list shows: the first
/// [`MAX_VISIBLE_ROWS`] of those that match.
pub open spec fn visible_rows(es: Seq<IndexedEntry>, q: Seq<char>) -> Seq<usize> {
    let all = matching_rows(es, q, es.len());
    if all.len() > MAX_VISIBLE_ROWS {
        all.take(MAX_VISIBLE_ROWS as int)
    } else {
        all
    }
}

/// Whether an entry is shown, given the lowercased search, the lowercased
/// default prefix of its plugin and its lowercased name.
pub fn entry_matches(query_lower: &str, default_prefix_lower: &str, name_lower: &str) -> (b: bool)
    ensures
        b == row_matches(query_lower@, default_prefix_lower@, name_lower@),
{
    let q = chars_of(query_lower);
    if q.len() == 0 {
        return true;
    }
    if default_prefix_lower.is_empty() {
        return chars_contain(&chars_of(name_lower), &q);
    }
    let (prefix, rest) = split_query(query_lower);
    proof {
        lemma_first_space(query_lower@);
    }
    let prefix_chars = chars_of(prefix.as_str());
    let one_word = prefix_chars.len() == q.len();
    if one_word {
        chars_start_with(&chars_of(default_prefix_lower), &prefix_chars)
    } else {
        same_text(default_prefix_lower, prefix.as_str()) && chars_start_with(
            &chars_of(name_lower),
            &chars_of(rest.as_str()),
        )
    }
}

/// Facts about the matching indices below `n`: they are increasing, each
/// below `n` and matching, and each matching index below `n` is among them.
pub proof fn lemma_matching_rows(es: Seq<IndexedEntry>, q: Seq<char>, n: nat)
    requires
        n <= es.len(),
        n <= usize::MAX,
    ensures
        matching_rows(es, q, n).len() <= n,
        forall|k: int|
            0 <= k < matching_rows(es, q, n).len() ==> {
                let i = #[trigger] matching_rows(es, q, n)[k];
                i < n && shown_at(es, q, i as int)
            },
        forall|a: int, b: int|
            0 <= a < b < matching_rows(es, q, n).len() ==> #[trigger] matching_rows(es, q, n)[a]
                < #[trigger] matching_rows(es, q, n)[b],
        forall|i: int| 0 <= i < n && shown_at(es, q, i) ==> #[trigger] matching_rows(es, q, n).contains(i as usize),
    decreases n,
{
    if n > 0 {
        let m = (n - 1) as nat;
        lemma_matching_rows(es, q, m);
        let prev = matching_rows(es, q, m);
        let cur = matching_rows(es, q, n);
        assert(forall|k: int| 0 <= k < prev.len() ==> cur[k] == prev[k]);
        if shown_at(es, q, m as int) {
            assert(cur.len() == prev.len() + 1);
            assert(cur[prev.len() as int] == m as usize);
        } else {
            assert(cur =~= prev);
        }
        assert forall|i: int| 0 <= i < n && shown_at(es, q, i) implies #[trigger] cur.contains(i as usize) by {
            if i < m {
                assert(prev.contains(i as usize));
                let k = choose|k: int| 0 <= k < prev.len() && prev[k] == i as usize;
                assert(cur[k] == prev[k]);
            } else {
                assert(cur[cur.len() - 1] == i as usize);
            }
        }
    }
}

/// The matching indices below `m` begin the matching indices below a larger
/// `n`.
pub proof fn lemma_matching_rows_prefix(es: Seq<IndexedEntry>, q: Seq<char>, m: nat, n: nat)
    requires
        m <= n,
    ensures
        matching_rows(es, q, m).len() <= matching_rows(es, q, n).len(),
        matching_rows(es, q, n).take(matching_rows(es, q, m).len() as int) == matching_rows(es, q, m),
    decreases n,
{
    if m < n {
        lemma_matching_rows_prefix(es, q, m, (n - 1) as nat);
        let a = matching_rows(es, q, m);
        let b = matching_rows(es, q, (n - 1) as nat);
        let c = matching_rows(es, q, n);
        assert(c.take(a.len() as int) =~= b.take(a.len() as int));
    } else {
        assert(matching_rows(es, q, n).take(matching_rows(es, q, m).len() as int) =~= matching_rows(
            es,
            q,
            m,
        ));
    }
}

/// The indices of the entries that the result list shows for the text typed
/// in the search bar, in order.
pub fn visible_entries(entries: &Vec<IndexedEntry>, search_query: &str) -> (r: Vec<usize>)
    ensures
        r@ == visible_rows(entries@, search_query@),
{
    let query = to_lowercase(search_query);
    let n = entries.len();
    let mut out: Vec<usize> = Vec::new();
    let mut i: usize = 0;
    while i < n && out.len() < MAX_VISIBLE_ROWS
        invariant
            n == entries@.len(),
            i <= n,
            query@ == lowercase(search_query@),
            out@ == matching_rows(entries@, search_query@, i as nat),
            out@.len() <= MAX_VISIBLE_ROWS,
        decreases n - i,
    {
        let e = &entries[i];
        let dp = to_lowercase(e.plugin.info.default_prefix.as_str());
        let name = to_lowercase(e.entry.name.as_str());
        if entry_matches(query.as_str(), dp.as_str(), name.as_str()) {
            out.push(i);
        }
        i = i + 1;
        assert(out@ =~= matching_rows(entries@, search_query@, i as nat));
    }
    proof {
        lemma_matching_rows_prefix(entries@, search_query@, i as nat, n as nat);
        let all = matching_rows(entries@, search_query@, n as nat);
        if i < n {
            assert(out@.len() == MAX_VISIBLE_ROWS);
            if all.len() == MAX_VISIBLE_ROWS {
                assert(all =~= all.take(MAX_VISIBLE_ROWS as int));
            }
        }
    }
    out
}

/// The rows shown are the first ones that match: at most
/// [`MAX_VISIBLE_ROWS`] of them, in increasing order, each a matching entry,
/// and any matching entry left out comes after all of them, which happens
/// only when the list is full.
pub proof fn lemma_visible_rows_are_first_matches(es: Seq<IndexedEntry>, q: Seq<char>)
    requires
        es.len() <= usize::MAX,
    ensures
        visible_rows(es, q).len() <= MAX_VISIBLE_ROWS,
        forall|k: int|
            0 <= k < visible_rows(es, q).len() ==> {
                let i = #[trigger] visible_rows(es, q)[k];
                i < es.len() && shown_at(es, q, i as int)
            },
        forall|a: int, b: int|
            0 <= a < b < visible_rows(es, q).len() ==> #[trigger] visible_rows(es, q)[a]
                < #[trigger] visible_rows(es, q)[b],
        forall|i: int|
            0 <= i < es.len() && shown_at(es, q, i) && !#[trigger] visible_rows(es, q).contains(i as usize)
                ==> visible_rows(es, q).len() == MAX_VISIBLE_ROWS && visible_rows(es, q).last() < i,
{
    let all = matching_rows(es, q, es.len());
    let v = visible_rows(es, q);
    lemma_matching_rows(es, q, es.len());
    assert forall|k: int| 0 <= k < v.len() implies {
        let i = #[trigger] v[k];
        i < es.len() && shown_at(es, q, i as int)
    } by {
        assert(v[k] == all[k]);
    }
    assert forall|a: int, b: int| 0 <= a < b < v.len() implies #[trigger] v[a] < #[trigger] v[b] by {
        assert(v[a] == all[a] && v[b] == all[b]);
    }
    assert forall|i: int|
        0 <= i < es.len() && shown_at(es, q, i) && !#[trigger] v.contains(i as usize) implies v.len()
        == MAX_VISIBLE_ROWS && v.last() < i by {
        assert(all.contains(i as usize));
        let k = choose|k: int| 0 <= k < all.len() && all[k] == i as usize;
        if all.len() <= MAX_VISIBLE_ROWS {
            assert(v[k] == i as usize);
        } else {
            if k < MAX_VISIBLE_ROWS {
                assert(v[k] == i as usize);
            }
            assert(v.last() == all[MAX_VISIBLE_ROWS - 1]);
        }
    }
}

/// The matching rules on folded text, stated on the characters of the
/// search: an empty search matches every row; a row of a plugin without a
/// default prefix matches when its name contains the whole search; a one
/// word search (no space) matches the rows of the plugins whose default
/// prefix begins with that word.
pub proof fn lemma_row_matches_rules(q: Seq<char>, dp: Seq<char>, name: Seq<char>)
    ensures
        q.len() == 0 ==> row_matches(q, dp, name),
        q.len() > 0 && dp.len() == 0 ==> (row_matches(q, dp, name) <==> seq_contains(name, q)),
        q.len() > 0 && dp.len() > 0 && (forall|j: int| 0 <= j < q.len() ==> q[j] != ' ') ==> (row_matches(
            q,
            dp,
            name,
        ) <==> seq_starts_with(dp, q)),
{
    lemma_first_space(q);
    if forall|j: int| 0 <= j < q.len() ==> q[j] != ' ' {
        assert(!has_space(q));
        assert(query_prefix(q) =~= q);
    }
}

/// For a search with a space, first at position `k`, a row of a plugin with
/// a default prefix matches exactly when that prefix is the text before `k`
/// and the name begins with the whole text after `k`.
pub proof fn lemma_row_matches_split(q: Seq<char>, dp: Seq<char>, name: Seq<char>, k: int)
    requires
        0 <= k < q.len(),
        q[k] == ' ',
        forall|j: int| 0 <= j < k ==> q[j] != ' ',
        dp.len() > 0,
    ensures
        row_matches(q, dp, name) <==> (dp == q.subrange(0, k) && seq_starts_with(
            name,
            q.subrange(k + 1, q.len() as int),
        )),
{
    lemma_first_space(q);
    assert(has_space(q));
    assert(first_space(q) == k) by {
        if first_space(q) < k {
            assert(q[first_space(q)] == ' ');
        }
    }
}

} // verus!
