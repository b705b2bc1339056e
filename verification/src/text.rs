//! Text primitives on character sequences: splitting a query at its first
//! space, prefix and substring tests, and equality of string slices.

use vstd::prelude::*;
use vstd::string::StrSliceExecFns;

verus! {

/// The index of the first space at or after `i`, or the length of `s` when
/// there is none.
pub open spec fn space_from(s: Seq<char>, i: int) -> int
    decreases s.len() - i,
{
    if i >= s.len() {
        s.len() as int
    } else if s[i] == ' ' {
        i
    } else {
        space_from(s, i + 1)
    }
}

/// The index of the first space of `s`, or its length when it has none.
pub open spec fn first_space(s: Seq<char>) -> int {
    space_from(s, 0)
}

/// `s` holds at least one space.
pub open spec fn has_space(s: Seq<char>) -> bool {
    exists|i: int| 0 <= i < s.len() && s[i] == ' '
}

/// The first space separated word of a query: everything before its first
/// space (the whole query when it has no space).
pub open spec fn query_prefix(s: Seq<char>) -> Seq<char> {
    s.subrange(0, first_space(s))
}

/// Everything after the first space of a query; empty when it has no space.
/// This is the remaining words joined again by single spaces.
pub open spec fn query_rest(s: Seq<char>) -> Seq<char> {
    if first_space(s) < s.len() {
        s.subrange(first_space(s) + 1, s.len() as int)
    } else {
        Seq::empty()
    }
}

/// `p` is a prefix of `s`.
pub open spec fn seq_starts_with(s: Seq<char>, p: Seq<char>) -> bool {
    p.len() <= s.len() && s.subrange(0, p.len() as int) == p
}

/// `p` occurs in `s` as a contiguous run of characters.
pub open spec fn seq_contains(s: Seq<char>, p: Seq<char>) -> bool {
    exists|i: int| 0 <= i && i + p.len() <= s.len() && #[trigger] s.subrange(i, i + p.len()) == p
}

proof fn lemma_space_from(s: Seq<char>, i: int)
    requires
        0 <= i <= s.len(),
    ensures
        i <= space_from(s, i) <= s.len(),
        forall|j: int| i <= j < space_from(s, i) ==> s[j] != ' ',
        space_from(s, i) < s.len() ==> s[space_from(s, i)] == ' ',
    decreases s.len() - i,
{
    if i < s.len() && s[i] != ' ' {
        lemma_space_from(s, i + 1);
    }
}

/// The first space is where the text says it is: no space stands before it,
/// and, unless it is the length, a space stands at it.
pub proof fn lemma_first_space(s: Seq<char>)
    ensures
        0 <= first_space(s) <= s.len(),
        forall|j: int| 0 <= j < first_space(s) ==> s[j] != ' ',
        first_space(s) < s.len() ==> s[first_space(s)] == ' ',
        has_space(s) <==> first_space(s) < s.len(),
{
    lemma_space_from(s, 0);
    if has_space(s) {
        let w = choose|i: int| 0 <= i < s.len() && s[i] == ' ';
        assert(first_space(s) <= w);
    }
}

/// Splitting a query loses nothing: the first word holds no space, and when
/// the query holds a space it is the first word, one space and the rest;
/// otherwise it is the first word alone and the rest is empty.
pub proof fn lemma_split_reassembles(s: Seq<char>)
    ensures
        !has_space(query_prefix(s)),
        has_space(s) ==> query_prefix(s) + seq![' '] + query_rest(s) == s,
        !has_space(s) ==> query_prefix(s) == s && query_rest(s).len() == 0,
{
    lemma_first_space(s);
    let p = query_prefix(s);
    assert forall|i: int| 0 <= i < p.len() implies p[i] != ' ' by {
        assert(p[i] == s[i]);
    }
    if has_space(s) {
        assert(query_prefix(s) + seq![' '] + query_rest(s) =~= s);
    } else {
        assert(query_prefix(s) =~= s);
    }
}

/// A text begins with `p` exactly when it is `p` followed by something; a
/// text contains every piece that stands in it, and a text that begins with
/// `p` contains `p`.
pub proof fn lemma_prefix_and_piece(a: Seq<char>, b: Seq<char>, c: Seq<char>)
    ensures
        seq_starts_with(b + c, b),
        seq_contains(a + b + c, b),
        seq_starts_with(a, b) ==> a == b + a.subrange(b.len() as int, a.len() as int),
        seq_starts_with(a, b) ==> seq_contains(a, b),
{
    assert((b + c).subrange(0, b.len() as int) =~= b);
    assert((a + b + c).subrange(a.len() as int, a.len() + b.len() as int) =~= b);
    if seq_starts_with(a, b) {
        assert(a =~= b + a.subrange(b.len() as int, a.len() as int));
        assert(a.subrange(0, 0 + b.len() as int) =~= b);
    }
}

/// The characters of a string slice, in order.
pub fn chars_of(s: &str) -> (v: Vec<char>)
    ensures
        v@ == s@,
{
    let n = s.unicode_len();
    let mut v: Vec<char> = Vec::new();
    let mut i: usize = 0;
    while i < n
        invariant
            n == s@.len(),
            i <= n,
            v@ == s@.subrange(0, i as int),
        decreases n - i,
    {
        let c = s.get_char(i);
        v.push(c);
        i = i + 1;
        assert(v@ =~= s@.subrange(0, i as int));
    }
    assert(v@ =~= s@);
    v
}

/// Whether `p` occurs in `s` starting at position `at`.
fn occurs_at(s: &Vec<char>, p: &Vec<char>, at: usize) -> (b: bool)
    requires
        at + p@.len() <= s@.len(),
    ensures
        b == (s@.subrange(at as int, at + p@.len()) == p@),
{
    let slen = s.len();
    let mut j: usize = 0;
    while j < p.len()
        invariant
            slen == s@.len(),
            at + p@.len() <= s@.len(),
            j <= p@.len(),
            forall|k: int| 0 <= k < j ==> s@[at + k] == p@[k],
        decreases p@.len() - j,
    {
        if s[at + j] != p[j] {
            assert(s@.subrange(at as int, at + p@.len())[j as int] != p@[j as int]);
            return false;
        }
        j = j + 1;
    }
    assert(s@.subrange(at as int, at + p@.len()) =~= p@);
    true
}

/// Whether the characters `p` begin the characters `s`.
pub fn chars_start_with(s: &Vec<char>, p: &Vec<char>) -> (b: bool)
    ensures
        b == seq_starts_with(s@, p@),
{
    if p.len() > s.len() {
        false
    } else {
        occurs_at(s, p, 0)
    }
}

/// Whether the characters `p` occur in the characters `s`.
pub fn chars_contain(s: &Vec<char>, p: &Vec<char>) -> (b: bool)
    ensures
        b == seq_contains(s@, p@),
{
    if p.len() > s.len() {
        return false;
    }
    if p.len() == 0 {
        assert(s@.subrange(0, 0 + p@.len() as int) =~= p@);
        return true;
    }
    let slen = s.len();
    let last = slen - p.len();
    let mut i: usize = 0;
    while i <= last
        invariant
            slen == s@.len(),
            last + p@.len() == s@.len(),
            p@.len() > 0,
            i <= last + 1,
            forall|k: int| 0 <= k < i ==> #[trigger] s@.subrange(k, k + p@.len()) != p@,
        decreases last + 1 - i,
    {
        if occurs_at(s, p, i) {
            return true;
        }
        i = i + 1;
    }
    assert(!seq_contains(s@, p@)) by {
        if seq_contains(s@, p@) {
            let k = choose|k: int| 0 <= k && k + p@.len() <= s@.len() && #[trigger] s@.subrange(k, k + p@.len()) == p@;
            assert(k <= last);
        }
    }
    false
}

/// Whether the string slice `s` begins with `p`.
pub fn starts_with(s: &str, p: &str) -> (b: bool)
    ensures
        b == seq_starts_with(s@, p@),
{
    chars_start_with(&chars_of(s), &chars_of(p))
}

/// Whether the string slice `p` occurs in `s`.
pub fn contains(s: &str, p: &str) -> (b: bool)
    ensures
        b == seq_contains(s@, p@),
{
    chars_contain(&chars_of(s), &chars_of(p))
}

/// Whether two string slices hold the same characters.
pub fn same_text(a: &str, b: &str) -> (r: bool)
    ensures
        r == (a@ == b@),
{
    let x = chars_of(a);
    let y = chars_of(b);
    if x.len() != y.len() {
        return false;
    }
    let r = chars_start_with(&x, &y);
    assert(x@.subrange(0, y@.len() as int) =~= x@);
    r
}

/// Splits a query into its first space separated word and the rest after
/// the first space.
pub fn split_query(query: &str) -> (r: (String, String))
    ensures
        r.0@ == query_prefix(query@),
        r.1@ == query_rest(query@),
{
    let n = query.unicode_len();
    let mut i: usize = 0;
    while i < n && query.get_char(i) != ' '
        invariant
            n == query@.len(),
            i <= n,
            forall|j: int| 0 <= j < i ==> query@[j] != ' ',
        decreases n - i,
    {
        i = i + 1;
    }
    proof {
        lemma_first_space(query@);
        if i < n {
            assert(query@[i as int] == ' ');
        }
        assert(first_space(query@) == i);
    }
    let prefix = query.substring_char(0, i).to_owned();
    let rest = if i < n {
        query.substring_char(i + 1, n).to_owned()
    } else {
        String::new()
    };
    (prefix, rest)
}

} // verus!
