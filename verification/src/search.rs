//! Case-insensitive substring search over a snapshot of the shared
//! index. The caller holds the lock; search itself is a pure function of
//! the snapshot and the query.
use vstd::prelude::*;
use vstd::string::StrSliceExecFns;

use crate::entry::PasswordEntry;

verus! {

/// What `str::to_lowercase` returns for a given character sequence.
pub uninterp spec fn lower_of(s: Seq<char>) -> Seq<char>;

/// Relies on str::to_lowercase: the result depends on the characters
/// alone, and an empty string stays empty.
#[verifier::external_body]
fn lowercase(s: &str) -> (r: String)
    ensures
        r@ == lower_of(s@),
        s@.len() == 0 ==> r@.len() == 0,
{
    s.to_lowercase()
}

/// `needle` occurs contiguously somewhere in `hay`.
pub open spec fn is_substring(hay: Seq<char>, needle: Seq<char>) -> bool {
    exists|i: int|
        0 <= i <= hay.len() - needle.len() && #[trigger] hay.subrange(i, i + needle.len())
            == needle
}

/// The entry name `name` matches the already-case-folded query: the
/// folded name contains it as a substring.
pub open spec fn name_matches(name: Seq<char>, folded_query: Seq<char>) -> bool {
    is_substring(lower_of(name), folded_query)
}

/// The entries whose names match the case-folded query, in index order.
pub open spec fn search_results(
    entries: Seq<PasswordEntry>,
    folded_query: Seq<char>,
) -> Seq<PasswordEntry> {
    entries.filter(|p: PasswordEntry| name_matches(p.name@, folded_query))
}

/// Whether `needle` occurs contiguously in `hay`.
fn contains_str(hay: &str, needle: &str) -> (r: bool)
    ensures
        r == is_substring(hay@, needle@),
{
    let hl = hay.unicode_len();
    let nl = needle.unicode_len();
    if nl > hl {
        return false;
    }
    if nl == 0 {
        proof {
            lemma_empty_substring(hay@, needle@);
        }
        return true;
    }
    let mut i: usize = 0;
    while i <= hl - nl
        invariant
            0 <= i <= hl - nl + 1,
            forall|k: int|
                0 <= k < i ==> #[trigger] hay@.subrange(k, k + needle@.len() as int) != needle@,
        decreases hl + 1 - nl - i,
    {
        let mut j: usize = 0;
        let mut mismatch = false;
        while j < nl
            invariant
                0 <= j <= nl,
                i + nl <= hl,
                !mismatch ==> forall|m: int| 0 <= m < j ==> hay@[i + m] == #[trigger] needle@[m],
                mismatch ==> hay@.subrange(i as int, i + needle@.len() as int) != needle@,
            decreases nl - j,
        {
            if hay.get_char(i + j) != needle.get_char(j) {
                proof {
                    assert(hay@.subrange(i as int, i + needle@.len() as int)[j as int] != needle@[
                        j as int
                    ]);
                }
                mismatch = true;
                break;
            }
            j += 1;
        }
        if !mismatch {
            proof {
                assert(hay@.subrange(i as int, i + needle@.len() as int) =~= needle@);
            }
            return true;
        }
        i += 1;
    }
    false
}

/// Every sequence contains the empty sequence.
proof fn lemma_empty_substring(hay: Seq<char>, needle: Seq<char>)
    requires
        needle.len() == 0,
    ensures
        is_substring(hay, needle),
{
    let z: int = 0;
    assert(hay.subrange(z, z + needle.len()) =~= needle);
}

/// A filter whose predicate holds of every element keeps the whole
/// sequence.
proof fn lemma_filter_all<A>(s: Seq<A>, pred: spec_fn(A) -> bool)
    requires
        forall|i: int| 0 <= i < s.len() ==> pred(#[trigger] s[i]),
    ensures
        s.filter(pred) == s,
    decreases s.len(),
{
    reveal(Seq::filter);
    if s.len() > 0 {
        lemma_filter_all(s.drop_last(), pred);
        assert(s.drop_last().push(s.last()) =~= s);
    }
}

/// Case-insensitive substring query over a snapshot of the index: the
/// entries whose case-folded names contain the case-folded query, in
/// index order. An empty query returns every entry.
pub fn search(l: &Vec<PasswordEntry>, query: String) -> (r: Vec<PasswordEntry>)
    ensures
        r@ == search_results(l@, lower_of(query@)),
        query@.len() == 0 ==> r@ == l@,
{
    let lq = lowercase(query.as_str());
    let ghost pred = |p: PasswordEntry| name_matches(p.name@, lower_of(query@));
    let mut r: Vec<PasswordEntry> = Vec::new();
    let mut i: usize = 0;
    while i < l.len()
        invariant
            i <= l@.len(),
            r@ == l@.subrange(0, i as int).filter(pred),
        decreases l@.len() - i,
    {
        let p = &l[i];
        let ln = lowercase(p.name.as_str());
        proof {
            let x = l@[i as int];
            assert(l@.subrange(0, i + 1) =~= l@.subrange(0, i as int) + seq![x]);
            Seq::filter_distributes_over_add(l@.subrange(0, i as int), seq![x], pred);
            reveal(Seq::filter);
            assert(seq![x].drop_last() =~= Seq::<PasswordEntry>::empty());
            assert(Seq::<PasswordEntry>::empty().filter(pred) =~= Seq::<PasswordEntry>::empty());
            assert(seq![x].last() == x);
            if pred(x) {
                assert(seq![x].filter(pred) =~= seq![x]);
            } else {
                assert(seq![x].filter(pred) =~= Seq::<PasswordEntry>::empty());
            }
            assert(l@.subrange(0, i as int).filter(pred).push(x) =~= l@.subrange(0, i as int).filter(
                pred,
            ) + seq![x]);
        }
        if contains_str(ln.as_str(), lq.as_str()) {
            r.push(p.clone());
        }
        i += 1;
    }
    proof {
        assert(l@.subrange(0, l@.len() as int) =~= l@);
        if query@.len() == 0 {
            assert forall|k: int| 0 <= k < l@.len() implies pred(#[trigger] l@[k]) by {
                lemma_empty_substring(lower_of(l@[k].name@), lower_of(query@));
            }
            lemma_filter_all(l@, pred);
        }
    }
    r
}

/// Law: two queries with the same case-folding select exactly the same
/// entries from any index state.
pub proof fn lemma_search_case_insensitive(
    entries: Seq<PasswordEntry>,
    q1: Seq<char>,
    q2: Seq<char>,
)
    requires
        lower_of(q1) == lower_of(q2),
    ensures
        search_results(entries, lower_of(q1)) == search_results(entries, lower_of(q2)),
{
}

/// Law: search is deterministic — any two results drawn from the same
/// index contents with the same case-folded query are identical.
pub proof fn lemma_search_deterministic(
    entries: Seq<PasswordEntry>,
    folded_query: Seq<char>,
    r1: Seq<PasswordEntry>,
    r2: Seq<PasswordEntry>,
)
    requires
        r1 == search_results(entries, folded_query),
        r2 == search_results(entries, folded_query),
    ensures
        r1 == r2,
{
}

/// Law: an empty query selects every entry, in index order.
pub proof fn lemma_search_empty_query(entries: Seq<PasswordEntry>, folded_query: Seq<char>)
    requires
        folded_query.len() == 0,
    ensures
        search_results(entries, folded_query) == entries,
{
    let pred = |p: PasswordEntry| name_matches(p.name@, folded_query);
    assert forall|k: int| 0 <= k < entries.len() implies pred(#[trigger] entries[k]) by {
        lemma_empty_substring(lower_of(entries[k].name@), folded_query);
    }
    lemma_filter_all(entries, pred);
}

} // verus!
