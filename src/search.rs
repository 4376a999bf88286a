//! Hybrid retrieval: the structured search's page, enriched on the first
//! page by semantic neighbours that it does not already list.

use vstd::prelude::*;
use crate::model::{BookSearchResult, SearchResult};
use crate::text::{blank, is_blank};

verus! {

/// Nearest neighbours asked for by the semantic boost.
pub const BOOST_LIMIT: u64 = 10;

/// Whether the semantic path runs: first page, a query that is not blank,
/// and an embedding provider configured.
pub open spec fn boost_enabled(page: i64, query: Seq<char>, provider_configured: bool) -> bool {
    page == 0 && !is_blank(query) && provider_configured
}

pub fn boost_applies(page: i64, query: &str, provider_configured: bool) -> (r: bool)
    ensures
        r == boost_enabled(page, query@, provider_configured),
{
    page == 0 && !blank(query) && provider_configured
}

/// The references of a list of books, in order.
pub open spec fn refs_of(s: Seq<BookSearchResult>) -> Seq<Seq<char>> {
    s.map_values(|b: BookSearchResult| b.reference@)
}

/// No reference occurs twice.
pub open spec fn refs_distinct(s: Seq<Seq<char>>) -> bool {
    forall|i: int, j: int| 0 <= i < j < s.len() ==> s[i] != s[j]
}

/// The books of `extra`, in order, whose reference is neither in `primary`
/// nor in an earlier book of `extra`.
pub open spec fn boost_additions(
    primary: Seq<BookSearchResult>,
    extra: Seq<BookSearchResult>,
) -> Seq<BookSearchResult>
    decreases extra.len(),
{
    if extra.len() == 0 {
        Seq::empty()
    } else {
        let prev = boost_additions(primary, extra.drop_last());
        if refs_of(primary + prev).contains(extra.last().reference@) {
            prev
        } else {
            prev.push(extra.last())
        }
    }
}

fn has_reference(books: &Vec<BookSearchResult>, reference: &String) -> (r: bool)
    ensures
        r == refs_of(books@).contains(reference@),
{
    let mut i: usize = 0;
    while i < books.len()
        invariant
            i <= books@.len(),
            forall|k: int| 0 <= k < i ==> books@[k].reference@ != reference@,
        decreases books@.len() - i,
    {
        if books[i].reference == *reference {
            assert(refs_of(books@)[i as int] == reference@);
            return true;
        }
        i = i + 1;
    }
    assert forall|k: int| 0 <= k < refs_of(books@).len() implies refs_of(books@)[k] != reference@ by {
        assert(refs_of(books@)[k] == books@[k].reference@);
    }
    false
}

/// The primary results, then each semantic result whose reference is not
/// listed yet, in the semantic order.
pub fn merge_boost(primary: Vec<BookSearchResult>, extra: Vec<BookSearchResult>) -> (r: Vec<
    BookSearchResult,
>)
    ensures
        r@ == primary@ + boost_additions(primary@, extra@),
{
    let ghost p = primary@;
    let ghost e = extra@;
    let n = extra.len();
    let mut out = primary;
    let mut rest = extra;
    let mut i: usize = 0;
    while rest.len() > 0
        invariant
            i <= e.len(),
            e.len() == n,
            rest@ == e.skip(i as int),
            out@ == p + boost_additions(p, e.take(i as int)),
        decreases rest@.len(),
    {
        let b = rest.remove(0);
        assert(e.take(i + 1).drop_last() =~= e.take(i as int));
        assert(e.take(i + 1).last() == b);
        if !has_reference(&out, &b.reference) {
            out.push(b);
        }
        i = i + 1;
        assert(rest@ =~= e.skip(i as int));
    }
    assert(e.take(i as int) =~= e);
    out
}

/// The page shown for a search. A failed structured search fails the
/// call. Otherwise its page is shown, merged with the semantic results
/// when the boost runs and succeeded (`boost` is `None` when it did not run
/// or failed), with the structured search's count either way.
pub fn hybrid_page(
    page: i64,
    query: &str,
    provider_configured: bool,
    primary: Result<(Vec<BookSearchResult>, i64), String>,
    boost: Option<Vec<BookSearchResult>>,
) -> (r: Result<(Vec<BookSearchResult>, i64), String>)
    ensures
        primary is Err ==> r == primary,
        primary is Ok ==> r is Ok && r->Ok_0.1 == primary->Ok_0.1,
        primary is Ok && boost_enabled(page, query@, provider_configured) && boost is Some
            ==> r->Ok_0.0@ == primary->Ok_0.0@ + boost_additions(primary->Ok_0.0@, boost->Some_0@),
        primary is Ok && !(boost_enabled(page, query@, provider_configured) && boost is Some)
            ==> r->Ok_0.0@ == primary->Ok_0.0@,
{
    match primary {
        Err(e) => Err(e),
        Ok((books, total)) => {
            if boost_applies(page, query, provider_configured) {
                match boost {
                    Some(extra) => Ok((merge_boost(books, extra), total)),
                    None => Ok((books, total)),
                }
            } else {
                Ok((books, total))
            }
        },
    }
}

/// Beyond the first page the boost never changes the page shown.
pub proof fn lemma_no_boost_after_first_page(page: i64, query: Seq<char>, provider_configured: bool)
    requires
        page != 0,
    ensures
        !boost_enabled(page, query, provider_configured),
{
}

proof fn lemma_additions_fresh(primary: Seq<BookSearchResult>, extra: Seq<BookSearchResult>)
    ensures
        refs_distinct(refs_of(primary)) ==> refs_distinct(
            refs_of(primary + boost_additions(primary, extra)),
        ),
        forall|x: Seq<char>|
            #[trigger] refs_of(primary + boost_additions(primary, extra)).contains(x) <==> (
            refs_of(primary).contains(x) || refs_of(extra).contains(x)),
    decreases extra.len(),
{
    if extra.len() > 0 {
        let d = extra.drop_last();
        let prev = boost_additions(primary, d);
        lemma_additions_fresh(primary, d);
        let y = extra.last();
        let before = refs_of(primary + prev);
        assert forall|x: Seq<char>| refs_of(extra).contains(x) <==> (refs_of(d).contains(x)
            || x == y.reference@) by {
            if refs_of(extra).contains(x) {
                let k = choose|k: int| 0 <= k < refs_of(extra).len() && refs_of(extra)[k] == x;
                if k < d.len() {
                    assert(refs_of(d)[k] == x);
                }
            }
            if refs_of(d).contains(x) {
                let k = choose|k: int| 0 <= k < refs_of(d).len() && refs_of(d)[k] == x;
                assert(refs_of(extra)[k] == x);
            }
            if x == y.reference@ {
                assert(refs_of(extra)[extra.len() - 1] == x);
            }
        }
        if !before.contains(y.reference@) {
            let after = refs_of(primary + prev.push(y));
            assert(after =~= before.push(y.reference@));
            assert forall|x: Seq<char>| after.contains(x) <==> (before.contains(x) || x
                == y.reference@) by {
                if after.contains(x) {
                    let k = choose|k: int| 0 <= k < after.len() && after[k] == x;
                    if k < before.len() {
                        assert(before[k] == x);
                    }
                }
                if before.contains(x) {
                    let k = choose|k: int| 0 <= k < before.len() && before[k] == x;
                    assert(after[k] == x);
                }
                if x == y.reference@ {
                    assert(after[after.len() - 1] == x);
                }
            }
            if refs_distinct(refs_of(primary)) {
                assert forall|i: int, j: int| 0 <= i < j < after.len() implies after[i]
                    != after[j] by {
                    if j == after.len() - 1 {
                        assert(before[i] == after[i]);
                    }
                }
            }
        }
    }
}

/// Merging keeps the primary results first and in their order, lists each
/// reference of either path, and lists none twice when the primary page
/// has no duplicate.
pub proof fn lemma_merge_dedup(primary: Seq<BookSearchResult>, extra: Seq<BookSearchResult>)
    ensures
        (primary + boost_additions(primary, extra)).take(primary.len() as int) == primary,
        refs_distinct(refs_of(primary)) ==> refs_distinct(
            refs_of(primary + boost_additions(primary, extra)),
        ),
        forall|x: Seq<char>|
            #[trigger] refs_of(primary + boost_additions(primary, extra)).contains(x) <==> (
            refs_of(primary).contains(x) || refs_of(extra).contains(x)),
{
    lemma_additions_fresh(primary, extra);
    assert((primary + boost_additions(primary, extra)).take(primary.len() as int) =~= primary);
}

/// The references of `results` without repeats, in order of first
/// occurrence.
pub open spec fn first_occurrences(s: Seq<Seq<char>>) -> Seq<Seq<char>>
    decreases s.len(),
{
    if s.len() == 0 {
        Seq::empty()
    } else {
        let prev = first_occurrences(s.drop_last());
        if prev.contains(s.last()) {
            prev
        } else {
            prev.push(s.last())
        }
    }
}

fn contains_string(v: &Vec<String>, x: &String) -> (r: bool)
    ensures
        r == v@.map_values(|s: String| s@).contains(x@),
{
    let ghost vs = v@.map_values(|s: String| s@);
    let mut i: usize = 0;
    while i < v.len()
        invariant
            i <= v@.len(),
            vs == v@.map_values(|s: String| s@),
            forall|k: int| 0 <= k < i ==> v@[k]@ != x@,
        decreases v@.len() - i,
    {
        if v[i] == *x {
            assert(vs[i as int] == x@);
            return true;
        }
        i = i + 1;
    }
    assert forall|k: int| 0 <= k < vs.len() implies vs[k] != x@ by {
        assert(vs[k] == v@[k]@);
    }
    false
}

/// The references of semantic results, each once, in order of first
/// occurrence.
pub fn distinct_references(results: &[SearchResult]) -> (r: Vec<String>)
    ensures
        r@.map_values(|s: String| s@) == first_occurrences(
            results@.map_values(|x: SearchResult| x.reference@),
        ),
{
    let ghost all = results@.map_values(|x: SearchResult| x.reference@);
    let mut out: Vec<String> = Vec::new();
    let mut i: usize = 0;
    assert(out@.map_values(|s: String| s@) =~= first_occurrences(all.take(0)));
    while i < results.len()
        invariant
            i <= results@.len(),
            all == results@.map_values(|x: SearchResult| x.reference@),
            out@.map_values(|s: String| s@) == first_occurrences(all.take(i as int)),
        decreases results@.len() - i,
    {
        assert(all.take(i + 1).drop_last() =~= all.take(i as int));
        assert(all.take(i + 1).last() == results@[i as int].reference@);
        let r = results[i].reference.clone();
        if !contains_string(&out, &r) {
            let ghost before = out@;
            out.push(r);
            assert(out@.map_values(|s: String| s@) =~= before.map_values(|s: String| s@).push(
                r@,
            ));
        }
        i = i + 1;
    }
    assert(all.take(i as int) =~= all);
    out
}

/// The conditions of a nearest-neighbour search: one `("tags", t)` for
/// each tag `t`, then `("authors", a)` for an author `a`; a point must meet
/// all of them.
pub fn similarity_filter(tags: &[String], author: Option<&str>) -> (r: Vec<(String, String)>)
    ensures
        r@.len() == tags@.len() + if author is Some { 1int } else { 0int },
        forall|i: int|
            0 <= i < tags@.len() ==> (#[trigger] r@[i]).0@ == "tags"@ && r@[i].1 == tags@[i],
        author is Some ==> r@[tags@.len() as int].0@ == "authors"@ && r@[tags@.len() as int].1@
            == author->Some_0@,
{
    let mut out: Vec<(String, String)> = Vec::new();
    let mut i: usize = 0;
    while i < tags.len()
        invariant
            i <= tags@.len(),
            out@.len() == i,
            forall|k: int| 0 <= k < i ==> (#[trigger] out@[k]).0@ == "tags"@ && out@[k].1 == tags@[k],
        decreases tags@.len() - i,
    {
        out.push((String::from_str("tags"), tags[i].clone()));
        i = i + 1;
    }
    match author {
        Some(a) => out.push((String::from_str("authors"), String::from_str(a))),
        None => {},
    }
    out
}

/// The books found for the semantic results, in order, skipping those that
/// could not be loaded (`None`).
pub open spec fn found_books(found: Seq<Option<BookSearchResult>>) -> Seq<BookSearchResult>
    decreases found.len(),
{
    if found.len() == 0 {
        Seq::empty()
    } else {
        match found.last() {
            Some(b) => found_books(found.drop_last()).push(b),
            None => found_books(found.drop_last()),
        }
    }
}

/// Keeps the books that were found, in the order of the semantic results.
pub fn boost_books(found: Vec<Option<BookSearchResult>>) -> (r: Vec<BookSearchResult>)
    ensures
        r@ == found_books(found@),
{
    let ghost all = found@;
    let n = found.len();
    let mut rest = found;
    let mut out: Vec<BookSearchResult> = Vec::new();
    let mut i: usize = 0;
    while rest.len() > 0
        invariant
            i <= n,
            all.len() == n,
            rest@ == all.skip(i as int),
            out@ == found_books(all.take(i as int)),
        decreases rest@.len(),
    {
        let f = rest.remove(0);
        assert(all.take(i + 1).drop_last() =~= all.take(i as int));
        assert(all.take(i + 1).last() == f);
        match f {
            Some(b) => out.push(b),
            None => {},
        }
        i = i + 1;
        assert(rest@ =~= all.skip(i as int));
    }
    assert(all.take(i as int) =~= all);
    out
}

} // verus!
