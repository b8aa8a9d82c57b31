//! The crawl pipeline's decisions: comment-page fan-out, merge order,
//! page assembly and page-range arithmetic.
//!
//! The fetching itself happens outside the library; results come back
//! as plain values, tagged with the keys (listing position, page
//! offset) that restore a stable order after out-of-order completion.

use vstd::prelude::*;
use crate::models::{
    AdditionalPackageData, AdditionalView, BasicPackageData, BasicView, Comment, CommentView,
    DependencyView, PackageData, PackageDependency, PackageView,
};

verus! {

/// The comment-page offsets to fetch for a thread whose highest
/// offset is `highest`: every multiple of the pagination step up to
/// and including it, each exactly once.
pub fn comment_offsets(highest: usize) -> (r: Vec<usize>)
    ensures
        r@.len() == highest / 10 + 1,
        forall|q: int| 0 <= q < r@.len() ==> r@[q] == 10 * q,
{
    let count = highest / 10 + 1;
    let mut r: Vec<usize> = Vec::new();
    let mut q: usize = 0;
    while q < count
        invariant
            q <= count,
            count == highest / 10 + 1,
            r@.len() == q,
            forall|p: int| 0 <= p < q ==> r@[p] == 10 * p,
        decreases count - q,
    {
        assert(q * 10 <= (highest / 10) * 10 <= highest);
        r.push(q * 10);
        q += 1;
    }
    r
}

/// One fetched comment page: its offset and its extracted comments.
pub open spec fn page_view(p: (usize, Vec<Comment>)) -> (int, Seq<CommentView>) {
    (p.0 as int, p.1@.map_values(|c: Comment| c@))
}

/// Inserts a page behind every page of lower or equal offset.
pub open spec fn sorted_insert(x: (int, Seq<CommentView>), s: Seq<(int, Seq<CommentView>)>)
    -> Seq<(int, Seq<CommentView>)>
    decreases s.len(),
{
    if s.len() == 0 {
        seq![x]
    } else if x.0 < s[0].0 {
        seq![x] + s
    } else {
        seq![s[0]] + sorted_insert(x, s.drop_first())
    }
}

/// The pages stably sorted by offset.
pub open spec fn sort_pages(s: Seq<(int, Seq<CommentView>)>) -> Seq<(int, Seq<CommentView>)>
    decreases s.len(),
{
    if s.len() == 0 {
        Seq::empty()
    } else {
        sorted_insert(s.last(), sort_pages(s.drop_last()))
    }
}

/// The pages' comments, concatenated in sequence order.
pub open spec fn flatten_pages(s: Seq<(int, Seq<CommentView>)>) -> Seq<CommentView>
    decreases s.len(),
{
    if s.len() == 0 {
        Seq::empty()
    } else {
        flatten_pages(s.drop_last()) + s.last().1
    }
}

/// Where a scan found the insertion point, the spec insert is a splice.
proof fn lemma_sorted_insert_at(
    x: (int, Seq<CommentView>),
    s: Seq<(int, Seq<CommentView>)>,
    j: int,
)
    requires
        0 <= j <= s.len(),
        forall|q: int| 0 <= q < j ==> s[q].0 <= x.0,
        j < s.len() ==> s[j].0 > x.0,
    ensures
        sorted_insert(x, s) == s.take(j) + seq![x] + s.skip(j),
    decreases s.len(),
{
    if s.len() == 0 {
        assert(sorted_insert(x, s) =~= s.take(j) + seq![x] + s.skip(j));
    } else if j == 0 {
        assert(s.take(0) =~= Seq::<(int, Seq<CommentView>)>::empty());
        assert(s.skip(0) =~= s);
        assert(sorted_insert(x, s) =~= s.take(0) + seq![x] + s.skip(0));
    } else {
        let d = s.drop_first();
        assert(forall|q: int| 0 <= q < j - 1 ==> #[trigger] d[q].0 == s[q + 1].0);
        lemma_sorted_insert_at(x, d, j - 1);
        assert(sorted_insert(x, s) =~= s.take(j) + seq![x] + s.skip(j)) by {
            assert(d.take(j - 1) =~= s.skip(1).take(j - 1));
            assert(sorted_insert(x, s) == seq![s[0]] + (d.take(j - 1) + seq![x] + d.skip(j - 1)));
        }
    }
}

/// The pages stand in non-decreasing offset order.
pub open spec fn pages_sorted(s: Seq<(int, Seq<CommentView>)>) -> bool {
    forall|i: int, j: int| 0 <= i < j < s.len() ==> s[i].0 <= s[j].0
}

/// The position the insert puts a page at: behind every page of lower
/// or equal offset.
spec fn first_greater(x: (int, Seq<CommentView>), s: Seq<(int, Seq<CommentView>)>) -> int
    decreases s.len(),
{
    if s.len() == 0 {
        0
    } else if s[0].0 > x.0 {
        0
    } else {
        1 + first_greater(x, s.drop_first())
    }
}

proof fn lemma_first_greater(x: (int, Seq<CommentView>), s: Seq<(int, Seq<CommentView>)>)
    ensures
        0 <= first_greater(x, s) <= s.len(),
        forall|q: int| 0 <= q < first_greater(x, s) ==> s[q].0 <= x.0,
        first_greater(x, s) < s.len() ==> s[first_greater(x, s)].0 > x.0,
    decreases s.len(),
{
    if s.len() > 0 && !(s[0].0 > x.0) {
        lemma_first_greater(x, s.drop_first());
        assert forall|q: int| 0 <= q < first_greater(x, s) implies s[q].0 <= x.0 by {
            if q > 0 {
                assert(s.drop_first()[q - 1] == s[q]);
            }
        }
    }
}

/// Inserting into a sorted page sequence keeps it sorted and adds
/// exactly the inserted page.
proof fn lemma_sorted_insert_ordered(
    x: (int, Seq<CommentView>),
    s: Seq<(int, Seq<CommentView>)>,
)
    requires
        pages_sorted(s),
    ensures
        pages_sorted(sorted_insert(x, s)),
        sorted_insert(x, s).to_multiset() == s.to_multiset().insert(x),
{
    let j = first_greater(x, s);
    lemma_first_greater(x, s);
    lemma_sorted_insert_at(x, s, j);
    let r = sorted_insert(x, s);
    assert(r =~= s.insert(j, x));
    broadcast use vstd::seq_lib::to_multiset_insert;
    assert(s.insert(j, x).to_multiset() == s.to_multiset().insert(x));
    assert(pages_sorted(r)) by {
        assert forall|a: int, b: int| 0 <= a < b < r.len() implies r[a].0 <= r[b].0 by {
            assert(r == s.take(j) + seq![x] + s.skip(j));
            if a < j {
                assert(r[a] == s[a]);
            } else if a == j {
                assert(r[a] == x);
            } else {
                assert(r[a] == s[a - 1]);
            }
            if b < j {
                assert(r[b] == s[b]);
            } else if b == j {
                assert(r[b] == x);
            } else {
                assert(r[b] == s[b - 1]);
            }
        }
    }
}

/// The sort is a reordering and nothing more: it yields the same
/// multiset of fetched pages, arranged by non-decreasing offset, so
/// the merged comments follow site page order whatever order the
/// fan-out completed in.
pub proof fn lemma_sort_pages_orders(s: Seq<(int, Seq<CommentView>)>)
    ensures
        pages_sorted(sort_pages(s)),
        sort_pages(s).to_multiset() == s.to_multiset(),
    decreases s.len(),
{
    broadcast use vstd::seq_lib::group_to_multiset_ensures;
    if s.len() > 0 {
        lemma_sort_pages_orders(s.drop_last());
        lemma_sorted_insert_ordered(s.last(), sort_pages(s.drop_last()));
        assert(s =~= s.drop_last().push(s.last()));
        assert(s.drop_last().push(s.last()).to_multiset()
            == s.drop_last().to_multiset().insert(s.last()));
    }
}

/// Sorts fetched pages by offset, stably: a page goes behind every
/// page of lower or equal offset.
fn insertion_sort_pages(pages: Vec<(usize, Vec<Comment>)>) -> (r: Vec<(usize, Vec<Comment>)>)
    ensures
        r@.map_values(|p: (usize, Vec<Comment>)| page_view(p)) == sort_pages(
            pages@.map_values(|p: (usize, Vec<Comment>)| page_view(p))),
    decreases pages@.len(),
{
    let ghost pf = |p: (usize, Vec<Comment>)| page_view(p);
    let ghost full = pages@.map_values(pf);
    let mut pages = pages;
    if pages.len() == 0 {
        assert(pages@.map_values(pf) =~= Seq::<(int, Seq<CommentView>)>::empty());
        return pages;
    }
    let x = match pages.pop() {
        Some(x) => x,
        None => {
            return pages;
        },
    };
    let ghost xv = page_view(x);
    proof {
        assert(xv == full.last());
        assert(pages@.map_values(pf) =~= full.drop_last());
    }
    let mut sorted = insertion_sort_pages(pages);
    let ghost sv = sorted@.map_values(pf);
    let mut j: usize = 0;
    while j < sorted.len() && sorted[j].0 <= x.0
        invariant
            j <= sorted@.len(),
            pf == (|p: (usize, Vec<Comment>)| page_view(p)),
            sv == sorted@.map_values(pf),
            xv == page_view(x),
            forall|q: int| 0 <= q < j ==> sv[q].0 <= xv.0,
        decreases sorted@.len() - j,
    {
        assert(sv[j as int] == page_view(sorted@[j as int]));
        j += 1;
    }
    proof {
        if (j as int) < sv.len() {
            assert(sv[j as int] == page_view(sorted@[j as int]));
        }
        lemma_sorted_insert_at(xv, sv, j as int);
    }
    sorted.insert(j, x);
    proof {
        assert(sorted@.map_values(pf) =~= sv.take(j as int) + seq![xv] + sv.skip(j as int));
    }
    sorted
}

/// Concatenates the sorted pages' comments in sequence order.
fn flatten_sorted(pages: Vec<(usize, Vec<Comment>)>) -> (r: Vec<Comment>)
    ensures
        r@.map_values(|c: Comment| c@) == flatten_pages(
            pages@.map_values(|p: (usize, Vec<Comment>)| page_view(p))),
    decreases pages@.len(),
{
    let ghost pf = |p: (usize, Vec<Comment>)| page_view(p);
    let ghost cf = |c: Comment| c@;
    let ghost full = pages@.map_values(pf);
    let mut pages = pages;
    let x = match pages.pop() {
        Some(x) => x,
        None => {
            let r: Vec<Comment> = Vec::new();
            assert(full =~= Seq::<(int, Seq<CommentView>)>::empty());
            assert(r@.map_values(cf) =~= flatten_pages(full));
            return r;
        },
    };
    let ghost xv = page_view(x);
    proof {
        assert(xv == full.last());
        assert(pages@.map_values(pf) =~= full.drop_last());
    }
    let mut r = flatten_sorted(pages);
    let ghost before = r@;
    let mut x = x;
    let ghost csv = x.1@;
    r.append(&mut x.1);
    proof {
        assert(r@.map_values(cf) =~= flatten_pages(full)) by {
            assert(forall|p: int| 0 <= p < r@.len()
                ==> #[trigger] r@.map_values(cf)[p] == r@[p]@);
            assert(forall|p: int| 0 <= p < before.len()
                ==> #[trigger] before.map_values(cf)[p] == before[p]@);
            assert(forall|p: int| 0 <= p < csv.len()
                ==> #[trigger] csv.map_values(cf)[p] == csv[p]@);
            assert(xv.1 == csv.map_values(cf));
        }
    }
    r
}

/// Merges fetched comment pages: sorts them by page offset (stably,
/// restoring site order after out-of-order completion) and
/// concatenates their comments.
pub fn merge_comment_pages(pages: Vec<(usize, Vec<Comment>)>) -> (r: Vec<Comment>)
    ensures
        r@.map_values(|c: Comment| c@) == flatten_pages(sort_pages(
            pages@.map_values(|p: (usize, Vec<Comment>)| page_view(p)))),
{
    let sorted = insertion_sort_pages(pages);
    flatten_sorted(sorted)
}

/// What one item's detail fetch produced: detail attributes, dependency
/// groups and merged comments — or nothing, when any of its fetches
/// failed and the item is dropped.
pub open spec fn fetched_view(
    d: Option<(AdditionalPackageData, Vec<PackageDependency>, Vec<Comment>)>,
) -> Option<(AdditionalView, Seq<DependencyView>, Seq<CommentView>)> {
    match d {
        Some(t) => Some((
            t.0@,
            t.1@.map_values(|x: PackageDependency| x@),
            t.2@.map_values(|c: Comment| c@),
        )),
        None => None,
    }
}

/// What assembling one page yields: the items whose fetches succeeded,
/// as complete records, in the original listing order.
pub open spec fn assemble_spec(
    bs: Seq<BasicView>,
    ds: Seq<Option<(AdditionalView, Seq<DependencyView>, Seq<CommentView>)>>,
) -> Seq<PackageView>
    decreases bs.len(),
{
    if bs.len() == 0 || ds.len() == 0 {
        Seq::empty()
    } else {
        let rest = assemble_spec(bs.drop_last(), ds.drop_last());
        match ds.last() {
            Some(d) => rest.push(PackageView {
                basic: bs.last(),
                additional: d.0,
                dependencies: d.1,
                comments: d.2,
            }),
            None => rest,
        }
    }
}

/// Assembles one listing page's records from its basic data and the
/// per-item fetch results, aligned by listing position. Items whose
/// fetch failed are excluded; the order of the rest follows the
/// listing, not fetch completion.
pub fn assemble_packages(
    basics: Vec<BasicPackageData>,
    fetched: Vec<Option<(AdditionalPackageData, Vec<PackageDependency>, Vec<Comment>)>>,
) -> (r: Vec<PackageData>)
    requires
        basics@.len() == fetched@.len(),
    ensures
        r@.map_values(|p: PackageData| p@) == assemble_spec(
            basics@.map_values(|b: BasicPackageData| b@),
            fetched@.map_values(
                |d: Option<(AdditionalPackageData, Vec<PackageDependency>, Vec<Comment>)>|
                    fetched_view(d)),
        ),
    decreases basics@.len(),
{
    let ghost bf = |b: BasicPackageData| b@;
    let ghost df = |d: Option<(AdditionalPackageData, Vec<PackageDependency>, Vec<Comment>)>|
        fetched_view(d);
    let ghost rf = |p: PackageData| p@;
    let ghost bv = basics@.map_values(bf);
    let ghost dv = fetched@.map_values(df);
    let mut basics = basics;
    let mut fetched = fetched;
    let b = match basics.pop() {
        Some(b) => b,
        None => {
            let r: Vec<PackageData> = Vec::new();
            assert(r@.map_values(rf) =~= assemble_spec(bv, dv));
            return r;
        },
    };
    let d = match fetched.pop() {
        Some(d) => d,
        None => {
            let r: Vec<PackageData> = Vec::new();
            return r;
        },
    };
    proof {
        assert(b@ == bv.last());
        assert(fetched_view(d) == dv.last());
        assert(basics@.map_values(bf) =~= bv.drop_last());
        assert(fetched@.map_values(df) =~= dv.drop_last());
    }
    let mut r = assemble_packages(basics, fetched);
    let ghost before = r@;
    match d {
        Some((additional, dependencies, comments)) => {
            let ghost pv = PackageView {
                basic: b@,
                additional: additional@,
                dependencies: dependencies@.map_values(|x: PackageDependency| x@),
                comments: comments@.map_values(|c: Comment| c@),
            };
            r.push(PackageData { basic: b, additional, dependencies, comments });
            assert(r@.map_values(rf) =~= before.map_values(rf).push(pv));
        },
        None => {},
    }
    r
}

/// The zero-based page indices a crawl covers: the 1-based inclusive
/// range `start_page ..= end_page`, with an absent end meaning the
/// start page alone.
pub fn listing_page_indices(start_page: u32, end_page: Option<u32>) -> (r: (u32, u32))
    requires
        1 <= start_page,
        end_page matches Some(e) ==> e >= 1,
    ensures
        r.0 == start_page - 1,
        r.1 == match end_page {
            Some(e) => e,
            None => start_page,
        },
{
    let end = match end_page {
        Some(e) => e,
        None => start_page,
    };
    (start_page - 1, end)
}

/// The 1-based page numbers a load covers: the inclusive range from
/// `start_page` to `end_page`, with an absent end meaning the start
/// page alone, as a half-open pair.
pub fn load_page_numbers(start_page: u32, end_page: Option<u32>) -> (r: (u32, u32))
    requires
        start_page < u32::MAX,
        end_page matches Some(e) ==> e < u32::MAX,
    ensures
        r.0 == start_page,
        r.1 == 1 + match end_page {
            Some(e) => e,
            None => start_page,
        },
{
    let end = match end_page {
        Some(e) => e,
        None => start_page,
    };
    (start_page, end + 1)
}

/// The listing offset a zero-based page index stands for: the site
/// lists a fixed number of items per page.
pub fn listing_offset(index: u32) -> (r: u64)
    ensures
        r == index * 250,
{
    (index as u64) * 250
}

} // verus!
