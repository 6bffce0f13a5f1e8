//! The decisions of a crawl: which listing pages count, which links lead to
//! book pages, and which books are kept.
use crate::book::{extracted_from, opt_text, Book, ExtractError, PageFields};
use crate::site_url::{build_book_page_url, detail_url};
use vstd::prelude::*;

verus! {

/// The texts of a sequence of strings.
pub open spec fn texts(v: Seq<String>) -> Seq<Seq<char>> {
    v.map_values(|s: String| s@)
}

/// The texts of a sequence of optional strings.
pub open spec fn opt_texts(v: Seq<Option<String>>) -> Seq<Option<Seq<char>>> {
    v.map_values(|o: Option<String>| opt_text(o))
}

/// The book-page URLs that the links `hrefs` of a listing page resolve to,
/// in order; absent and unresolvable links are skipped.
pub open spec fn resolved_links(hrefs: Seq<Option<Seq<char>>>) -> Seq<Seq<char>>
    decreases hrefs.len(),
{
    if hrefs.len() == 0 {
        Seq::empty()
    } else {
        let before = resolved_links(hrefs.drop_last());
        match hrefs.last() {
            Some(h) => match detail_url(h) {
                Some(u) => before.push(u),
                None => before,
            },
            None => before,
        }
    }
}

/// The URLs of the book pages that the links `hrefs` point to, in order.
/// A link that is absent or does not resolve is skipped.
pub fn resolve_links(hrefs: &Vec<Option<String>>) -> (r: Vec<String>)
    ensures
        texts(r@) == resolved_links(opt_texts(hrefs@)),
{
    let mut out: Vec<String> = Vec::new();
    let mut i: usize = 0;
    while i < hrefs.len()
        invariant
            i <= hrefs@.len(),
            texts(out@) == resolved_links(opt_texts(hrefs@.take(i as int))),
        decreases hrefs@.len() - i,
    {
        assert(opt_texts(hrefs@.take(i + 1)).drop_last() =~= opt_texts(hrefs@.take(i as int)));
        match &hrefs[i] {
            Some(h) => match build_book_page_url(h.as_str()) {
                Ok(u) => {
                    out.push(u);
                },
                Err(_) => {},
            },
            None => {},
        }
        i = i + 1;
        assert(texts(out@) =~= resolved_links(opt_texts(hrefs@.take(i as int))));
    }
    assert(hrefs@.take(hrefs@.len() as int) =~= hrefs@);
    out
}

/// The URLs of the book pages that several listing pages link to, page
/// after page, each page's links in order.
pub open spec fn all_resolved_links(pages: Seq<Vec<Option<String>>>) -> Seq<Seq<char>>
    decreases pages.len(),
{
    if pages.len() == 0 {
        Seq::empty()
    } else {
        all_resolved_links(pages.drop_last()) + resolved_links(opt_texts(pages.last()@))
    }
}

/// The URLs of the book pages that the links of `pages` point to, page by
/// page, in order.
pub fn resolve_all_links(pages: &Vec<Vec<Option<String>>>) -> (r: Vec<String>)
    ensures
        texts(r@) == all_resolved_links(pages@),
{
    let mut out: Vec<String> = Vec::new();
    let mut i: usize = 0;
    while i < pages.len()
        invariant
            i <= pages@.len(),
            texts(out@) == all_resolved_links(pages@.take(i as int)),
        decreases pages@.len() - i,
    {
        assert(pages@.take(i + 1).drop_last() =~= pages@.take(i as int));
        let mut links = resolve_links(&pages[i]);
        let ghost before = out@;
        out.append(&mut links);
        assert(texts(out@) =~= texts(before) + resolved_links(opt_texts(pages@[i as int]@)));
        i = i + 1;
    }
    assert(pages@.take(pages@.len() as int) =~= pages@);
    out
}

/// Where the walk over the listing pages stands.
#[derive(Debug, Clone, Copy, PartialEq, Eq, Structural)]
pub enum WalkState {
    /// Pages are still being read.
    Running,
    /// A page after the first failed: the catalogue has ended.
    Exhausted,
    /// The very first page failed.
    Aborted,
}

/// Consumes the outcomes of the listing-page fetches in page order and
/// stops at the first failure: the pages from there on are dropped, also
/// those fetched ahead of it.
pub struct ListingWalker {
    /// The number of pages read so far.
    pub pages_read: u32,
    pub state: WalkState,
}

impl ListingWalker {
    pub fn new() -> (r: ListingWalker)
        ensures
            r.pages_read == 0,
            r.state == WalkState::Running,
    {
        ListingWalker { pages_read: 0, state: WalkState::Running }
    }

    /// Takes the outcome of the next listing page and says whether its
    /// page is kept: while running, a page that was fetched is kept and
    /// the first that was not ends the walk.
    pub fn accept(&mut self, fetched: bool) -> (keep: bool)
        ensures
            keep == (old(self).state == WalkState::Running && fetched
                && old(self).pages_read < u32::MAX),
            keep ==> final(self).pages_read == old(self).pages_read + 1
                && final(self).state == WalkState::Running,
            old(self).state != WalkState::Running ==> *final(self) == *old(self),
            old(self).state == WalkState::Running && !keep ==> {
                &&& final(self).pages_read == old(self).pages_read
                &&& final(self).state == if old(self).pages_read == 0 {
                    WalkState::Aborted
                } else {
                    WalkState::Exhausted
                }
            },
    {
        match self.state {
            WalkState::Running => {
                if fetched && self.pages_read < u32::MAX {
                    self.pages_read = self.pages_read + 1;
                    true
                } else {
                    if self.pages_read == 0 {
                        self.state = WalkState::Aborted;
                    } else {
                        self.state = WalkState::Exhausted;
                    }
                    false
                }
            },
            _ => false,
        }
    }
}

/// The number of outcomes before the first failure in `outcomes`.
pub open spec fn first_failure(outcomes: Seq<bool>) -> nat
    decreases outcomes.len(),
{
    if outcomes.len() == 0 || !outcomes[0] {
        0
    } else {
        1 + first_failure(outcomes.drop_first())
    }
}

proof fn lemma_first_failure_step(outcomes: Seq<bool>, i: int)
    requires
        0 <= i < outcomes.len(),
        forall|j: int| 0 <= j < i ==> outcomes[j],
    ensures
        outcomes[i] ==> first_failure(outcomes) > i,
        !outcomes[i] ==> first_failure(outcomes) == i,
    decreases i,
{
    if i > 0 {
        lemma_first_failure_step(outcomes.drop_first(), i - 1);
    }
}

proof fn lemma_first_failure_all(outcomes: Seq<bool>)
    requires
        forall|j: int| 0 <= j < outcomes.len() ==> outcomes[j],
    ensures
        first_failure(outcomes) == outcomes.len(),
    decreases outcomes.len(),
{
    if outcomes.len() > 0 {
        lemma_first_failure_all(outcomes.drop_first());
    }
}

/// The walk stops at the first failed page: what the pages after it gave,
/// even those fetched ahead and read, does not change how many are kept.
pub proof fn lemma_later_pages_discarded(before: Seq<bool>, later: Seq<bool>)
    requires
        exists|i: int| 0 <= i < before.len() && !before[i],
    ensures
        first_failure(before + later) == first_failure(before),
        first_failure(before) < before.len(),
    decreases before.len(),
{
    if before[0] {
        let i = choose|i: int| 0 <= i < before.len() && !before[i];
        assert(before.drop_first()[i - 1] == before[i]);
        assert((before + later).drop_first() =~= before.drop_first() + later);
        lemma_later_pages_discarded(before.drop_first(), later);
    } else {
        assert((before + later)[0] == before[0]);
    }
}

/// Walks the outcomes of the listing pages 1, 2, ... in order: the number
/// of pages kept is the number before the first failure.
pub fn pages_kept(outcomes: &Vec<bool>) -> (r: usize)
    requires
        outcomes@.len() < u32::MAX,
    ensures
        r == first_failure(outcomes@),
{
    let mut walker = ListingWalker::new();
    let mut kept: usize = 0;
    let mut i: usize = 0;
    while i < outcomes.len()
        invariant
            i <= outcomes@.len() < u32::MAX,
            kept <= i,
            walker.pages_read == kept,
            walker.state == WalkState::Running ==> kept == i
                && forall|j: int| 0 <= j < i ==> outcomes@[j],
            walker.state != WalkState::Running ==> kept == first_failure(outcomes@),
        decreases outcomes@.len() - i,
    {
        let ghost was_running = walker.state == WalkState::Running;
        if walker.accept(outcomes[i]) {
            kept = kept + 1;
        }
        proof {
            if was_running {
                lemma_first_failure_step(outcomes@, i as int);
            }
        }
        i = i + 1;
    }
    proof {
        if walker.state == WalkState::Running {
            lemma_first_failure_all(outcomes@);
        }
    }
    kept
}

/// The books among `results`, in order.
pub open spec fn ok_books(results: Seq<Result<Book, ExtractError>>) -> Seq<Book>
    decreases results.len(),
{
    if results.len() == 0 {
        Seq::empty()
    } else {
        match results.last() {
            Ok(b) => ok_books(results.drop_last()).push(b),
            Err(_) => ok_books(results.drop_last()),
        }
    }
}

/// The books that were read, in order; the pages that gave none are dropped.
pub fn collect_books(results: Vec<Result<Book, ExtractError>>) -> (r: Vec<Book>)
    ensures
        r@ == ok_books(results@),
{
    let ghost all = results@;
    let mut out: Vec<Book> = Vec::new();
    let mut rest = results;
    let ghost mut k: int = 0;
    assert(all.take(0) =~= Seq::<Result<Book, ExtractError>>::empty());
    assert(all.skip(0) =~= all);
    while rest.len() > 0
        invariant
            0 <= k <= all.len(),
            rest@ == all.skip(k),
            out@ == ok_books(all.take(k)),
        decreases rest@.len(),
    {
        let item = rest.remove(0);
        assert(all.take(k + 1).drop_last() =~= all.take(k));
        assert(rest@ =~= all.skip(k + 1));
        match item {
            Ok(b) => {
                out.push(b);
            },
            Err(_) => {},
        }
        proof {
            k = k + 1;
        }
    }
    assert(all.take(k) =~= all);
    out
}

/// Reading the same page texts twice gives the same outcome.
pub proof fn lemma_extraction_deterministic(
    f: PageFields,
    r1: Result<Book, ExtractError>,
    r2: Result<Book, ExtractError>,
)
    requires
        extracted_from(r1, f),
        extracted_from(r2, f),
    ensures
        r1 == r2,
{
    if r1 is Ok && r2 is Ok {
        let (b1, b2) = (r1->Ok_0, r2->Ok_0);
        assert(b1.title == b2.title && b1.upc == b2.upc && b1.price == b2.price);
        assert(b1 == b2);
    }
}

/// Crawling an unchanged catalogue again keeps the same books, with the
/// same fields, in the same number: each run reads its pages' texts into
/// the same outcomes.
pub proof fn lemma_rerun_same_books(
    pages: Seq<PageFields>,
    run1: Seq<Result<Book, ExtractError>>,
    run2: Seq<Result<Book, ExtractError>>,
)
    requires
        run1.len() == pages.len(),
        run2.len() == pages.len(),
        forall|i: int| 0 <= i < pages.len() ==> extracted_from(#[trigger] run1[i], pages[i]),
        forall|i: int| 0 <= i < pages.len() ==> extracted_from(#[trigger] run2[i], pages[i]),
    ensures
        ok_books(run1) == ok_books(run2),
        ok_books(run1).len() == ok_books(run2).len(),
{
    assert forall|i: int| 0 <= i < pages.len() implies run1[i] == run2[i] by {
        lemma_extraction_deterministic(pages[i], run1[i], run2[i]);
    }
    assert(run1 =~= run2);
}

} // verus!
