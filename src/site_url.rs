//! Absolute URLs of the catalogue, built from page numbers and relative paths.
use url::ParseError;
use url::Url;
use vstd::prelude::*;
use vstd::string::*;

verus! {

/// The site's home page, onto which every path is resolved.
pub const HOMEPAGE: &'static str = "https://books.toscrape.com/";

/// The directory that holds the listing pages and the book pages.
pub const CATALOGUE: &'static str = "catalogue/";

#[verifier::external_type_specification]
#[verifier::external_body]
pub struct ExParseError(ParseError);

/// The serialisation of the URL that `path` denotes when resolved against the
/// absolute URL `base`, or `None` where either does not parse.
pub uninterp spec fn url_join(base: Seq<char>, path: Seq<char>) -> Option<Seq<char>>;

/// Relies on url::Url::parse of `base`, then Url::join of `path` onto it, and
/// the serialisation of the result: the outcome depends on the two strings alone.
#[verifier::external_body]
fn resolve_url(base: &str, path: &str) -> (r: Result<String, ParseError>)
    ensures
        url_result(r, url_join(base@, path@)),
{
    Ok(Url::parse(base)?.join(path)?.to_string())
}

/// `r` is the URL `o` describes: `Ok` with its text where there is one, `Err` where not.
pub open spec fn url_result(r: Result<String, ParseError>, o: Option<Seq<char>>) -> bool {
    match r {
        Ok(s) => o == Some(s@),
        Err(_) => o is None,
    }
}

/// `s` without its leading `/` characters.
pub open spec fn strip_slashes(s: Seq<char>) -> Seq<char>
    decreases s.len(),
{
    if s.len() > 0 && s[0] == '/' {
        strip_slashes(s.drop_first())
    } else {
        s
    }
}

/// The three characters `../`.
pub open spec fn parent_step() -> Seq<char> {
    seq!['.', '.', '/']
}

/// `s` without its leading `../` segments.
pub open spec fn strip_parents(s: Seq<char>) -> Seq<char>
    decreases s.len(),
{
    if s.len() >= 3 && s.take(3) == parent_step() {
        strip_parents(s.skip(3))
    } else {
        s
    }
}

/// The URL of `path` under the home page, a leading `/` staying under it.
pub open spec fn site_url(path: Seq<char>) -> Option<Seq<char>> {
    url_join(HOMEPAGE@, strip_slashes(path))
}

/// The URL of the book page that the link `href` of a listing page points to.
pub open spec fn detail_url(href: Seq<char>) -> Option<Seq<char>> {
    match site_url(CATALOGUE@) {
        Some(base) => url_join(base, strip_parents(href)),
        None => None,
    }
}

/// The decimal digit `d` as a character.
pub open spec fn digit_char(d: nat) -> char {
    if d == 0 { '0' }
    else if d == 1 { '1' }
    else if d == 2 { '2' }
    else if d == 3 { '3' }
    else if d == 4 { '4' }
    else if d == 5 { '5' }
    else if d == 6 { '6' }
    else if d == 7 { '7' }
    else if d == 8 { '8' }
    else { '9' }
}

/// The decimal notation of `n`, without leading zeros.
pub open spec fn decimal(n: nat) -> Seq<char>
    decreases n,
{
    if n < 10 {
        seq![digit_char(n)]
    } else {
        decimal(n / 10).push(digit_char(n % 10))
    }
}

/// The path of listing page `page`: `catalogue/page-<page>.html`.
pub open spec fn listing_path(page: nat) -> Seq<char> {
    CATALOGUE@ + seq!['p', 'a', 'g', 'e', '-'] + decimal(page) + seq!['.', 'h', 't', 'm', 'l']
}

/// The URL of listing page `page`.
pub open spec fn listing_url(page: nat) -> Option<Seq<char>> {
    site_url(listing_path(page))
}

/// The text of the decimal digit `d`.
fn digit_str(d: u32) -> (r: &'static str)
    requires
        d < 10,
    ensures
        r@ == seq![digit_char(d as nat)],
{
    proof {
        reveal_strlit("0");
        reveal_strlit("1");
        reveal_strlit("2");
        reveal_strlit("3");
        reveal_strlit("4");
        reveal_strlit("5");
        reveal_strlit("6");
        reveal_strlit("7");
        reveal_strlit("8");
        reveal_strlit("9");
    }
    if d == 0 { "0" }
    else if d == 1 { "1" }
    else if d == 2 { "2" }
    else if d == 3 { "3" }
    else if d == 4 { "4" }
    else if d == 5 { "5" }
    else if d == 6 { "6" }
    else if d == 7 { "7" }
    else if d == 8 { "8" }
    else { "9" }
}

/// Appends the decimal notation of `n` to `out`.
fn push_decimal(out: &mut String, n: u32)
    ensures
        final(out)@ == old(out)@ + decimal(n as nat),
    decreases n,
{
    if n >= 10 {
        push_decimal(out, n / 10);
    }
    out.append(digit_str(n % 10));
    assert(final(out)@ =~= old(out)@ + decimal(n as nat));
}

/// The path of listing page `page`, relative to the home page.
pub fn listing_page_path(page: u32) -> (r: String)
    ensures
        r@ == listing_path(page as nat),
{
    let mut path = String::from_str(CATALOGUE);
    proof {
        reveal_strlit("page-");
        reveal_strlit(".html");
    }
    path.append("page-");
    push_decimal(&mut path, page);
    path.append(".html");
    assert(path@ =~= listing_path(page as nat));
    path
}

/// `path` without its leading `/` characters.
pub fn trim_leading_slashes(path: &str) -> (r: &str)
    ensures
        r@ == strip_slashes(path@),
{
    let n = path.unicode_len();
    let mut i: usize = 0;
    assert(path@.skip(0) =~= path@);
    while i < n && path.get_char(i) == '/'
        invariant
            n == path@.len(),
            i <= n,
            strip_slashes(path@.skip(i as int)) == strip_slashes(path@),
        decreases n - i,
    {
        assert(path@.skip(i as int).drop_first() =~= path@.skip(i + 1));
        i = i + 1;
    }
    path.substring_char(i, n)
}

/// `path` without its leading `../` segments.
pub fn trim_leading_parents(path: &str) -> (r: &str)
    ensures
        r@ == strip_parents(path@),
{
    let n = path.unicode_len();
    let mut i: usize = 0;
    assert(path@.skip(0) =~= path@);
    while n - i >= 3 && path.get_char(i) == '.' && path.get_char(i + 1) == '.'
        && path.get_char(i + 2) == '/'
        invariant
            n == path@.len(),
            i <= n,
            strip_parents(path@.skip(i as int)) == strip_parents(path@),
        decreases n - i,
    {
        assert(path@.skip(i as int).take(3) =~= parent_step());
        assert(path@.skip(i as int).skip(3) =~= path@.skip(i + 3));
        i = i + 3;
    }
    let rest = path.substring_char(i, n);
    assert(rest@ =~= path@.skip(i as int));
    if n - i >= 3 {
        assert(rest@.take(3)[0] == path@[i as int]);
        assert(rest@.take(3)[1] == path@[i + 1]);
        assert(rest@.take(3)[2] == path@[i + 2]);
    }
    rest
}

/// The URL of `path` under the home page. A leading `/` does not lead out
/// of it: `/multiple/paths` gives the same URL as `multiple/paths`.
pub fn build_books_toscrape_url(path: &str) -> (r: Result<String, ParseError>)
    ensures
        url_result(r, site_url(path@)),
{
    resolve_url(HOMEPAGE, trim_leading_slashes(path))
}

/// The URL of the book page that the link `path` of a listing page points
/// to: its leading `../` segments are dropped and the rest is resolved
/// under the catalogue directory.
pub fn build_book_page_url(path: &str) -> (r: Result<String, ParseError>)
    ensures
        url_result(r, detail_url(path@)),
{
    match build_books_toscrape_url(CATALOGUE) {
        Ok(base) => resolve_url(base.as_str(), trim_leading_parents(path)),
        Err(e) => Err(e),
    }
}

/// The URL of listing page `page`, where it resolves; see [`build_catelogue_url`].
pub fn listing_page_url(page: u32) -> (r: Result<String, ParseError>)
    ensures
        url_result(r, listing_url(page as nat)),
{
    build_books_toscrape_url(listing_page_path(page).as_str())
}

/// The URL of listing page `page`: `<home page>catalogue/page-<page>.html`.
pub fn build_catelogue_url(page: u32) -> (r: String)
    requires
        listing_url(page as nat) is Some,
    ensures
        Some(r@) == listing_url(page as nat),
{
    match listing_page_url(page) {
        Ok(u) => u,
        Err(_) => {
            assert(false);
            String::new()
        }
    }
}

/// `r` is the URL `o` describes: present with its text where there is one.
pub open spec fn url_option(r: Option<String>, o: Option<Seq<char>>) -> bool {
    match r {
        Some(s) => o == Some(s@),
        None => o is None,
    }
}

/// Hands out the URLs of the listing pages in order, from page 1 on, as
/// far as a `u32` counts; the crawl ends them at its first failed page.
pub struct CatelogueUrlIterator {
    /// The number of the last page handed out; 0 before the first.
    pub count: u32,
}

impl CatelogueUrlIterator {
    pub fn new() -> (r: CatelogueUrlIterator)
        ensures
            r.count == 0,
    {
        CatelogueUrlIterator { count: 0 }
    }

    /// The URL of the next listing page; `None` where it does not resolve,
    /// or once the page number would pass `u32::MAX`.
    pub fn next(&mut self) -> (r: Option<String>)
        ensures
            next_step(*old(self), r, *final(self)),
    {
        if self.count < u32::MAX {
            self.count = self.count + 1;
            let page = self.count;
            if listing_page_url(page).is_ok() {
                Some(build_catelogue_url(page))
            } else {
                None
            }
        } else {
            None
        }
    }
}

/// One call of [`CatelogueUrlIterator::next`]: from `before` it hands out
/// `r` and leaves `after`.
pub open spec fn next_step(before: CatelogueUrlIterator, r: Option<String>, after: CatelogueUrlIterator) -> bool {
    if before.count < u32::MAX {
        after.count == before.count + 1 && url_option(r, listing_url(after.count as nat))
    } else {
        after.count == before.count && r is None
    }
}

/// Every run starts again from page 1: the `i`-th call of `next` on a new
/// iterator hands out the URL of listing page `i`, whatever ran before.
pub proof fn lemma_run_hands_out_pages_in_order(
    states: Seq<CatelogueUrlIterator>,
    items: Seq<Option<String>>,
)
    requires
        states.len() == items.len() + 1,
        states.len() <= u32::MAX,
        states[0].count == 0,
        forall|i: int| 0 <= i < items.len() ==> next_step(#[trigger] states[i], items[i], states[i + 1]),
    ensures
        forall|i: int| 0 <= i < items.len() ==> url_option(#[trigger] items[i], listing_url((i + 1) as nat)),
{
    assert forall|i: int| 0 <= i < items.len() implies url_option(
        #[trigger] items[i],
        listing_url((i + 1) as nat),
    ) by {
        lemma_run_counts(states, items, i);
        assert(next_step(states[i], items[i], states[i + 1]));
    }
}

proof fn lemma_run_counts(states: Seq<CatelogueUrlIterator>, items: Seq<Option<String>>, i: int)
    requires
        states.len() == items.len() + 1,
        states.len() <= u32::MAX,
        states[0].count == 0,
        forall|j: int| 0 <= j < items.len() ==> next_step(#[trigger] states[j], items[j], states[j + 1]),
        0 <= i < states.len(),
    ensures
        states[i].count == i,
    decreases i,
{
    if i > 0 {
        lemma_run_counts(states, items, i - 1);
        assert(next_step(states[i - 1], items[i - 1], states[i]));
    }
}

/// A leading `/` does not take a path out of the site's base: `/p` and `p`
/// denote the same URL.
pub proof fn lemma_leading_slash_ignored(path: Seq<char>)
    ensures
        site_url(seq!['/'] + path) == site_url(path),
{
    assert((seq!['/'] + path).drop_first() =~= path);
}

/// A leading `../` segment of a book link is ignored: `../p` and `p` lead to
/// the same book page.
pub proof fn lemma_parent_segment_ignored(href: Seq<char>)
    ensures
        detail_url(parent_step() + href) == detail_url(href),
{
    assert((parent_step() + href).take(3) =~= parent_step());
    assert((parent_step() + href).skip(3) =~= href);
}

} // verus!
