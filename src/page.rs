//! Reading the fields of a book, and the links to book pages, out of the
//! HTML text of a page.
use crate::book::{extracted_from, opt_text, Book, ExtractError, PageFields};
use crate::crawl::{opt_texts, resolve_links, resolved_links, texts};
use scraper::{Html, Selector};
use vstd::prelude::*;

verus! {

pub const TITLE_SELECTOR: &'static str = "div[class$='product_main'] h1";

pub const UPC_SELECTOR: &'static str = "tbody tr:first-of-type td";

pub const PRICE_SELECTOR: &'static str = "div[class$='product_main']  p[class^='price']";

pub const AVAILABILITY_SELECTOR: &'static str = "div[class$='product_main'] p[class^='instock']";

pub const REVIEWS_SELECTOR: &'static str = "tbody tr:last-of-type td";

pub const RATING_SELECTOR: &'static str = "div[class$='product_main'] p[class^='star-rating']";

pub const BOOK_LINK_SELECTOR: &'static str = "article.product_pod a[title]";

/// Whether the CSS selector group `selector` compiles.
pub uninterp spec fn selector_compiles(selector: Seq<char>) -> bool;

/// The whole text of the first element of the HTML document `page` that
/// the selector `selector` matches; `None` where no element matches or the
/// selector does not compile.
pub uninterp spec fn selected_text(page: Seq<char>, selector: Seq<char>) -> Option<Seq<char>>;

/// The attribute `name` of the first element of the HTML document `page`
/// that `selector` matches (`Some(None)` where the element lacks it);
/// `None` where no element matches or the selector does not compile.
pub uninterp spec fn selected_attr(page: Seq<char>, selector: Seq<char>, name: Seq<char>) -> Option<
    Option<Seq<char>>,
>;

/// The attribute `name` of each element of the HTML document `page` that
/// `selector` matches, in document order; empty where the selector does
/// not compile.
pub uninterp spec fn selected_attrs(page: Seq<char>, selector: Seq<char>, name: Seq<char>) -> Seq<
    Option<Seq<char>>,
>;

/// Relies on scraper::Selector::parse: whether it accepts `selector`.
#[verifier::external_body]
fn selector_is_valid(selector: &str) -> (r: bool)
    ensures
        r == selector_compiles(selector@),
{
    Selector::parse(selector).is_ok()
}

/// Relies on scraper::Html::parse_document, Selector::parse, Html::select
/// and ElementRef::text: the text of the first match.
#[verifier::external_body]
fn first_text(page: &str, selector: &str) -> (r: Option<String>)
    ensures
        opt_text(r) == selected_text(page@, selector@),
{
    let selector = Selector::parse(selector).ok()?;
    let html = Html::parse_document(page);
    match html.select(&selector).next() {
        Some(elem) => Some(elem.text().collect()),
        None => None,
    }
}

/// Relies on scraper::Html::parse_document, Selector::parse, Html::select
/// and Element::attr: the attribute `name` of the first match.
#[verifier::external_body]
fn first_attr(page: &str, selector: &str, name: &str) -> (r: Option<Option<String>>)
    ensures
        match r {
            Some(a) => selected_attr(page@, selector@, name@) == Some(opt_text(a)),
            None => selected_attr(page@, selector@, name@) is None,
        },
{
    let selector = Selector::parse(selector).ok()?;
    let html = Html::parse_document(page);
    match html.select(&selector).next() {
        Some(elem) => Some(elem.value().attr(name).map(String::from)),
        None => None,
    }
}

/// Relies on scraper::Html::parse_document, Selector::parse, Html::select
/// and Element::attr: the attribute `name` of every match, in order.
#[verifier::external_body]
fn all_attrs(page: &str, selector: &str, name: &str) -> (r: Vec<Option<String>>)
    ensures
        opt_texts(r@) == selected_attrs(page@, selector@, name@),
{
    let selector = match Selector::parse(selector) {
        Ok(s) => s,
        Err(_) => return Vec::new(),
    };
    let html = Html::parse_document(page);
    html.select(&selector).map(|elem| elem.value().attr(name).map(String::from)).collect()
}

/// Whether all the selectors of the book and listing pages compile.
pub open spec fn all_selectors_compile() -> bool {
    &&& selector_compiles(TITLE_SELECTOR@)
    &&& selector_compiles(UPC_SELECTOR@)
    &&& selector_compiles(PRICE_SELECTOR@)
    &&& selector_compiles(AVAILABILITY_SELECTOR@)
    &&& selector_compiles(REVIEWS_SELECTOR@)
    &&& selector_compiles(RATING_SELECTOR@)
    &&& selector_compiles(BOOK_LINK_SELECTOR@)
}

/// Checks, once before a crawl, that every selector the pages are read
/// with compiles.
pub fn selectors_compile() -> (r: bool)
    ensures
        r == all_selectors_compile(),
{
    selector_is_valid(TITLE_SELECTOR) && selector_is_valid(UPC_SELECTOR) && selector_is_valid(
        PRICE_SELECTOR,
    ) && selector_is_valid(AVAILABILITY_SELECTOR) && selector_is_valid(REVIEWS_SELECTOR)
        && selector_is_valid(RATING_SELECTOR) && selector_is_valid(BOOK_LINK_SELECTOR)
}

/// The class of the rating element of `page`: its `class` attribute, empty
/// where it has none; `None` where there is no such element.
pub open spec fn rating_class_of(page: Seq<char>) -> Option<Seq<char>> {
    match selected_attr(page, RATING_SELECTOR@, seq!['c', 'l', 'a', 's', 's']) {
        Some(Some(c)) => Some(c),
        Some(None) => Some(Seq::empty()),
        None => None,
    }
}

/// `f` holds the texts of the book page `page`, each read with its field's
/// selector.
pub open spec fn fields_of_page(f: PageFields, page: Seq<char>) -> bool {
    &&& opt_text(f.title) == selected_text(page, TITLE_SELECTOR@)
    &&& opt_text(f.upc) == selected_text(page, UPC_SELECTOR@)
    &&& opt_text(f.price) == selected_text(page, PRICE_SELECTOR@)
    &&& opt_text(f.availability) == selected_text(page, AVAILABILITY_SELECTOR@)
    &&& opt_text(f.reviews) == selected_text(page, REVIEWS_SELECTOR@)
    &&& opt_text(f.rating_class) == rating_class_of(page)
}

/// The texts of the fields of the book page whose HTML is `page`.
pub fn page_fields(page: &str) -> (r: PageFields)
    ensures
        fields_of_page(r, page@),
{
    proof {
        reveal_strlit("class");
        assert("class"@ =~= seq!['c', 'l', 'a', 's', 's']);
    }
    let rating_class = match first_attr(page, RATING_SELECTOR, "class") {
        Some(Some(c)) => Some(c),
        Some(None) => Some(String::new()),
        None => None,
    };
    PageFields {
        title: first_text(page, TITLE_SELECTOR),
        upc: first_text(page, UPC_SELECTOR),
        price: first_text(page, PRICE_SELECTOR),
        availability: first_text(page, AVAILABILITY_SELECTOR),
        reviews: first_text(page, REVIEWS_SELECTOR),
        rating_class,
    }
}

impl Book {
    /// The book that the page whose HTML is `page` describes, or why it
    /// describes none: [`Book::from_fields`] on the texts of its fields.
    pub fn from_html(page: &str) -> (r: Result<Book, ExtractError>)
        ensures
            exists|f: PageFields| fields_of_page(f, page@) && extracted_from(r, f),
    {
        let fields = page_fields(page);
        let ghost f = fields;
        let r = Book::from_fields(fields);
        assert(fields_of_page(f, page@) && extracted_from(r, f));
        r
    }
}

/// The URLs of the book pages that the listing page whose HTML is `page`
/// links to, in order: the `href` of each link, resolved as
/// [`resolve_links`] does.
pub fn book_page_urls(page: &str) -> (r: Vec<String>)
    ensures
        texts(r@) == resolved_links(
            selected_attrs(page@, BOOK_LINK_SELECTOR@, seq!['h', 'r', 'e', 'f']),
        ),
{
    proof {
        reveal_strlit("href");
        assert("href"@ =~= seq!['h', 'r', 'e', 'f']);
    }
    let hrefs = all_attrs(page, BOOK_LINK_SELECTOR, "href");
    resolve_links(&hrefs)
}

} // verus!
