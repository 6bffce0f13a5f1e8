use book_scraper::book::{Book, ExtractError, PageFields};
use book_scraper::crawl::{
    collect_books, pages_kept, resolve_all_links, resolve_links, ListingWalker, WalkState,
};

fn href(s: &str) -> Option<String> {
    Some(s.to_string())
}

fn detail_fields(i: usize, with_price: bool) -> PageFields {
    PageFields {
        title: Some(format!("Book {i}")),
        upc: Some(format!("upc{i}")),
        price: if with_price { Some(format!("£{i}.00")) } else { None },
        availability: Some(format!("In stock ({i} available)")),
        reviews: Some("0".to_string()),
        rating_class: Some("star-rating Four".to_string()),
    }
}

#[test]
fn walker_keeps_pages_until_first_failure() {
    let mut walker = ListingWalker::new();
    assert!(walker.accept(true));
    assert!(walker.accept(true));
    assert!(!walker.accept(false));
    assert_eq!(WalkState::Exhausted, walker.state);
    assert!(!walker.accept(true));
    assert_eq!(2, walker.pages_read);
    assert_eq!(WalkState::Exhausted, walker.state);
}

#[test]
fn walker_aborts_on_first_page() {
    let mut walker = ListingWalker::new();
    assert!(!walker.accept(false));
    assert_eq!(WalkState::Aborted, walker.state);
    assert_eq!(0, walker.pages_read);
}

#[test]
fn pages_before_first_failure() {
    assert_eq!(4, pages_kept(&vec![true, true, true, true, false, true]));
    assert_eq!(0, pages_kept(&vec![false, true]));
    assert_eq!(3, pages_kept(&vec![true, true, true]));
    assert_eq!(0, pages_kept(&vec![]));
}

#[test]
fn links_skip_absent_and_unresolvable() {
    let links = resolve_links(&vec![href("../../a_1/index.html"), None, href("http://[::1"), href("b_2/index.html")]);
    assert_eq!(
        vec![
            "https://books.toscrape.com/catalogue/a_1/index.html".to_string(),
            "https://books.toscrape.com/catalogue/b_2/index.html".to_string(),
        ],
        links
    );
    assert!(resolve_links(&vec![]).is_empty());
}

#[test]
fn books_keep_order_and_drop_errors() {
    let results: Vec<Result<Book, ExtractError>> = vec![
        Book::from_fields(detail_fields(1, true)),
        Err(ExtractError::MissingTitle),
        Book::from_fields(detail_fields(3, true)),
    ];
    let books = collect_books(results);
    assert_eq!(2, books.len());
    assert_eq!("Book 1", books[0].title);
    assert_eq!("Book 3", books[1].title);
    assert!(collect_books(vec![]).is_empty());
}

fn crawl(outcomes: &Vec<bool>, listing_links: &Vec<Vec<Option<String>>>, missing_price: usize) -> (usize, usize, Vec<Book>) {
    let kept = pages_kept(outcomes);
    let pages: Vec<Vec<Option<String>>> = listing_links[..kept].to_vec();
    let urls = resolve_all_links(&pages);
    let results: Vec<Result<Book, ExtractError>> = urls
        .iter()
        .enumerate()
        .map(|(i, _)| Book::from_fields(detail_fields(i, i != missing_price)))
        .collect();
    (kept, urls.len(), collect_books(results))
}

fn four_listing_pages() -> Vec<Vec<Option<String>>> {
    (1..=5)
        .map(|p| vec![href(&format!("../../../b{p}a/index.html")), href(&format!("../../../b{p}b/index.html"))])
        .collect()
}

#[test]
fn crawl_halts_after_fourth_page() {
    let outcomes = vec![true, true, true, true, false];
    let (kept, attempted, books) = crawl(&outcomes, &four_listing_pages(), 5);
    assert_eq!(4, kept);
    assert_eq!(8, attempted);
    assert_eq!(7, books.len());
    assert!(books.iter().all(|b| b.rating == 4));
}

#[test]
fn crawl_again_gives_same_books() {
    let outcomes = vec![true, true, true, true, false];
    let (_, _, first) = crawl(&outcomes, &four_listing_pages(), 2);
    let (_, _, second) = crawl(&outcomes, &four_listing_pages(), 2);
    assert_eq!(first.len(), second.len());
    for (a, b) in first.iter().zip(second.iter()) {
        assert_eq!(
            (&a.title, &a.upc, &a.price, a.available, a.reviews, a.rating),
            (&b.title, &b.upc, &b.price, b.available, b.reviews, b.rating)
        );
    }
}
