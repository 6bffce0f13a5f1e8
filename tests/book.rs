use book_scraper::book::{Book, ExtractError, PageFields};
use book_scraper::page::{book_page_urls, page_fields, selectors_compile};
use book_scraper::text::{count_or_zero, parse_int, rating_from_class, rating_from_word};

#[test]
fn test_parse_int() {
    assert_eq!(Ok(19), parse_int("In stock (19 available)"));
    assert_eq!(Ok(0), parse_int("Out of stock (0 available)"));
    assert!(parse_int("Out of stock").is_err());
    assert!(parse_int("In stock ( available)").is_err());
}

#[test]
fn parse_int_takes_first_run_only() {
    assert_eq!(Ok(12), parse_int("ab12cd34"));
    assert_eq!(Ok(7), parse_int("7"));
    assert_eq!(Ok(4294967295), parse_int("x4294967295"));
    assert!(parse_int("4294967296").is_err());
    assert!(parse_int("").is_err());
}

#[test]
fn counts_default_to_zero() {
    assert_eq!(19, count_or_zero("In stock (19 available)"));
    assert_eq!(0, count_or_zero("Out of stock (0 available)"));
    assert_eq!(0, count_or_zero("Out of stock"));
    assert_eq!(0, count_or_zero("99999999999"));
    assert_eq!(3, count_or_zero("3"));
}

#[test]
fn rating_words_map_to_positions() {
    assert_eq!(Some(0), rating_from_word("Zero"));
    assert_eq!(Some(3), rating_from_word("Three"));
    assert_eq!(Some(5), rating_from_word("Five"));
    assert_eq!(None, rating_from_word("Unknown"));
    assert_eq!(None, rating_from_word("three"));
    assert_eq!(Some(3), rating_from_class("star-rating Three"));
    assert_eq!(Some(1), rating_from_class("One"));
    assert_eq!(None, rating_from_class("star-rating Unknown"));
    assert_eq!(None, rating_from_class("star-rating Three "));
    assert_eq!(None, rating_from_class(""));
}

fn fields(price: Option<&str>, rating: Option<&str>) -> PageFields {
    PageFields {
        title: Some("A Light in the Attic".to_string()),
        upc: Some("a897fe39b1053632".to_string()),
        price: price.map(String::from),
        availability: Some("In stock (22 available)".to_string()),
        reviews: Some("0".to_string()),
        rating_class: rating.map(String::from),
    }
}

#[test]
fn book_from_all_fields() {
    let book = Book::from_fields(fields(Some("£51.77"), Some("star-rating Three"))).unwrap();
    assert_eq!("A Light in the Attic", book.title);
    assert_eq!("a897fe39b1053632", book.upc);
    assert_eq!("£51.77", book.price);
    assert_eq!(22, book.available);
    assert_eq!(0, book.reviews);
    assert_eq!(3, book.rating);
}

#[test]
fn book_errors() {
    let mut f = fields(Some("£1.00"), Some("star-rating One"));
    f.title = None;
    assert_eq!(ExtractError::MissingTitle, Book::from_fields(f).unwrap_err());
    let mut f = fields(Some("£1.00"), Some("star-rating One"));
    f.upc = None;
    assert_eq!(ExtractError::MissingUpc, Book::from_fields(f).unwrap_err());
    let f = fields(None, Some("star-rating One"));
    assert_eq!(ExtractError::MissingPrice, Book::from_fields(f).unwrap_err());
    let f = fields(Some("£1.00"), None);
    assert_eq!(ExtractError::MissingRating, Book::from_fields(f).unwrap_err());
    let f = fields(Some("£1.00"), Some("star-rating Unknown"));
    assert_eq!(ExtractError::UnknownRating, Book::from_fields(f).unwrap_err());
    let f = fields(None, None);
    assert_eq!(ExtractError::MissingPrice, Book::from_fields(f).unwrap_err());
}

#[test]
fn missing_counts_do_not_abort() {
    let mut f = fields(Some("£1.00"), Some("star-rating Five"));
    f.availability = None;
    f.reviews = Some("no reviews yet".to_string());
    let book = Book::from_fields(f).unwrap();
    assert_eq!(0, book.available);
    assert_eq!(0, book.reviews);
    assert_eq!(5, book.rating);
}

#[test]
fn book_new_keeps_fields() {
    let b = Book::new("t".to_string(), "u".to_string(), "p".to_string(), 1, 2, 4);
    assert_eq!(("t", "u", "p", 1, 2, 4), (b.title.as_str(), b.upc.as_str(), b.price.as_str(), b.available, b.reviews, b.rating));
}

const BOOK_PAGE: &str = r#"<html><body>
<div class="col-sm-6 product_main">
  <h1>A Light in the Attic</h1>
  <p class="price_color">£51.77</p>
  <p class="instock availability">
    In stock (22 available)
  </p>
  <p class="star-rating Three"></p>
</div>
<table class="table table-striped">
  <tbody>
  <tr><th>UPC</th><td>a897fe39b1053632</td></tr>
  <tr><th>Product Type</th><td>Books</td></tr>
  <tr><th>Number of reviews</th><td>0</td></tr>
  </tbody>
</table>
</body></html>"#;

#[test]
fn book_from_html_page() {
    let book = Book::from_html(BOOK_PAGE).unwrap();
    assert_eq!("A Light in the Attic", book.title);
    assert_eq!("a897fe39b1053632", book.upc);
    assert_eq!("£51.77", book.price);
    assert_eq!(22, book.available);
    assert_eq!(0, book.reviews);
    assert_eq!(3, book.rating);
}

#[test]
fn page_without_price_gives_no_book() {
    let html = BOOK_PAGE.replace("<p class=\"price_color\">£51.77</p>", "");
    let f = page_fields(&html);
    assert_eq!(None, f.price);
    assert_eq!(Some("A Light in the Attic".to_string()), f.title);
    assert_eq!(Some("star-rating Three".to_string()), f.rating_class);
    assert_eq!(ExtractError::MissingPrice, Book::from_html(&html).unwrap_err());
}

#[test]
fn unknown_rating_word_aborts_page() {
    let html = BOOK_PAGE.replace("star-rating Three", "star-rating Unknown");
    assert_eq!(ExtractError::UnknownRating, Book::from_html(&html).unwrap_err());
}

#[test]
fn listing_page_links() {
    let page = String::from(
        r#"<html><body><ol>
        <li><article class="product_pod"><a href="../../../a-light_1000/index.html" title="A">A</a></article></li>
        <li><article class="product_pod"><a title="no link">B</a></article></li>
        <li><article class="product_pod"><a href="tipping_999/index.html" title="C">C</a></article></li>
        <li><article class="other"><a href="x/index.html" title="D">D</a></article></li>
        </ol></body></html>"#,
    );
    assert_eq!(
        vec![
            "https://books.toscrape.com/catalogue/a-light_1000/index.html".to_string(),
            "https://books.toscrape.com/catalogue/tipping_999/index.html".to_string(),
        ],
        book_page_urls(&page)
    );
}

#[test]
fn page_selectors_compile() {
    assert!(selectors_compile());
}

#[test]
fn empty_title_gives_no_book() {
    let mut f = fields(Some("£1.00"), Some("star-rating Two"));
    f.title = Some(String::new());
    assert_eq!(ExtractError::MissingTitle, Book::from_fields(f).unwrap_err());
    let html = BOOK_PAGE.replace("<h1>A Light in the Attic</h1>", "<h1></h1>");
    assert_eq!(Some(String::new()), page_fields(&html).title);
    assert_eq!(ExtractError::MissingTitle, Book::from_html(&html).unwrap_err());
}

#[test]
fn page_fields_read_each_element() {
    let f = page_fields(BOOK_PAGE);
    assert_eq!(Some("A Light in the Attic".to_string()), f.title);
    assert_eq!(Some("a897fe39b1053632".to_string()), f.upc);
    assert_eq!(Some("£51.77".to_string()), f.price);
    assert_eq!(Some("0".to_string()), f.reviews);
    assert!(f.availability.unwrap().contains("In stock (22 available)"));
    let bare = BOOK_PAGE.replace("<p class=\"star-rating Three\"></p>", "");
    assert_eq!(None, page_fields(&bare).rating_class);
    assert_eq!(ExtractError::MissingRating, Book::from_html(&bare).unwrap_err());
}
