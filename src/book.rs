//! A book record and the rules that build it from the texts of its page.
use crate::text::{count_in, count_or_zero, last_word, rating_from_class, rating_of};
use vstd::prelude::*;

verus! {

/// A book read from its page.
#[derive(Debug)]
pub struct Book {
    pub title: String,
    /// The book's identifier in the catalogue (its UPC).
    pub upc: String,
    /// The price as displayed, currency symbol included.
    pub price: String,
    /// The number of copies in stock.
    pub available: u32,
    /// The number of reviews.
    pub reviews: u32,
    /// The star rating, from 0 to 5.
    pub rating: u8,
}

/// Why no book could be read from a page.
#[derive(Debug, Clone, Copy, PartialEq, Eq, Structural)]
pub enum ExtractError {
    /// The page has no title, or an empty one.
    MissingTitle,
    MissingUpc,
    MissingPrice,
    MissingRating,
    /// The rating element's class does not end in a rating word.
    UnknownRating,
}

/// The texts that a book page holds for each field of a book, `None` where
/// the page has no such element.
pub struct PageFields {
    /// The heading of the main product region.
    pub title: Option<String>,
    /// The cell of the first row of the product table.
    pub upc: Option<String>,
    /// The price element of the main product region.
    pub price: Option<String>,
    /// The stock element of the main product region.
    pub availability: Option<String>,
    /// The cell of the last row of the product table.
    pub reviews: Option<String>,
    /// The class attribute of the star-rating element (empty where the
    /// element has none).
    pub rating_class: Option<String>,
}

/// The text of an optional string.
pub open spec fn opt_text(o: Option<String>) -> Option<Seq<char>> {
    match o {
        Some(s) => Some(s@),
        None => None,
    }
}

/// The count that an optional text gives: 0 where it is absent or holds none.
pub open spec fn optional_count(t: Option<String>) -> u32 {
    match t {
        Some(s) => count_in(s@),
        None => 0,
    }
}

/// The first reason, in the order title, identifier, price, rating, for
/// which `f` makes no book; `None` where it makes one.
pub open spec fn extraction_error(f: PageFields) -> Option<ExtractError> {
    if f.title is None || f.title->0@.len() == 0 {
        Some(ExtractError::MissingTitle)
    } else if f.upc is None {
        Some(ExtractError::MissingUpc)
    } else if f.price is None {
        Some(ExtractError::MissingPrice)
    } else if f.rating_class is None {
        Some(ExtractError::MissingRating)
    } else if rating_of(last_word(f.rating_class->0@)) is None {
        Some(ExtractError::UnknownRating)
    } else {
        None
    }
}

/// `b` is the book that the texts `f` describe.
pub open spec fn is_book_of(b: Book, f: PageFields) -> bool {
    &&& f.title == Some(b.title)
    &&& b.title@.len() > 0
    &&& f.upc == Some(b.upc)
    &&& f.price == Some(b.price)
    &&& b.available == optional_count(f.availability)
    &&& b.reviews == optional_count(f.reviews)
    &&& f.rating_class is Some
    &&& rating_of(last_word(f.rating_class->0@)) == Some(b.rating)
}

/// `r` is what the texts `f` give: the first error, or the book.
pub open spec fn extracted_from(r: Result<Book, ExtractError>, f: PageFields) -> bool {
    match extraction_error(f) {
        Some(e) => r == Err::<Book, ExtractError>(e),
        None => r is Ok && is_book_of(r->Ok_0, f),
    }
}

/// The counts of copies and reviews never stop a book from being read:
/// whether texts make a book, and which error they give, does not depend on
/// those two texts.
pub proof fn lemma_counts_never_abort(f: PageFields, g: PageFields)
    requires
        f.title == g.title,
        f.upc == g.upc,
        f.price == g.price,
        f.rating_class == g.rating_class,
    ensures
        extraction_error(f) == extraction_error(g),
{
}

impl Book {
    pub fn new(
        title: String,
        upc: String,
        price: String,
        available: u32,
        reviews: u32,
        rating: u8,
    ) -> (r: Book)
        ensures
            r.title == title,
            r.upc == upc,
            r.price == price,
            r.available == available,
            r.reviews == reviews,
            r.rating == rating,
    {
        Book { title, upc, price, available, reviews, rating }
    }

    /// The book that the texts of a page describe. Title, identifier,
    /// price and rating are required, and the title must not be empty; a
    /// missing or unreadable count of copies or reviews is 0.
    pub fn from_fields(fields: PageFields) -> (r: Result<Book, ExtractError>)
        ensures
            extracted_from(r, fields),
    {
        let ghost f = fields;
        let PageFields { title, upc, price, availability, reviews, rating_class } = fields;
        let title = match title {
            Some(t) => t,
            None => return Err(ExtractError::MissingTitle),
        };
        if title.as_str().is_empty() {
            return Err(ExtractError::MissingTitle);
        }
        let upc = match upc {
            Some(u) => u,
            None => return Err(ExtractError::MissingUpc),
        };
        let price = match price {
            Some(p) => p,
            None => return Err(ExtractError::MissingPrice),
        };
        let available = match &availability {
            Some(a) => count_or_zero(a.as_str()),
            None => 0,
        };
        let reviews = match &reviews {
            Some(t) => count_or_zero(t.as_str()),
            None => 0,
        };
        let rating = match &rating_class {
            Some(c) => match rating_from_class(c.as_str()) {
                Some(k) => k,
                None => return Err(ExtractError::UnknownRating),
            },
            None => return Err(ExtractError::MissingRating),
        };
        Ok(Book::new(title, upc, price, available, reviews, rating))
    }
}

} // verus!
