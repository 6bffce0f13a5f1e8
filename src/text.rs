//! Reading numbers and ratings out of the text of a book page.
use std::num::ParseIntError;
use vstd::prelude::*;
use vstd::string::*;

verus! {

#[verifier::external_type_specification]
#[verifier::external_body]
pub struct ExParseIntError(ParseIntError);

pub open spec fn is_digit(c: char) -> bool {
    '0' <= c && c <= '9'
}

pub open spec fn all_digits(s: Seq<char>) -> bool {
    forall|i: int| 0 <= i < s.len() ==> is_digit(#[trigger] s[i])
}

/// The value of the decimal digits `d`, most significant first.
pub open spec fn digits_value(d: Seq<char>) -> nat
    decreases d.len(),
{
    if d.len() == 0 {
        0
    } else {
        digits_value(d.drop_last()) * 10 + (d.last() as int - '0' as int) as nat
    }
}

/// `s` from its first digit on.
pub open spec fn skip_non_digits(s: Seq<char>) -> Seq<char>
    decreases s.len(),
{
    if s.len() > 0 && !is_digit(s[0]) {
        skip_non_digits(s.drop_first())
    } else {
        s
    }
}

/// The digits at the start of `s`, up to the first other character.
pub open spec fn take_digits(s: Seq<char>) -> Seq<char>
    decreases s.len(),
{
    if s.len() > 0 && is_digit(s[0]) {
        seq![s[0]] + take_digits(s.drop_first())
    } else {
        Seq::empty()
    }
}

/// The first run of digits in `s`; empty where `s` holds none.
pub open spec fn digit_run(s: Seq<char>) -> Seq<char> {
    take_digits(skip_non_digits(s))
}

/// Whether the first run of digits in `s` exists and its value fits in a `u32`.
pub open spec fn has_count(s: Seq<char>) -> bool {
    digit_run(s).len() > 0 && digits_value(digit_run(s)) <= u32::MAX
}

/// Relies on `str::parse::<u32>` (u32's `FromStr`): a string of decimal
/// digits parses if and only if it is not empty and its value fits.
#[verifier::external_body]
fn parse_u32(s: &str) -> (r: Result<u32, ParseIntError>)
    ensures
        all_digits(s@) ==> (r is Ok <==> (s@.len() > 0 && digits_value(s@) <= u32::MAX)),
        all_digits(s@) && r is Ok ==> r->Ok_0 as nat == digits_value(s@),
{
    s.parse::<u32>()
}

proof fn lemma_take_digits_all_digits(s: Seq<char>)
    ensures
        all_digits(take_digits(s)),
    decreases s.len(),
{
    if s.len() > 0 && is_digit(s[0]) {
        lemma_take_digits_all_digits(s.drop_first());
        let t = take_digits(s.drop_first());
        assert forall|i: int| 0 <= i < (seq![s[0]] + t).len() implies is_digit(
            #[trigger] (seq![s[0]] + t)[i],
        ) by {
            if i > 0 {
                assert((seq![s[0]] + t)[i] == t[i - 1]);
            }
        }
    }
}

/// The first run of ASCII digits in `input`, read as a `u32`: an error
/// where `input` holds no digit or the run does not fit.
pub fn parse_int(input: &str) -> (r: Result<u32, ParseIntError>)
    ensures
        r is Ok <==> has_count(input@),
        r is Ok ==> r->Ok_0 as nat == digits_value(digit_run(input@)),
{
    let n = input.unicode_len();
    let mut i: usize = 0;
    assert(input@.skip(0) =~= input@);
    while i < n && !(input.get_char(i) >= '0' && input.get_char(i) <= '9')
        invariant
            n == input@.len(),
            i <= n,
            skip_non_digits(input@.skip(i as int)) == skip_non_digits(input@),
        decreases n - i,
    {
        assert(input@.skip(i as int).drop_first() =~= input@.skip(i + 1));
        i = i + 1;
    }
    assert(skip_non_digits(input@) == input@.skip(i as int));
    let mut j: usize = i;
    assert(input@.subrange(i as int, i as int) + input@.skip(i as int) =~= input@.skip(i as int));
    while j < n && input.get_char(j) >= '0' && input.get_char(j) <= '9'
        invariant
            n == input@.len(),
            i <= j <= n,
            skip_non_digits(input@) == input@.skip(i as int),
            take_digits(input@.skip(i as int)) == input@.subrange(i as int, j as int)
                + take_digits(input@.skip(j as int)),
        decreases n - j,
    {
        assert(input@.skip(j as int).drop_first() =~= input@.skip(j + 1));
        assert(input@.subrange(i as int, j as int) + seq![input@[j as int]]
            =~= input@.subrange(i as int, j + 1));
        j = j + 1;
    }
    assert(take_digits(input@.skip(j as int)) =~= Seq::<char>::empty());
    assert(digit_run(input@) =~= input@.subrange(i as int, j as int));
    proof {
        lemma_take_digits_all_digits(input@.skip(i as int));
    }
    parse_u32(input.substring_char(i, j))
}

/// The number that the first run of digits in `s` gives a count: its value,
/// or 0 where there is none or it does not fit.
pub open spec fn count_in(s: Seq<char>) -> u32 {
    if has_count(s) {
        digits_value(digit_run(s)) as u32
    } else {
        0
    }
}

proof fn lemma_skip_without_digits(s: Seq<char>)
    requires
        forall|i: int| 0 <= i < s.len() ==> !is_digit(#[trigger] s[i]),
    ensures
        skip_non_digits(s).len() == 0,
    decreases s.len(),
{
    if s.len() > 0 {
        assert forall|i: int| 0 <= i < s.drop_first().len() implies !is_digit(
            #[trigger] s.drop_first()[i],
        ) by {
            assert(s.drop_first()[i] == s[i + 1]);
        }
        lemma_skip_without_digits(s.drop_first());
    }
}

/// A text without digits counts 0.
pub proof fn lemma_no_digits_count_zero(s: Seq<char>)
    requires
        forall|i: int| 0 <= i < s.len() ==> !is_digit(#[trigger] s[i]),
    ensures
        count_in(s) == 0,
{
    lemma_skip_without_digits(s);
}

/// The count read from `text`, 0 where it holds none.
pub fn count_or_zero(text: &str) -> (r: u32)
    ensures
        r == count_in(text@),
{
    match parse_int(text) {
        Ok(v) => v,
        Err(_) => 0,
    }
}

/// The part of `s` after its last space; all of `s` where it has none.
pub open spec fn last_word(s: Seq<char>) -> Seq<char>
    decreases s.len(),
{
    if s.len() == 0 {
        s
    } else if s.last() == ' ' {
        Seq::empty()
    } else {
        last_word(s.drop_last()).push(s.last())
    }
}

/// The word that names rating `k`, from `Zero` to `Five`.
pub open spec fn rating_word(k: nat) -> Seq<char> {
    if k == 0 { seq!['Z', 'e', 'r', 'o'] }
    else if k == 1 { seq!['O', 'n', 'e'] }
    else if k == 2 { seq!['T', 'w', 'o'] }
    else if k == 3 { seq!['T', 'h', 'r', 'e', 'e'] }
    else if k == 4 { seq!['F', 'o', 'u', 'r'] }
    else { seq!['F', 'i', 'v', 'e'] }
}

/// The number of rating words.
pub const RATING_WORDS: u8 = 6;

/// The rating that `word` names, if it is one of the rating words.
pub open spec fn rating_of(word: Seq<char>) -> Option<u8> {
    if exists|k: nat| k < RATING_WORDS && rating_word(k) == word {
        Some((choose|k: nat| k < RATING_WORDS && rating_word(k) == word) as u8)
    } else {
        None
    }
}

/// The rating words are distinct, so a word names at most one rating.
pub proof fn lemma_rating_words_distinct(j: nat, k: nat)
    requires
        j < RATING_WORDS,
        k < RATING_WORDS,
        rating_word(j) == rating_word(k),
    ensures
        j == k,
{
    if j != k {
        let a = rating_word(j);
        let b = rating_word(k);
        assert(a.len() != b.len() || a[0] != b[0] || a[1] != b[1]);
    }
}

fn rating_word_text(k: u8) -> (r: &'static str)
    requires
        k < RATING_WORDS,
    ensures
        r@ == rating_word(k as nat),
{
    proof {
        reveal_strlit("Zero");
        reveal_strlit("One");
        reveal_strlit("Two");
        reveal_strlit("Three");
        reveal_strlit("Four");
        reveal_strlit("Five");
    }
    if k == 0 { "Zero" }
    else if k == 1 { "One" }
    else if k == 2 { "Two" }
    else if k == 3 { "Three" }
    else if k == 4 { "Four" }
    else { "Five" }
}

/// The rating whose word is `word`.
pub fn rating_from_word(word: &str) -> (r: Option<u8>)
    ensures
        r == rating_of(word@),
{
    let w = String::from_str(word);
    let mut k: u8 = 0;
    while k < RATING_WORDS
        invariant
            w@ == word@,
            k <= RATING_WORDS,
            forall|j: nat| j < k ==> rating_word(j) != word@,
        decreases RATING_WORDS - k,
    {
        if w == String::from_str(rating_word_text(k)) {
            proof {
                let c = choose|c: nat| c < RATING_WORDS && rating_word(c) == word@;
                lemma_rating_words_distinct(c, k as nat);
            }
            return Some(k);
        }
        k = k + 1;
    }
    None
}

/// The last space-separated word of `class`, read as a rating: `star-rating
/// Three` gives 3.
pub fn rating_from_class(class: &str) -> (r: Option<u8>)
    ensures
        r == rating_of(last_word(class@)),
{
    let n = class.unicode_len();
    let mut start: usize = 0;
    let mut i: usize = 0;
    assert(class@.take(0) =~= Seq::<char>::empty());
    while i < n
        invariant
            n == class@.len(),
            start <= i <= n,
            last_word(class@.take(i as int)) == class@.subrange(start as int, i as int),
        decreases n - i,
    {
        assert(class@.take(i + 1).drop_last() =~= class@.take(i as int));
        if class.get_char(i) == ' ' {
            start = i + 1;
        }
        i = i + 1;
        assert(last_word(class@.take(i as int)) =~= class@.subrange(start as int, i as int));
    }
    assert(class@.take(n as int) =~= class@);
    rating_from_word(class.substring_char(start, n))
}

} // verus!
