//! Count extraction: the total number of catalog items, read from
//! the count node of the fetched listing page.
use vstd::prelude::*;

use crate::dom;
use crate::text;
use crate::ErrorKind;

verus! {

/// The total count carried by a listing page: the text of its count
/// node read as a decimal number.  Absent or non-numeric count text
/// is a `NumberOfCardsError`.
pub open spec fn spec_number_of_cards(body: Seq<char>) -> Result<u32, ErrorKind> {
    match dom::first_text_of(body, ".cardlist-Result_Target_Num span.num"@) {
        Option::None => Err(ErrorKind::NumberOfCardsError),
        Option::Some(t) => match text::count_of_text(t) {
            Option::None => Err(ErrorKind::NumberOfCardsError),
            Option::Some(n) => Ok(n),
        },
    }
}

/// The total item count announced by the fetched listing page
/// `body`; fails exactly when the count node is missing or its text
/// is not a number.
pub fn get_number_of_cards(body: &str) -> (r: Result<u32, ErrorKind>)
    ensures
        r == spec_number_of_cards(body@),
{
    match dom::first_text(body, ".cardlist-Result_Target_Num span.num") {
        Option::None => Err(ErrorKind::NumberOfCardsError),
        Option::Some(t) => match text::parse_count(t.as_str()) {
            Option::None => Err(ErrorKind::NumberOfCardsError),
            Option::Some(n) => Ok(n),
        },
    }
}

} // verus!
