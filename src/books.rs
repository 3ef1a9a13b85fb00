//! The rules on the book records of a reading list.
use vstd::prelude::*;

verus! {

/// Where a reader stands with a book.
#[derive(Clone, Copy, Debug, PartialEq, Eq, Structural)]
pub enum BookStatus {
    Read,
    CurrentlyReading,
    WantToRead,
}

/// The error for a rating outside 0 to 5.
#[derive(Debug)]
pub struct InvalidRatingError();

impl InvalidRatingError {
    /// The text that describes this error.
    pub fn message(&self) -> (r: String)
        ensures
            r@ == "Rating must be between 0 and 5"@,
    {
        String::from_str("Rating must be between 0 and 5")
    }
}

/// A rating is valid when it is absent or between 0 and 5 inclusive.
pub open spec fn valid_rating(rating: Option<i16>) -> bool {
    match rating {
        Some(r) => 0 <= r <= 5,
        None => true,
    }
}

/// Whether `rating` is absent or between 0 and 5 inclusive.
pub fn is_valid_rating(rating: &Option<i16>) -> (r: bool)
    ensures
        r == valid_rating(*rating),
{
    if let Some(r) = rating {
        if !(0 <= *r && *r <= 5) {
            return false;
        }
    }
    true
}

} // verus!
