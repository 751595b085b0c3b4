//! The closed set of response status codes, each with a numeric value and a
//! fixed reason phrase.

use vstd::prelude::*;

verus! {

/// A response status code. The set is closed: consumers must handle every
/// variant, and it grows only by adding variants here.
#[derive(Clone, Copy, PartialEq, Eq, Structural, Debug)]
pub enum StatusCode {
    Okay,
    BadRequest,
    NotFound,
}

/// The standard numeric value of each status code.
pub open spec fn spec_numeric(code: StatusCode) -> u16 {
    match code {
        StatusCode::Okay => 200,
        StatusCode::BadRequest => 400,
        StatusCode::NotFound => 404,
    }
}

/// The fixed table of reason phrases.
pub open spec fn phrase_chars(code: StatusCode) -> Seq<char> {
    match code {
        StatusCode::Okay => seq!['O', 'k'],
        StatusCode::BadRequest => seq!['B', 'a', 'd', ' ', 'R', 'e', 'q', 'u', 'e', 's', 't'],
        StatusCode::NotFound => seq!['N', 'o', 't', ' ', 'F', 'o', 'u', 'n', 'd'],
    }
}

impl StatusCode {
    /// The standard HTTP status number of this code.
    pub fn numeric_value(&self) -> (r: u16)
        ensures
            r == spec_numeric(*self),
    {
        match self {
            StatusCode::Okay => 200,
            StatusCode::BadRequest => 400,
            StatusCode::NotFound => 404,
        }
    }

    /// The human-readable text accompanying this code, from the fixed table.
    pub fn reason_phrase(&self) -> (r: &str)
        ensures
            r@ == phrase_chars(*self),
    {
        proof {
            reveal_strlit("Ok");
            reveal_strlit("Bad Request");
            reveal_strlit("Not Found");
            assert("Ok"@ =~= phrase_chars(StatusCode::Okay));
            assert("Bad Request"@ =~= phrase_chars(StatusCode::BadRequest));
            assert("Not Found"@ =~= phrase_chars(StatusCode::NotFound));
        }
        match self {
            StatusCode::Okay => "Ok",
            StatusCode::BadRequest => "Bad Request",
            StatusCode::NotFound => "Not Found",
        }
    }
}

} // verus!
