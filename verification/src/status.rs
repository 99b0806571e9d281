//! HTTP status codes as the validator reads them: the number, its class, and
//! the standard reason phrase.

use vstd::prelude::*;

verus! {

/// The reason phrase that the `http` crate lists for the status code `code`,
/// `None` where it lists none.
pub uninterp spec fn canonical_reason_of(code: u16) -> Option<Seq<char>>;

/// Trusted, not proved: makes the `StatusCode` of `reqwest` (the one of the
/// `http` crate) for `code` with `StatusCode::from_u16`, which takes every
/// number from 100 to 999, and returns its `StatusCode::canonical_reason`.
/// The contract claims only that the phrase is a function of the number,
/// which is how the crate's table is keyed; it says nothing of which numbers
/// have a phrase, nor of what any phrase is.
#[verifier::external_body]
fn lookup_canonical_reason(code: u16) -> (r: Option<&'static str>)
    requires
        100 <= code <= 999,
    ensures
        match r {
            Some(phrase) => canonical_reason_of(code) == Some(phrase@),
            None => canonical_reason_of(code) is None,
        },
{
    match reqwest::StatusCode::from_u16(code) {
        Ok(status) => status.canonical_reason(),
        Err(_) => None,
    }
}

/// A status code of an HTTP response: a number from 100 to 999.
#[derive(Clone, Copy, Debug, PartialEq, Eq, Structural)]
pub struct HttpStatus {
    code: u16,
}

impl View for HttpStatus {
    type V = u16;

    closed spec fn view(&self) -> u16 {
        self.code
    }
}

impl HttpStatus {
    #[verifier::type_invariant]
    spec fn in_range(self) -> bool {
        100 <= self.code <= 999
    }

    /// The status with the number `code`, if `code` is a status code at all.
    pub fn new(code: u16) -> (r: Option<HttpStatus>)
        ensures
            r is Some <==> 100 <= code <= 999,
            r matches Some(status) ==> status@ == code,
    {
        if 100 <= code && code <= 999 {
            Some(HttpStatus { code })
        } else {
            None
        }
    }

    /// The number.
    pub fn code(&self) -> (r: u16)
        ensures
            r == self@,
            100 <= r <= 999,
    {
        proof {
            use_type_invariant(self);
        }
        self.code
    }

    /// Whether the number is in the success class, 200 to 299.
    pub fn is_success(&self) -> (r: bool)
        ensures
            r == (200 <= self@ < 300),
    {
        200 <= self.code && self.code < 300
    }

    /// The standard reason phrase for the number, if there is one.
    pub fn canonical_reason(&self) -> (r: Option<&'static str>)
        ensures
            match r {
                Some(phrase) => canonical_reason_of(self@) == Some(phrase@),
                None => canonical_reason_of(self@) is None,
            },
    {
        proof {
            use_type_invariant(self);
        }
        lookup_canonical_reason(self.code)
    }
}

} // verus!
