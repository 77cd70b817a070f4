//! HTTP status codes.

use hyper::StatusCode;
use vstd::prelude::*;
use vstd::string::*;

verus! {

/// The status code of `hyper`.
#[verifier::external_type_specification]
#[verifier::external_body]
pub struct ExStatusCode(hyper::StatusCode);

/// The number of a status.
pub uninterp spec fn status_number(status: StatusCode) -> u16;

/// The text of a status: its number and the phrase that goes with it.
pub uninterp spec fn status_text(number: u16) -> Seq<char>;

/// Whether a status tells of success.
pub open spec fn successful(number: u16) -> bool {
    200 <= number < 300
}

/// `StatusCode::as_u16`: the number of a status.
#[verifier::external_body]
pub(crate) fn number_of(status: &StatusCode) -> (r: u16)
    ensures
        r == status_number(*status),
{
    status.as_u16()
}

/// `StatusCode::to_string`: the text of a status, which depends on its number alone.
#[verifier::external_body]
pub(crate) fn write_status(status: &StatusCode) -> (r: String)
    ensures
        r@ == status_text(status_number(*status)),
{
    status.to_string()
}

}
