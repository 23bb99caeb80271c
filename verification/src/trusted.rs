//! The calls into code that is not verified here: the standard library's
//! lossy reading of bytes as text, and the status codes of `reqwest`.
//!
//! What a contract in this file says is believed, not proved. Each doc
//! comment names the function that is called and says what is believed of
//! it.

use vstd::prelude::*;
use crate::text::decimal;

verus! {

/// What `String::from_utf8_lossy` of the standard library makes of `bytes`.
pub uninterp spec fn lossy_text(bytes: Seq<u8>) -> Seq<char>;

/// Calls `String::from_utf8_lossy` of the standard library, which reads
/// bytes as UTF-8 and puts U+FFFD in the place of what is not UTF-8.
///
/// Believed: the text depends on the bytes alone.
#[verifier::external_body]
pub(crate) fn decode_lossy(bytes: &[u8]) -> (r: String)
    ensures
        r@ == lossy_text(bytes@),
{
    String::from_utf8_lossy(bytes).into_owned()
}

/// How `reqwest` writes the status with the number `code`.
pub uninterp spec fn status_line(code: u16) -> Seq<char>;

/// Calls `StatusCode::is_success` of `reqwest` on the status that
/// `StatusCode::from_u16` makes of `code`. `from_u16` takes the numbers from
/// 100 to 999.
///
/// Believed: a status is one of success when its number is from 200 to 299.
#[verifier::external_body]
pub(crate) fn code_is_success(code: u16) -> (r: bool)
    requires
        100 <= code <= 999,
    ensures
        r == (200 <= code <= 299),
{
    match reqwest::StatusCode::from_u16(code) {
        Ok(status) => status.is_success(),
        Err(_) => false,
    }
}

/// Calls the `Display` of `reqwest`'s `StatusCode` on the status that
/// `StatusCode::from_u16` makes of `code`. `from_u16` takes the numbers from
/// 100 to 999.
///
/// Believed: the text depends on the number alone, and it starts with the
/// number in decimal and a space; the reason phrase follows.
#[verifier::external_body]
pub(crate) fn code_text(code: u16) -> (r: String)
    requires
        100 <= code <= 999,
    ensures
        r@ == status_line(code),
        (decimal(code as nat) + seq![' ']).is_prefix_of(r@),
{
    match reqwest::StatusCode::from_u16(code) {
        Ok(status) => status.to_string(),
        Err(_) => String::new(),
    }
}

} // verus!
