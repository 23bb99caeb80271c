//! The status of an HTTP answer: whether it is one of success, and how it is
//! shown to the user.
//!
//! A status is kept as its number. What a number means and how it reads is
//! asked of `reqwest`, whose `StatusCode` takes the numbers from 100 to 999.

use vstd::prelude::*;
use crate::text::{decimal, decimal_text};
use crate::trusted::{code_is_success, code_text, status_line};

verus! {

/// A number that `reqwest` takes as a status.
pub open spec fn is_status_code(code: u16) -> bool {
    100 <= code <= 999
}

/// A status from 200 to 299.
pub open spec fn is_success(status: u16) -> bool {
    200 <= status <= 299
}

/// How a status is shown: as `reqwest` writes it, or as the bare number
/// where `reqwest` does not take the number as a status.
pub open spec fn status_shown(status: u16) -> Seq<char> {
    if is_status_code(status) {
        status_line(status)
    } else {
        decimal(status as nat)
    }
}

/// Tells whether a status is one of success.
pub fn status_is_success(status: u16) -> (r: bool)
    ensures
        r == is_success(status),
{
    if 100 <= status && status <= 999 {
        code_is_success(status)
    } else {
        false
    }
}

/// Shows a status to the user. The text starts with the number in decimal.
pub fn status_text(status: u16) -> (r: String)
    ensures
        r@ == status_shown(status),
        decimal(status as nat).is_prefix_of(r@),
{
    if 100 <= status && status <= 999 {
        let r = code_text(status);
        proof {
            let head = decimal(status as nat) + seq![' '];
            assert(r@.subrange(0, decimal(status as nat).len() as int) =~= head.subrange(
                0,
                decimal(status as nat).len() as int,
            ));
            assert(head.subrange(0, decimal(status as nat).len() as int) =~= decimal(
                status as nat,
            ));
        }
        r
    } else {
        decimal_text(status)
    }
}

} // verus!
