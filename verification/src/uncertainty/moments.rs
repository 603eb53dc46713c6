//! The moments model of asymmetric uncertainties can be measured and reported,
//! but not propagated; every propagation is refused with the same message.

use vstd::prelude::*;
use crate::error::PhysureError;
use crate::text::{chars_of, extend_chars, string_from_chars};

verus! {

/// The error every propagation through the moments model reports.
pub open spec fn not_implemented_message(op: Seq<char>) -> Seq<char> {
    "Asymmetric uncertainties can be measured and reported but not yet propagated: "@ + op
        + " is not implemented for the moments model"@
}

/// The refusal for propagating the operation `op` through the moments model.
pub fn not_implemented(op: &str) -> (r: PhysureError)
    ensures
        r matches PhysureError::Generic(m) && m@ == not_implemented_message(op@),
{
    let mut msg = chars_of(
        "Asymmetric uncertainties can be measured and reported but not yet propagated: ",
    );
    extend_chars(&mut msg, &chars_of(op));
    extend_chars(&mut msg, &chars_of(" is not implemented for the moments model"));
    PhysureError::Generic(string_from_chars(&msg))
}

} // verus!
