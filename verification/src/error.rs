//! The errors the engine reports.

use vstd::prelude::*;
use crate::text::{chars_of, extend_chars, string_from_chars};

verus! {

/// Everything that can go wrong in unit arithmetic, symbolic manipulation,
/// covariance bookkeeping and script evaluation.
#[derive(Debug, Clone, PartialEq)]
pub enum PhysureError {
    UnitMismatch { expected: String, actual: String },
    UnknownUnit { symbol: String, suggestion: Option<String> },
    IncompatibleDimensions { op: &'static str, dim1: String, dim2: String },
    DivisionByZero(String),
    NonConstantExponent(String),
    NonLinearArgument { function: &'static str },
    UnsupportedIntegration(String),
    ArrowError(String),
    CovarianceError(String),
    ParseError(String),
    Generic(String),
    /// A `@requires`/`@ensures` condition evaluated to false. `decorator` is the
    /// decorator name without the `@` (`"requires"` or `"ensures"`); `message` is the
    /// user-supplied explanation string from the decorator's second argument.
    ContractViolation { decorator: String, message: String },
}

/// The text an error is reported with.
pub open spec fn message_spec(e: PhysureError) -> Seq<char> {
    match e {
        PhysureError::UnitMismatch { expected, actual } => "Unit mismatch: expected '"@
            + expected@ + "', got '"@ + actual@ + "'"@,
        PhysureError::UnknownUnit { symbol, suggestion } => match suggestion {
            Some(hint) => "Unknown unit '"@ + symbol@ + "' \u{2014} did you mean '"@ + hint@
                + "'?"@,
            None => "Unknown unit '"@ + symbol@ + "'"@,
        },
        PhysureError::IncompatibleDimensions { op, dim1, dim2 } => "Incompatible dimensions in "@
            + op@ + ": '"@ + dim1@ + "' vs '"@ + dim2@ + "'"@,
        PhysureError::DivisionByZero(msg) => "Division by zero: "@ + msg@,
        PhysureError::NonConstantExponent(msg) => "Non-constant exponent: "@ + msg@,
        PhysureError::NonLinearArgument { function } => "Non-linear argument in integration for "@
            + function@,
        PhysureError::UnsupportedIntegration(msg) => "Unsupported integration pattern: "@ + msg@,
        PhysureError::ArrowError(msg) => "Arrow error: "@ + msg@,
        PhysureError::CovarianceError(msg) => "Covariance error: "@ + msg@,
        PhysureError::ParseError(msg) => "Parse error: "@ + msg@,
        PhysureError::Generic(msg) => msg@,
        PhysureError::ContractViolation { decorator, message } => "@"@ + decorator@
            + " violated: "@ + message@,
    }
}

fn push_str(out: &mut Vec<char>, s: &str)
    ensures
        final(out)@ == old(out)@ + s@,
{
    let v = chars_of(s);
    extend_chars(out, &v);
}

impl PhysureError {
    /// The text the error is reported with (what `Display` prints).
    pub fn to_string(&self) -> (r: String)
        ensures
            r@ == message_spec(*self),
    {
        let mut out: Vec<char> = Vec::new();
        match self {
            PhysureError::UnitMismatch { expected, actual } => {
                push_str(&mut out, "Unit mismatch: expected '");
                push_str(&mut out, expected.as_str());
                push_str(&mut out, "', got '");
                push_str(&mut out, actual.as_str());
                push_str(&mut out, "'");
            },
            PhysureError::UnknownUnit { symbol, suggestion } => {
                push_str(&mut out, "Unknown unit '");
                push_str(&mut out, symbol.as_str());
                match suggestion {
                    Some(hint) => {
                        push_str(&mut out, "' \u{2014} did you mean '");
                        push_str(&mut out, hint.as_str());
                        push_str(&mut out, "'?");
                    },
                    None => {
                        push_str(&mut out, "'");
                    },
                }
            },
            PhysureError::IncompatibleDimensions { op, dim1, dim2 } => {
                push_str(&mut out, "Incompatible dimensions in ");
                push_str(&mut out, op);
                push_str(&mut out, ": '");
                push_str(&mut out, dim1.as_str());
                push_str(&mut out, "' vs '");
                push_str(&mut out, dim2.as_str());
                push_str(&mut out, "'");
            },
            PhysureError::DivisionByZero(msg) => {
                push_str(&mut out, "Division by zero: ");
                push_str(&mut out, msg.as_str());
            },
            PhysureError::NonConstantExponent(msg) => {
                push_str(&mut out, "Non-constant exponent: ");
                push_str(&mut out, msg.as_str());
            },
            PhysureError::NonLinearArgument { function } => {
                push_str(&mut out, "Non-linear argument in integration for ");
                push_str(&mut out, function);
            },
            PhysureError::UnsupportedIntegration(msg) => {
                push_str(&mut out, "Unsupported integration pattern: ");
                push_str(&mut out, msg.as_str());
            },
            PhysureError::ArrowError(msg) => {
                push_str(&mut out, "Arrow error: ");
                push_str(&mut out, msg.as_str());
            },
            PhysureError::CovarianceError(msg) => {
                push_str(&mut out, "Covariance error: ");
                push_str(&mut out, msg.as_str());
            },
            PhysureError::ParseError(msg) => {
                push_str(&mut out, "Parse error: ");
                push_str(&mut out, msg.as_str());
            },
            PhysureError::Generic(msg) => {
                push_str(&mut out, msg.as_str());
            },
            PhysureError::ContractViolation { decorator, message } => {
                push_str(&mut out, "@");
                push_str(&mut out, decorator.as_str());
                push_str(&mut out, " violated: ");
                push_str(&mut out, message.as_str());
            },
        }
        proof {
            assert(out@ =~= message_spec(*self));
        }
        string_from_chars(&out)
    }

    /// A generic error carrying the given text.
    pub fn from_message(msg: &str) -> (r: PhysureError)
        ensures
            r matches PhysureError::Generic(m) && m@ == msg@,
    {
        PhysureError::Generic(String::from_str(msg))
    }
}

} // verus!
