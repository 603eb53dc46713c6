//! Names of the interchangeable distribution shapes for asymmetric
//! uncertainties.

use vstd::prelude::*;
use crate::error::PhysureError;
use crate::text::{ascii_lower_spec, chars_eq_str, debug_quoted, debug_str, chars_of, extend_chars, string_from_chars, to_ascii_lower};

verus! {

/// Which asymmetry shape to use: a value that can be stored, compared and named.
#[derive(Clone, Copy, PartialEq, Eq, Debug, Structural)]
pub enum ShapeKind {
    Dimidiated,
    Fechner,
}

/// The name a shape is selected by.
pub open spec fn shape_name(k: ShapeKind) -> Seq<char> {
    match k {
        ShapeKind::Dimidiated => "dimidiated"@,
        ShapeKind::Fechner => "fechner"@,
    }
}

/// What a shape name reads as, case-insensitively in ASCII.
pub open spec fn parse_shape_spec(name: Seq<char>) -> Result<ShapeKind, Seq<char>> {
    let t = ascii_lower_spec(name);
    if t == "dimidiated"@ {
        Ok(ShapeKind::Dimidiated)
    } else if t == "fechner"@ {
        Ok(ShapeKind::Fechner)
    } else {
        Err(
            "Unknown asymmetry shape "@ + debug_quoted(t) + ". Expected one of: dimidiated, fechner."@,
        )
    }
}

impl ShapeKind {
    /// The shape a bare `(σ⁻, σ⁺)` pair means when nothing chose one: the
    /// equal-area dimidiated Gaussian.
    pub const DEFAULT: ShapeKind = ShapeKind::Dimidiated;

    /// The name the shape is selected by.
    pub fn name(self) -> (r: &'static str)
        ensures
            r@ == shape_name(self),
    {
        match self {
            ShapeKind::Dimidiated => "dimidiated",
            ShapeKind::Fechner => "fechner",
        }
    }

    /// Parses the name a shape is selected by (case-insensitively), the inverse
    /// of [`ShapeKind::name`].
    pub fn from_name(name: &str) -> (r: Result<ShapeKind, PhysureError>)
        ensures
            match parse_shape_spec(name@) {
                Ok(k) => r == Ok::<ShapeKind, PhysureError>(k),
                Err(msg) => r matches Err(PhysureError::Generic(m)) && m@ == msg,
            },
    {
        let t = to_ascii_lower(&chars_of(name));
        if chars_eq_str(&t, "dimidiated") {
            Ok(ShapeKind::Dimidiated)
        } else if chars_eq_str(&t, "fechner") {
            Ok(ShapeKind::Fechner)
        } else {
            let lowered = string_from_chars(&t);
            let quoted = debug_str(lowered.as_str());
            let mut msg = chars_of("Unknown asymmetry shape ");
            extend_chars(&mut msg, &chars_of(quoted.as_str()));
            extend_chars(&mut msg, &chars_of(". Expected one of: dimidiated, fechner."));
            Err(PhysureError::Generic(string_from_chars(&msg)))
        }
    }
}

/// Every shape's name reads back as that shape.
pub proof fn lemma_shape_name_round_trip(k: ShapeKind)
    ensures
        parse_shape_spec(shape_name(k)) == Ok::<ShapeKind, Seq<char>>(k),
{
    reveal_strlit("dimidiated");
    reveal_strlit("fechner");
    assert(ascii_lower_spec(shape_name(k)) =~= shape_name(k));
}

} // verus!
