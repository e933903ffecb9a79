//! Errors of the balance computation.
use vstd::prelude::*;

use crate::decimal::digits_of;
use crate::decimal::push_digits;
use crate::types::Carrier;
use crate::types::Dest;
use crate::types::Source;
use crate::types::Step;

verus! {

/// What can go wrong in the preparation of the data or in the balance.
#[derive(Debug, Copy, Clone, PartialEq, Eq, Structural)]
pub enum EpbdError {
    /// A malformed component or factor row: wrong number of fields, a field
    /// that is no number, an unknown name. Holds the number of the line,
    /// counted from one, or zero for a value that comes from no file.
    ParseError(usize),
    /// Component rows with different numbers of time steps.
    ShapeError,
    /// A weighting factor that the computation needs and the table lacks.
    MissingFactor(Carrier, Source, Dest, Step),
    /// A parameter or a value outside the range that is accepted.
    RangeError,
    /// A row whose carrier, role and origin cannot go together.
    Inconsistent,
}

impl EpbdError {
    /// The message of the error.
    pub open spec fn spec_text(self) -> Seq<char> {
        match self {
            EpbdError::ParseError(line) => if line == 0 {
                "valor con formato incorrecto"@
            } else {
                "formato incorrecto en la linea "@ + digits_of(line as int)
            },
            EpbdError::ShapeError => "vectores con distinto numero de pasos"@,
            EpbdError::MissingFactor(c, s, d, st) => "falta el factor de paso "@ + c.spec_name()
                + ", "@ + s.spec_name() + ", "@ + d.spec_name() + ", "@ + st.spec_name(),
            EpbdError::RangeError => "valor fuera de rango"@,
            EpbdError::Inconsistent => "componente inconsistente"@,
        }
    }

    /// The message of the error.
    pub fn to_string(&self) -> (r: String)
        ensures
            r@ == self.spec_text(),
    {
        match self {
            EpbdError::ParseError(line) => {
                if *line == 0 {
                    String::from_str("valor con formato incorrecto")
                } else {
                    let mut r = String::from_str("formato incorrecto en la linea ");
                    push_digits(&mut r, *line as u128);
                    r
                }
            },
            EpbdError::ShapeError => String::from_str("vectores con distinto numero de pasos"),
            EpbdError::MissingFactor(c, s, d, st) => {
                let mut r = String::from_str("falta el factor de paso ");
                r.append(c.name());
                r.append(", ");
                r.append(s.name());
                r.append(", ");
                r.append(d.name());
                r.append(", ");
                r.append(st.name());
                assert(r@ =~= self.spec_text());
                r
            },
            EpbdError::RangeError => String::from_str("valor fuera de rango"),
            EpbdError::Inconsistent => String::from_str("componente inconsistente"),
        }
    }
}

} // verus!
