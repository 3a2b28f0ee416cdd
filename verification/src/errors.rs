use vstd::prelude::*;

use crate::text::{concat, decimal, u64_to_decimal};

verus! {

/// LRGP error hierarchy.
#[derive(Debug)]
pub enum LrgpError {
    /// Packed size and limit, in bytes.
    EnvelopeTooLarge(usize, usize),
    InvalidEnvelope(String),
    IllegalTransition { command: String, status: String },
    UnknownApp(String),
    Validation { code: String, message: String },
    Store(String),
}

impl LrgpError {
    /// The human-readable text of the error.
    pub open spec fn spec_message(&self) -> Seq<char> {
        match self {
            LrgpError::EnvelopeTooLarge(size, max) => "envelope too large: "@ + decimal(
                *size as nat,
            ) + " bytes (max "@ + decimal(*max as nat) + ")"@,
            LrgpError::InvalidEnvelope(m) => "invalid envelope: "@ + m@,
            LrgpError::IllegalTransition { command, status } => "illegal transition: cannot apply '"@
                + command@ + "' to session in '"@ + status@ + "' state"@,
            LrgpError::UnknownApp(m) => "unknown game: "@ + m@,
            LrgpError::Validation { code, message } => "validation error ["@ + code@ + "]: "@
                + message@,
            LrgpError::Store(m) => "store error: "@ + m@,
        }
    }

    /// The human-readable text of the error.
    pub fn message(&self) -> (r: String)
        ensures
            r@ == self.spec_message(),
    {
        match self {
            LrgpError::EnvelopeTooLarge(size, max) => {
                let a = concat("envelope too large: ", u64_to_decimal(*size as u64).as_str());
                let b = concat(a.as_str(), " bytes (max ");
                let c = concat(b.as_str(), u64_to_decimal(*max as u64).as_str());
                concat(c.as_str(), ")")
            },
            LrgpError::InvalidEnvelope(m) => concat("invalid envelope: ", m.as_str()),
            LrgpError::IllegalTransition { command, status } => {
                let a = concat("illegal transition: cannot apply '", command.as_str());
                let b = concat(a.as_str(), "' to session in '");
                let c = concat(b.as_str(), status.as_str());
                concat(c.as_str(), "' state")
            },
            LrgpError::UnknownApp(m) => concat("unknown game: ", m.as_str()),
            LrgpError::Validation { code, message } => {
                let a = concat("validation error [", code.as_str());
                let b = concat(a.as_str(), "]: ");
                concat(b.as_str(), message.as_str())
            },
            LrgpError::Store(m) => concat("store error: ", m.as_str()),
        }
    }
}

} // verus!
