use vstd::prelude::*;

verus! {

/// The ways a signing or verification request can be refused.
#[derive(Debug, Clone, Copy, PartialEq, Eq, Structural)]
pub enum TextError {
    /// Key bytes of the wrong length, or not a key of the chosen scheme.
    KeyFormat,
    /// A signature whose length is not the one the scheme produces.
    SignatureLength,
    /// Signature text that is not a canonical encoding.
    Decode,
}

} // verus!
