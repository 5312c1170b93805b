//! What can be wrong with the framing of a chunk.

use vstd::prelude::*;
use vstd::string::StringExecFns;

verus! {

#[derive(Debug)]
pub enum BinpackError {
    /// The byte stream ended before the data that a header announced.
    Io,
    /// A chunk does not start with the four bytes `BINP`.
    InvalidMagic,
    /// A header announces something that this format does not allow.
    InvalidFormat(String),
}

impl BinpackError {
    /// The message of the error.
    pub open spec fn spec_message(self) -> Seq<char> {
        match self {
            BinpackError::Io => "IO error: unexpected end of data"@,
            BinpackError::InvalidMagic => "Invalid magic bytes"@,
            BinpackError::InvalidFormat(reason) => "Invalid format: "@ + reason@,
        }
    }

    /// The message of the error.
    pub fn to_string(&self) -> (r: String)
        ensures
            r@ == self.spec_message(),
    {
        match self {
            BinpackError::Io => String::from_str("IO error: unexpected end of data"),
            BinpackError::InvalidMagic => String::from_str("Invalid magic bytes"),
            BinpackError::InvalidFormat(reason) => {
                let mut text = String::from_str("Invalid format: ");
                text.append(reason.as_str());
                text
            },
        }
    }
}

} // verus!
