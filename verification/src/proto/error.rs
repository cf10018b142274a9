use vstd::prelude::*;

verus! {

/// Why a value could not be written to, or read from, the wire.
#[derive(Debug, Clone, Copy, PartialEq, Eq, Structural)]
pub enum Error {
    /// A length does not fit the two-byte length prefix.
    ObjectTooLarge,
    /// The input ended before the item did.
    IOError,
    /// An opcode or a type tag that the protocol does not define.
    InvalidId,
    /// The CBOR encoder refused a value.
    CBORSerError,
    /// The bytes of a value are not one CBOR item.
    CBORDeError,
    /// A text field is not UTF-8.
    UTF8Error,
}

impl Error {
    /// The message shown to a user for this error.
    pub fn message(&self) -> (text: &'static str)
        ensures
            text@ == (match *self {
                Error::ObjectTooLarge => "Object too large for protocol"@,
                Error::IOError => "IO Error: unexpected end of input"@,
                Error::InvalidId => "Invalid ID in protocol"@,
                Error::CBORSerError => "CBOR Serialization Error"@,
                Error::CBORDeError => "CBOR Deserialization Error"@,
                Error::UTF8Error => "Invalid UTF-8"@,
            }),
    {
        match self {
            Error::ObjectTooLarge => "Object too large for protocol",
            Error::IOError => "IO Error: unexpected end of input",
            Error::InvalidId => "Invalid ID in protocol",
            Error::CBORSerError => "CBOR Serialization Error",
            Error::CBORDeError => "CBOR Deserialization Error",
            Error::UTF8Error => "Invalid UTF-8",
        }
    }
}

} // verus!
