use vstd::prelude::*;
use ciborium::value::Value;
use crate::proto::cbor::{cbor_decoding, cbor_encoding, cbor_from_slice, cbor_to_vec};
use crate::proto::error::Error;
use crate::proto::helper::{
    close_window, open_window, reads, windowed, writes, Encoding, Parsed, ReadExt, ReadWindow,
    WriteExt,
};

verus! {

/// A value that has a place on the wire.
pub trait Serialize {
    /// The bytes that stand for the value, or why it cannot be written.
    spec fn encoding(&self) -> Encoding;

    /// Appends the value's bytes to `write`.
    fn serialize(&self, write: &mut Vec<u8>) -> (r: Result<(), Error>)
        ensures
            writes(old(write)@, final(write)@, self.encoding(), r),
    ;
}

/// A value that can be read from the wire.
pub trait Deserialize: Sized {
    /// What the value is, as mathematics.
    type Model;

    /// The model of a value.
    spec fn model(&self) -> Self::Model;

    /// The value at the front of `s` and the bytes it occupies.
    spec fn parse(s: Seq<u8>) -> Parsed<Self::Model>;

    /// Reads a value from the front of `read`.
    fn deserialize(read: &mut ReadWindow<'_>) -> (r: Result<Self, Error>)
        ensures
            reads(*old(read), *final(read), Self::parse(old(read).unread()), r),
            r matches Ok(v) ==> Self::parse(old(read).unread()) matches Ok((m, _)) && v.model()
                == m,
    ;
}

/// A value that is written behind an opcode.
pub trait SerializeId: Serialize {
    /// The opcode of the value's variant.
    spec fn opcode(&self) -> u8;

    /// The opcode of the value's variant.
    fn id(&self) -> (id: u8)
        ensures
            id == self.opcode(),
    ;
}

/// A value whose variant is chosen by an opcode that was read before it.
pub trait DeserializeId: Sized {
    /// What the value is, as mathematics.
    type Model;

    /// The model of a value.
    spec fn model(&self) -> Self::Model;

    /// The value of the variant `id` at the front of `s` and the bytes it occupies.
    spec fn parse(id: u8, s: Seq<u8>) -> Parsed<Self::Model>;

    /// Reads a value of the variant `id` from the front of `read`.
    fn deserialize(id: u8, read: &mut ReadWindow<'_>) -> (r: Result<Self, Error>)
        ensures
            reads(*old(read), *final(read), Self::parse(id, old(read).unread()), r),
            r matches Ok(v) ==> Self::parse(id, old(read).unread()) matches Ok((m, _))
                && v.model() == m,
    ;
}

/// The encoding of a value: its CBOR bytes in a window.
pub open spec fn value_encoding(value: Value) -> Encoding {
    windowed(
        match cbor_encoding(value) {
            Some(bytes) => Ok(bytes),
            None => Err(Error::CBORSerError),
        },
    )
}

/// Reading a value: a window whose body starts with one CBOR item.
pub open spec fn parse_value(s: Seq<u8>) -> Parsed<Value> {
    match open_window(s) {
        Err(e) => Err(e),
        Ok(w) => match cbor_decoding(w.body) {
            None => Err(Error::CBORDeError),
            Some(value) => close_window(w, value),
        },
    }
}

/// Writes the outcome of the CBOR encoder as a value: the bytes in a
/// window, or the encoder's failure.
pub fn write_encoded(
    encoded: Option<Vec<u8>>,
    write: &mut Vec<u8>,
) -> (r: Result<(), Error>)
    ensures
        writes(
            old(write)@,
            final(write)@,
            windowed(
                match encoded {
                    Some(bytes) => Ok(bytes@),
                    None => Err(Error::CBORSerError),
                },
            ),
            r,
        ),
        r is Err ==> final(write)@ == old(write)@,
{
    match encoded {
        Some(bytes) => {
            let mut window = write.write_window();
            window.buffer = bytes;
            window.finish(write)
        },
        None => Err(Error::CBORSerError),
    }
}

/// Reads a value from an opened window, given what the CBOR decoder made
/// of the window's bytes: the decoded value if the window can be closed.
pub fn read_decoded(
    decoded: Option<Value>,
    window: &mut ReadWindow<'_>,
) -> (r: Result<Value, Error>)
    ensures
        match decoded {
            None => r == Err::<Value, Error>(Error::CBORDeError) && *final(window) == *old(
                window,
            ),
            Some(value) => if old(window).missing() > 0 {
                r == Err::<Value, Error>(Error::IOError) && *final(window) == *old(window)
            } else {
                r == Ok::<Value, Error>(value) && final(window).unread() == Seq::<u8>::empty()
                    && final(window).missing() == 0
            },
        },
{
    match decoded {
        Some(value) => {
            window.skip_to_end()?;
            Ok(value)
        },
        None => Err(Error::CBORDeError),
    }
}

impl Serialize for Value {
    open spec fn encoding(&self) -> Encoding {
        value_encoding(*self)
    }

    fn serialize(&self, write: &mut Vec<u8>) -> (r: Result<(), Error>)
        ensures
            r is Err ==> final(write)@ == old(write)@,
    {
        write_encoded(cbor_to_vec(self), write)
    }
}

impl Deserialize for Value {
    type Model = Value;

    open spec fn model(&self) -> Value {
        *self
    }

    open spec fn parse(s: Seq<u8>) -> Parsed<Value> {
        parse_value(s)
    }

    fn deserialize(read: &mut ReadWindow<'_>) -> (r: Result<Self, Error>) {
        let mut cur = *read;
        let mut window = cur.read_window()?;
        let body = window.rest();
        let value = read_decoded(cbor_from_slice(body), &mut window)?;
        *read = cur;
        Ok(value)
    }
}

} // verus!
