use vstd::prelude::*;
use vstd::utf8::{valid_utf8, decode_utf8, encode_utf8};
use vstd::string::StringSliceAdditionalSpecFns;
use byteorder::{BigEndian, ByteOrder};
use crate::proto::error::Error;

verus! {

/// The largest length that the length prefix can carry.
pub const MAX_VARLEN: usize = 0x3fff;

/// The first byte of the two-byte prefix of `len`: the marker bit and the high seven bits.
pub open spec fn varlen_high(len: usize) -> u8 {
    (0x80 | (len >> 7)) as u8
}

/// The second byte of the two-byte prefix of `len`: the low seven bits.
pub open spec fn varlen_low(len: usize) -> u8 {
    (len & 0x7f) as u8
}

/// The length that a two-byte prefix stands for.
pub open spec fn varlen_value(b0: u8, b1: u8) -> usize {
    (((b0 & 0x7f) as usize) << 7) | (b1 as usize)
}

/// The length prefix of `len`: one byte up to 0x7f, two bytes above.
pub open spec fn varlen_bytes(len: usize) -> Seq<u8> {
    if len <= 0x7f {
        seq![len as u8]
    } else {
        seq![varlen_high(len), varlen_low(len)]
    }
}

/// Reading a length prefix from the front of `s`: the length and the number of bytes read.
pub open spec fn parse_varlen(s: Seq<u8>) -> Result<(usize, nat), Error> {
    if s.len() < 1 {
        Err(Error::IOError)
    } else if s[0] & 0x80 == 0 {
        Ok((s[0] as usize, 1))
    } else if s.len() < 2 {
        Err(Error::IOError)
    } else {
        Ok((varlen_value(s[0], s[1]), 2))
    }
}

/// Whether `len` can be written as a length prefix.
pub fn check_varlen(len: usize) -> (r: Result<(), Error>)
    ensures
        r == (if len <= MAX_VARLEN { Ok::<(), Error>(()) } else { Err(Error::ObjectTooLarge) }),
{
    if len > MAX_VARLEN {
        Err(Error::ObjectTooLarge)
    } else {
        Ok(())
    }
}

/// A written prefix reads back as the same length, whatever follows it, and
/// no two lengths share a prefix; every prefix that can be read stands for a
/// length that can be written.
pub proof fn varlen_bijection(a: usize, b: usize, rest: Seq<u8>, s: Seq<u8>)
    ensures
        a <= MAX_VARLEN ==> parse_varlen(varlen_bytes(a) + rest) == Ok::<(usize, nat), Error>(
            (a, varlen_bytes(a).len()),
        ),
        a <= MAX_VARLEN && b <= MAX_VARLEN && varlen_bytes(a) == varlen_bytes(b) ==> a == b,
        parse_varlen(s) matches Ok((n, k)) ==> n <= MAX_VARLEN && 1 <= k <= 2 && k <= s.len(),
{
    if a <= MAX_VARLEN {
        lemma_varlen_round_trip(a, rest);
        if b <= MAX_VARLEN && varlen_bytes(a) == varlen_bytes(b) {
            lemma_varlen_round_trip(b, rest);
        }
    }
    if s.len() >= 2 {
        let b0: u8 = s[0];
        let b1: u8 = s[1];
        assert(varlen_value(b0, b1) <= 0x3fff) by (bit_vector);
    }
    if s.len() >= 1 {
        let b0: u8 = s[0];
        assert(b0 & 0x80 == 0 ==> b0 <= 0x7f) by (bit_vector);
    }
}

/// A written prefix reads back as the same length, whatever follows it.
pub proof fn lemma_varlen_round_trip(len: usize, rest: Seq<u8>)
    requires
        len <= MAX_VARLEN,
    ensures
        parse_varlen(varlen_bytes(len) + rest) == Ok::<(usize, nat), Error>(
            (len, varlen_bytes(len).len()),
        ),
        varlen_bytes(len).len() == (if len <= 0x7f { 1nat } else { 2nat }),
{
    let s = varlen_bytes(len) + rest;
    if len <= 0x7f {
        assert(s[0] == len as u8);
        assert((len as u8) & 0x80 == 0 && (len as u8) as usize == len) by (bit_vector)
            requires
                len <= 0x7f,
        ;
    } else {
        assert(s[0] == varlen_high(len));
        assert(s[1] == varlen_low(len));
        assert(varlen_high(len) & 0x80 != 0 && varlen_value(varlen_high(len), varlen_low(len))
            == len) by (bit_vector)
            requires
                0x7f < len <= 0x3fff,
        ;
    }
}


/// What a write puts on the wire, or why nothing can be written.
pub type Encoding = Result<Seq<u8>, Error>;

/// Two encodings one after the other; the first failure wins.
pub open spec fn then(a: Encoding, b: Encoding) -> Encoding {
    match a {
        Err(e) => Err(e),
        Ok(x) => match b {
            Err(e) => Err(e),
            Ok(y) => Ok(x + y),
        },
    }
}

/// An encoding wrapped into a window: its length prefix, then its bytes.
pub open spec fn windowed(a: Encoding) -> Encoding {
    match a {
        Err(e) => Err(e),
        Ok(x) => if x.len() <= MAX_VARLEN {
            Ok(varlen_bytes(x.len() as usize) + x)
        } else {
            Err(Error::ObjectTooLarge)
        },
    }
}

/// The encoding of a length prefix.
pub open spec fn varlen_encoding(len: nat) -> Encoding {
    if len <= MAX_VARLEN {
        Ok(varlen_bytes(len as usize))
    } else {
        Err(Error::ObjectTooLarge)
    }
}

/// The encoding of a byte string: its length prefix, then the bytes.
pub open spec fn bytes_encoding(b: Seq<u8>) -> Encoding {
    windowed(Ok(b))
}

/// The encoding of a text: its UTF-8 bytes as a byte string.
pub open spec fn string_encoding(t: Seq<char>) -> Encoding {
    bytes_encoding(encode_utf8(t))
}

/// The eight bytes of `n`, most significant first.
pub open spec fn u64_be_bytes(n: u64) -> Seq<u8> {
    seq![
        (n >> 56) as u8,
        (n >> 48) as u8,
        (n >> 40) as u8,
        (n >> 32) as u8,
        (n >> 24) as u8,
        (n >> 16) as u8,
        (n >> 8) as u8,
        n as u8,
    ]
}

/// The number whose big-endian bytes are the first eight of `s`.
pub open spec fn be_u64(s: Seq<u8>) -> u64 {
    ((s[0] as u64) << 56) | ((s[1] as u64) << 48) | ((s[2] as u64) << 40) | ((s[3] as u64) << 32) | (
    (s[4] as u64) << 24) | ((s[5] as u64) << 16) | ((s[6] as u64) << 8) | (s[7] as u64)
}

/// What a read takes from the front of the input: the value and the number
/// of bytes it occupied, or why there is no value.
pub type Parsed<T> = Result<(T, nat), Error>;

/// Reading one byte.
pub open spec fn parse_u8(s: Seq<u8>) -> Parsed<u8> {
    if s.len() < 1 {
        Err(Error::IOError)
    } else {
        Ok((s[0], 1))
    }
}

/// Reading a big-endian 64-bit number.
pub open spec fn parse_u64(s: Seq<u8>) -> Parsed<u64> {
    if s.len() < 8 {
        Err(Error::IOError)
    } else {
        Ok((be_u64(s), 8))
    }
}

/// Reading a byte string: a length prefix, then that many bytes.
pub open spec fn parse_bytes(s: Seq<u8>) -> Parsed<Seq<u8>> {
    match parse_varlen(s) {
        Err(e) => Err(e),
        Ok((len, k)) => if s.len() - k < len {
            Err(Error::IOError)
        } else {
            Ok((s.subrange(k as int, k + len), k + len as nat))
        },
    }
}

/// Reading a text: a byte string that must be UTF-8.
pub open spec fn parse_string(s: Seq<u8>) -> Parsed<Seq<char>> {
    match parse_bytes(s) {
        Err(e) => Err(e),
        Ok((b, n)) => if valid_utf8(b) {
            Ok((decode_utf8(b), n))
        } else {
            Err(Error::UTF8Error)
        },
    }
}

/// A window as it is found at the front of an input.
pub struct Opened {
    /// The bytes of the window that the input holds.
    pub body: Seq<u8>,
    /// How many bytes of the window the input lacks.
    pub missing: nat,
    /// The bytes taken from the input: the prefix and the body.
    pub taken: nat,
}

/// The window of declared length `len` at the front of `s`: its body is as
/// much of that length as `s` holds.
pub open spec fn window_of(s: Seq<u8>, len: nat) -> Opened {
    let held = if len <= s.len() { len } else { s.len() };
    Opened { body: s.subrange(0, held as int), missing: (len - held) as nat, taken: held }
}

/// Opening a window: its length prefix is read, then the window of that
/// length follows.
pub open spec fn open_window(s: Seq<u8>) -> Result<Opened, Error> {
    match parse_varlen(s) {
        Err(e) => Err(e),
        Ok((len, k)) => {
            let w = window_of(s.skip(k as int), len as nat);
            Ok(Opened { body: w.body, missing: w.missing, taken: k + w.taken })
        },
    }
}

/// Closing a window after its content was read: a window that the input
/// does not hold in full cannot be closed.
pub open spec fn close_window<T>(w: Opened, content: T) -> Parsed<T> {
    if w.missing > 0 {
        Err(Error::IOError)
    } else {
        Ok((content, w.taken))
    }
}

/// `byteorder::BigEndian::read_u64`: the big-endian value of the first eight
/// bytes of the slice. It panics on a shorter slice.
#[verifier::external_body]
fn read_be_u64(buf: &[u8]) -> (n: u64)
    requires
        buf@.len() >= 8,
    ensures
        n == be_u64(buf@),
{
    BigEndian::read_u64(buf)
}

/// `byteorder::WriteBytesExt::write_u64` with `BigEndian` on a vector: the
/// eight bytes of `n`, most significant first, are appended.
#[verifier::external_body]
fn write_be_u64(out: &mut Vec<u8>, n: u64)
    ensures
        final(out)@ == old(out)@ + u64_be_bytes(n),
{
    let _ = byteorder::WriteBytesExt::write_u64::<BigEndian>(out, n);
}

/// `String::from_utf8`: the text that the bytes encode, if they are UTF-8.
#[verifier::external_body]
pub(crate) fn string_from_utf8(bytes: Vec<u8>) -> (r: Option<String>)
    ensures
        r is Some <==> valid_utf8(bytes@),
        r matches Some(t) ==> t@ == decode_utf8(bytes@),
{
    String::from_utf8(bytes).ok()
}

/// A reader over a region of bytes. It reads from the front of the region
/// and never beyond its end. A region may have been declared longer than
/// the input that holds it: the lacking bytes are counted, and such a
/// region can be read but not closed.
#[derive(Clone, Copy)]
pub struct ReadWindow<'a> {
    data: &'a [u8],
    pos: usize,
    end: usize,
    missing: usize,
}

impl<'a> ReadWindow<'a> {
    #[verifier::type_invariant]
    spec fn well_formed(self) -> bool {
        self.pos <= self.end <= self.data@.len()
    }

    /// The bytes of the region that were not read yet.
    pub closed spec fn unread(&self) -> Seq<u8> {
        self.data@.subrange(self.pos as int, self.end as int)
    }

    /// The number of declared bytes that the input lacks.
    pub closed spec fn missing(&self) -> nat {
        self.missing as nat
    }

    /// A reader over all of `data`.
    pub fn new(data: &'a [u8]) -> (r: Self)
        ensures
            r.unread() == data@,
            r.missing() == 0,
    {
        let r = ReadWindow { data, pos: 0, end: data.len(), missing: 0 };
        assert(data@.subrange(0, data@.len() as int) == data@);
        r
    }

    /// The bytes not read yet.
    pub fn rest(&self) -> (bytes: &'a [u8])
        ensures
            bytes@ == self.unread(),
    {
        proof {
            use_type_invariant(self);
        }
        vstd::slice::slice_subrange(self.data, self.pos, self.end)
    }

    /// The number of bytes not read yet.
    pub fn remaining_bytes(&self) -> (n: usize)
        ensures
            n == self.unread().len(),
    {
        proof {
            use_type_invariant(self);
        }
        self.end - self.pos
    }

    /// Reads one byte.
    pub fn read_u8(&mut self) -> (r: Result<u8, Error>)
        ensures
            reads(*old(self), *final(self), parse_u8(old(self).unread()), r),
            r matches Ok(b) ==> parse_u8(old(self).unread()) matches Ok((v, _)) && b == v,
    {
        proof {
            use_type_invariant(&*self);
        }
        if self.pos < self.end {
            let b: u8 = self.data[self.pos];
            self.pos = self.pos + 1;
            assert(final(self).unread() == old(self).unread().skip(1));
            Ok(b)
        } else {
            Err(Error::IOError)
        }
    }

    /// Reads a big-endian 64-bit number.
    pub fn read_u64(&mut self) -> (r: Result<u64, Error>)
        ensures
            reads(*old(self), *final(self), parse_u64(old(self).unread()), r),
            r matches Ok(n) ==> parse_u64(old(self).unread()) matches Ok((v, _)) && n == v,
    {
        proof {
            use_type_invariant(&*self);
        }
        if self.end - self.pos >= 8 {
            let field = vstd::slice::slice_subrange(self.data, self.pos, self.pos + 8);
            let n: u64 = read_be_u64(field);
            assert(be_u64(field@) == be_u64(old(self).unread()));
            self.pos = self.pos + 8;
            assert(final(self).unread() == old(self).unread().skip(8));
            Ok(n)
        } else {
            Err(Error::IOError)
        }
    }

    /// Skips what is left of the region. A region that the input does not
    /// hold in full cannot be skipped: the reader is then left as it was.
    pub fn skip_to_end(&mut self) -> (r: Result<(), Error>)
        ensures
            old(self).missing() == 0 ==> r is Ok && final(self).unread() == Seq::<u8>::empty()
                && final(self).missing() == 0,
            old(self).missing() > 0 ==> r == Err::<(), Error>(Error::IOError) && *final(self)
                == *old(self),
    {
        proof {
            use_type_invariant(&*self);
        }
        if self.missing != 0 {
            Err(Error::IOError)
        } else {
            self.pos = self.end;
            Ok(())
        }
    }
}

/// How a read leaves its reader: after a value, the bytes that the value
/// occupied are gone from the front; after a failure, the reader is as it
/// was. The result fails exactly as the parse does.
pub open spec fn reads<T, U>(
    before: ReadWindow<'_>,
    after: ReadWindow<'_>,
    parsed: Parsed<T>,
    r: Result<U, Error>,
) -> bool {
    match parsed {
        Ok((_, n)) => r is Ok && n <= before.unread().len() && after.unread()
            == before.unread().skip(n as int) && after.missing() == before.missing(),
        Err(e) => r == Err::<U, Error>(e) && after == before,
    }
}


/// How a write leaves its sink: the encoding is appended, or, where there
/// is none, the write fails with its reason and what the sink held is kept
/// at its front.
pub open spec fn writes<U>(before: Seq<u8>, after: Seq<u8>, enc: Encoding, r: Result<U, Error>) -> bool {
    match enc {
        Ok(w) => r is Ok && after == before + w,
        Err(e) => r == Err::<U, Error>(e) && before.is_prefix_of(after),
    }
}

/// Reading the protocol's items from a region of bytes.
pub trait ReadExt<'a>: Sized {
    /// Reads a length prefix.
    fn read_varlen(&mut self) -> Result<usize, Error>;

    /// Reads a text.
    fn read_string(&mut self) -> Result<String, Error>;

    /// Reads a byte string.
    fn read_bytes(&mut self) -> Result<Vec<u8>, Error>;

    /// Reads an identifier, which is a byte string.
    fn read_id(&mut self) -> Result<Vec<u8>, Error>;

    /// Takes the window of declared length `len` from the front.
    fn read_window_with_length(&mut self, len: usize) -> ReadWindow<'a>;

    /// Reads a length prefix and takes the window of that length.
    fn read_window(&mut self) -> Result<ReadWindow<'a>, Error>;
}

impl<'a> ReadExt<'a> for ReadWindow<'a> {
    fn read_varlen(&mut self) -> (r: Result<usize, Error>)
        ensures
            reads(*old(self), *final(self), parse_varlen(old(self).unread()), r),
            r matches Ok(n) ==> parse_varlen(old(self).unread()) matches Ok((v, _)) && n == v,
    {
        proof {
            use_type_invariant(&*self);
        }
        if self.pos >= self.end {
            return Err(Error::IOError);
        }
        let upper: u8 = self.data[self.pos];
        if upper & 0x80 == 0 {
            self.pos = self.pos + 1;
            assert(final(self).unread() == old(self).unread().skip(1));
            Ok(upper as usize)
        } else if self.end - self.pos < 2 {
            Err(Error::IOError)
        } else {
            let lower: u8 = self.data[self.pos + 1];
            assert((((upper & 0x7f) as usize) << 7) <= 0x3f80) by (bit_vector);
            let n: usize = (((upper & 0x7f) as usize) << 7) | (lower as usize);
            self.pos = self.pos + 2;
            assert(final(self).unread() == old(self).unread().skip(2));
            Ok(n)
        }
    }

    fn read_bytes(&mut self) -> (r: Result<Vec<u8>, Error>)
        ensures
            reads(*old(self), *final(self), parse_bytes(old(self).unread()), r),
            r matches Ok(b) ==> parse_bytes(old(self).unread()) matches Ok((v, _)) && b@ == v,
    {
        proof {
            use_type_invariant(&*self);
        }
        let mut cur = *self;
        let len: usize = cur.read_varlen()?;
        let ghost s = old(self).unread();
        let ghost k = parse_varlen(s)->Ok_0.1;
        let ghost mid = cur.unread();
        proof {
            use_type_invariant(&cur);
            varlen_bijection(0, 0, Seq::empty(), s);
            assert(mid == s.skip(k as int));
            assert(mid.len() == cur.end - cur.pos);
        }
        if cur.end - cur.pos < len {
            return Err(Error::IOError);
        }
        let field = vstd::slice::slice_subrange(cur.data, cur.pos, cur.pos + len);
        let out = vstd::slice::slice_to_vec(field);
        cur.pos = cur.pos + len;
        proof {
            assert(out@ == mid.subrange(0, len as int));
            assert(cur.unread() == mid.skip(len as int));
            assert(mid.subrange(0, len as int) == s.subrange(k as int, k + len));
            assert(mid.skip(len as int) == s.skip(k + len));
        }
        *self = cur;
        Ok(out)
    }

    fn read_string(&mut self) -> (r: Result<String, Error>)
        ensures
            reads(*old(self), *final(self), parse_string(old(self).unread()), r),
            r matches Ok(t) ==> parse_string(old(self).unread()) matches Ok((v, _)) && t@ == v,
    {
        let mut cur = *self;
        let bytes = cur.read_bytes()?;
        match string_from_utf8(bytes) {
            Some(text) => {
                *self = cur;
                Ok(text)
            },
            None => Err(Error::UTF8Error),
        }
    }

    fn read_id(&mut self) -> (r: Result<Vec<u8>, Error>)
        ensures
            reads(*old(self), *final(self), parse_bytes(old(self).unread()), r),
            r matches Ok(b) ==> parse_bytes(old(self).unread()) matches Ok((v, _)) && b@ == v,
    {
        self.read_bytes()
    }

    fn read_window_with_length(&mut self, len: usize) -> (w: ReadWindow<'a>)
        ensures
            w.unread() == window_of(old(self).unread(), len as nat).body,
            w.missing() == window_of(old(self).unread(), len as nat).missing,
            final(self).unread() == old(self).unread().skip(
                window_of(old(self).unread(), len as nat).taken as int,
            ),
            final(self).missing() == old(self).missing(),
    {
        proof {
            use_type_invariant(&*self);
        }
        let avail: usize = self.end - self.pos;
        let held: usize = if len <= avail { len } else { avail };
        let w = ReadWindow {
            data: self.data,
            pos: self.pos,
            end: self.pos + held,
            missing: len - held,
        };
        self.pos = self.pos + held;
        proof {
            let s = old(self).unread();
            assert(w.unread() == s.subrange(0, held as int));
            assert(final(self).unread() == s.skip(held as int));
        }
        w
    }

    fn read_window(&mut self) -> (r: Result<ReadWindow<'a>, Error>)
        ensures
            match open_window(old(self).unread()) {
                Ok(o) => r matches Ok(w) && w.unread() == o.body && w.missing() == o.missing
                    && o.taken <= old(self).unread().len() && final(self).unread() == old(
                    self,
                ).unread().skip(o.taken as int)
                    && final(self).missing() == old(self).missing(),
                Err(e) => r == Err::<ReadWindow<'a>, Error>(e) && *final(self) == *old(self),
            },
    {
        let len: usize = self.read_varlen()?;
        let ghost mid = self.unread();
        let w = self.read_window_with_length(len);
        proof {
            let s = old(self).unread();
            let k = parse_varlen(s)->Ok_0.1;
            let o = window_of(mid, len as nat);
            assert(mid == s.skip(k as int));
            assert(mid.skip(o.taken as int) == s.skip((k + o.taken) as int));
        }
        Ok(w)
    }
}

/// Writing the protocol's items to a sink of bytes.
pub trait WriteExt: Sized + View<V = Seq<u8>> {
    /// Writes one byte.
    fn write_u8(&mut self, b: u8)
        ensures
            final(self)@ == old(self)@.push(b),
    ;

    /// Writes a big-endian 64-bit number.
    fn write_u64(&mut self, n: u64)
        ensures
            final(self)@ == old(self)@ + u64_be_bytes(n),
    ;

    /// Writes a length prefix, and returns the number of bytes it took.
    /// Nothing is written where the length is too large.
    fn write_varlen(&mut self, len: usize) -> (r: Result<usize, Error>)
        ensures
            writes(old(self)@, final(self)@, varlen_encoding(len as nat), r),
            r matches Ok(n) ==> n == varlen_bytes(len).len(),
            r is Err ==> final(self)@ == old(self)@,
    ;

    /// Writes a text, and returns the number of bytes it took. Nothing is
    /// written where the text is too long.
    fn write_string(&mut self, string: &str) -> (r: Result<usize, Error>)
        ensures
            writes(old(self)@, final(self)@, string_encoding(string@), r),
            r matches Ok(n) ==> string_encoding(string@) matches Ok(w) && n == w.len(),
            r is Err ==> final(self)@ == old(self)@,
    ;

    /// Writes a byte string, and returns the number of bytes it took.
    /// Nothing is written where the byte string is too long.
    fn write_bytes(&mut self, bytes: &[u8]) -> (r: Result<usize, Error>)
        ensures
            writes(old(self)@, final(self)@, bytes_encoding(bytes@), r),
            r matches Ok(n) ==> bytes_encoding(bytes@) matches Ok(w) && n == w.len(),
            r is Err ==> final(self)@ == old(self)@,
    ;

    /// Writes an identifier, which is a byte string.
    fn write_id(&mut self, id: &[u8]) -> (r: Result<usize, Error>)
        ensures
            writes(old(self)@, final(self)@, bytes_encoding(id@), r),
            r matches Ok(n) ==> bytes_encoding(id@) matches Ok(w) && n == w.len(),
            r is Err ==> final(self)@ == old(self)@,
    ;

    /// Opens an empty window. What is written to it reaches a sink when the
    /// window is finished.
    fn write_window(&mut self) -> (w: WriteWindow)
        ensures
            w.buffer@ == Seq::<u8>::empty(),
            final(self)@ == old(self)@,
    ;
}

impl WriteExt for Vec<u8> {
    fn write_u8(&mut self, b: u8) {
        self.push(b);
    }

    fn write_u64(&mut self, n: u64) {
        write_be_u64(self, n);
    }

    fn write_varlen(&mut self, len: usize) -> (r: Result<usize, Error>) {
        check_varlen(len)?;
        if len > 0x7f {
            assert((0x80 | (len >> 7)) <= 0xff && (len & 0x7f) <= 0x7f) by (bit_vector)
                requires
                    len <= 0x3fff,
            ;
            let first_byte: u8 = (0x80 | (len >> 7)) as u8;
            let second_byte: u8 = (len & 0x7f) as u8;
            self.push(first_byte);
            self.push(second_byte);
            assert(final(self)@ == old(self)@ + varlen_bytes(len));
            Ok(2)
        } else {
            self.push(len as u8);
            assert(final(self)@ == old(self)@ + varlen_bytes(len));
            Ok(1)
        }
    }

    fn write_string(&mut self, string: &str) -> (r: Result<usize, Error>) {
        self.write_bytes(string.as_bytes())
    }

    fn write_bytes(&mut self, bytes: &[u8]) -> (r: Result<usize, Error>) {
        let len_len: usize = self.write_varlen(bytes.len())?;
        self.extend_from_slice(bytes);
        assert(final(self)@ == old(self)@ + (varlen_bytes(bytes.len()) + bytes@));
        Ok(len_len + bytes.len())
    }

    fn write_id(&mut self, id: &[u8]) -> (r: Result<usize, Error>) {
        self.write_bytes(id)
    }

    fn write_window(&mut self) -> (w: WriteWindow) {
        WriteWindow { buffer: Vec::new() }
    }
}

/// A window that is being written: its bytes are collected, and reach a
/// sink, behind their length prefix, when the window is finished.
pub struct WriteWindow {
    /// The bytes collected so far.
    pub buffer: Vec<u8>,
}

impl WriteWindow {
    /// Writes the window to `inner`: the length prefix of what was
    /// collected, then the collected bytes. Nothing is written where they
    /// are too many for a length prefix.
    pub fn finish(self, inner: &mut Vec<u8>) -> (r: Result<(), Error>)
        ensures
            writes(old(inner)@, final(inner)@, windowed(Ok(self.buffer@)), r),
            r is Err ==> final(inner)@ == old(inner)@,
    {
        inner.write_varlen(self.buffer.len())?;
        inner.extend_from_slice(self.buffer.as_slice());
        assert(final(inner)@ == old(inner)@ + (varlen_bytes(self.buffer.len()) + self.buffer@));
        Ok(())
    }
}

impl View for WriteWindow {
    type V = Seq<u8>;

    open spec fn view(&self) -> Seq<u8> {
        self.buffer@
    }
}

impl WriteExt for WriteWindow {
    fn write_u8(&mut self, b: u8) {
        self.buffer.write_u8(b)
    }

    fn write_u64(&mut self, n: u64) {
        self.buffer.write_u64(n)
    }

    fn write_varlen(&mut self, len: usize) -> (r: Result<usize, Error>) {
        self.buffer.write_varlen(len)
    }

    fn write_string(&mut self, string: &str) -> (r: Result<usize, Error>) {
        self.buffer.write_string(string)
    }

    fn write_bytes(&mut self, bytes: &[u8]) -> (r: Result<usize, Error>) {
        self.buffer.write_bytes(bytes)
    }

    fn write_id(&mut self, id: &[u8]) -> (r: Result<usize, Error>) {
        self.buffer.write_id(id)
    }

    fn write_window(&mut self) -> (w: WriteWindow) {
        WriteWindow { buffer: Vec::new() }
    }
}

} // verus!
