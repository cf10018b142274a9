//! The commands that the program of a rule prints, one on each line:
//! `send [-s|--source SRC] DEST PAYLOAD`.

use vstd::prelude::*;
use crate::can::{CanAddr, CanPacket, CanPacketView, MAX_PAYLOAD, MAX_PORT};
use crate::hook::bytes_equal;

verus! {

/// Why a line is no command.
#[derive(Debug, Clone, Copy, PartialEq, Eq, Structural)]
pub enum ControlError {
    /// The line does not start with `send`.
    UnknownCommand,
    /// A destination or a payload is lacking.
    MissingArgument,
    /// There is more on the line than a command takes.
    UnexpectedArgument,
    /// A source or a destination is not `addr:port` in hexadecimal, or its
    /// port has more than six bits.
    InvalidAddress,
    /// The payload is not hexadecimal of an even number of up to sixteen digits.
    InvalidPayload,
}

/// The value of a hexadecimal digit, in either case.
pub open spec fn hex_value(c: u8) -> Option<u8> {
    if 0x30 <= c <= 0x39 {
        Some((c - 0x30) as u8)
    } else if 0x61 <= c <= 0x66 {
        Some((c - 0x61 + 10) as u8)
    } else if 0x41 <= c <= 0x46 {
        Some((c - 0x41 + 10) as u8)
    } else {
        None
    }
}

/// The bytes that a text of hexadecimal digits stands for, two digits to
/// a byte; none where the digits are odd in number or one is no digit.
pub open spec fn hex_decoding(text: Seq<u8>) -> Option<Seq<u8>> {
    if text.len() % 2 == 0 && forall|i: int| 0 <= i < text.len() ==> hex_value(text[i]) is Some {
        Some(
            Seq::new(
                text.len() / 2,
                |i: int|
                    (hex_value(text[2 * i])->Some_0 * 16 + hex_value(text[2 * i + 1])->Some_0) as u8,
            ),
        )
    } else {
        None
    }
}

/// `hex::decode`: the bytes that the text stands for, two hexadecimal
/// digits of either case to a byte. It fails on an odd number of digits
/// and on what is no digit.
#[verifier::external_body]
fn hex_decode(text: &[u8]) -> (r: Option<Vec<u8>>)
    ensures
        match r {
            Some(bytes) => hex_decoding(text@) == Some(bytes@),
            None => hex_decoding(text@) is None,
        },
{
    hex::decode(text).ok()
}

/// The place of the first `mark` in `s`, or the length of `s` where it has none.
pub open spec fn first_of(s: Seq<u8>, mark: u8) -> int
    decreases s.len(),
{
    if s.len() == 0 || s[0] == mark {
        0
    } else {
        1 + first_of(s.skip(1), mark)
    }
}

/// The words of a line: what stands between its spaces, and before the
/// first and after the last.
pub open spec fn words(s: Seq<u8>) -> Seq<Seq<u8>>
    decreases s.len(),
{
    let k = first_of(s, 0x20);
    if 0 <= k < s.len() {
        seq![s.take(k)] + words(s.skip(k + 1))
    } else {
        seq![s]
    }
}

/// The byte that one or two hexadecimal digits stand for.
pub open spec fn hex_byte(text: Seq<u8>) -> Option<u8> {
    if text.len() == 1 && hex_value(text[0]) is Some {
        hex_value(text[0])
    } else if text.len() == 2 && hex_value(text[0]) is Some && hex_value(text[1]) is Some {
        Some((hex_value(text[0])->Some_0 * 16 + hex_value(text[1])->Some_0) as u8)
    } else {
        None
    }
}

/// The endpoint that `addr:port` stands for, each part one or two
/// hexadecimal digits, the port of no more than six bits.
pub open spec fn address(text: Seq<u8>) -> Option<CanAddr> {
    let k = first_of(text, 0x3a);
    if 0 <= k < text.len() {
        match (hex_byte(text.take(k)), hex_byte(text.skip(k + 1))) {
            (Some(addr), Some(port)) => if port <= MAX_PORT {
                Some(CanAddr { addr, port })
            } else {
                None
            },
            _ => None,
        }
    } else {
        None
    }
}

/// The payload that a text of hexadecimal digits stands for: up to eight bytes.
pub open spec fn payload_of(text: Seq<u8>) -> Option<Seq<u8>> {
    match hex_decoding(text) {
        Some(bytes) => if bytes.len() <= MAX_PAYLOAD {
            Some(bytes)
        } else {
            None
        },
        None => None,
    }
}

/// The frame that a source, a destination and a payload stand for.
pub open spec fn frame_of(src: Option<CanAddr>, dest: Option<CanAddr>, payload: Option<Seq<u8>>)
    -> Result<CanPacketView, ControlError> {
    match src {
        None => Err(ControlError::InvalidAddress),
        Some(src) => match dest {
            None => Err(ControlError::InvalidAddress),
            Some(dest) => match payload {
                None => Err(ControlError::InvalidPayload),
                Some(payload) => Ok(CanPacketView { src, dest, payload }),
            },
        },
    }
}

/// The word `send`.
pub open spec fn word_send() -> Seq<u8> {
    seq![0x73u8, 0x65u8, 0x6eu8, 0x64u8]
}

/// The word `-s`.
pub open spec fn word_s() -> Seq<u8> {
    seq![0x2du8, 0x73u8]
}

/// The word `--source`.
pub open spec fn word_source() -> Seq<u8> {
    seq![0x2du8, 0x2du8, 0x73u8, 0x6fu8, 0x75u8, 0x72u8, 0x63u8, 0x65u8]
}

/// The frame that a line asks to be sent. Without a source the frame
/// comes from `00:00`.
pub open spec fn command(line: Seq<u8>) -> Result<CanPacketView, ControlError> {
    let w = words(line);
    if w.len() == 0 || w[0] != word_send() {
        Err(ControlError::UnknownCommand)
    } else if w.len() >= 2 && (w[1] == word_s() || w[1] == word_source()) {
        if w.len() < 5 {
            Err(ControlError::MissingArgument)
        } else if w.len() > 5 {
            Err(ControlError::UnexpectedArgument)
        } else {
            frame_of(address(w[2]), address(w[3]), payload_of(w[4]))
        }
    } else if w.len() < 3 {
        Err(ControlError::MissingArgument)
    } else if w.len() > 3 {
        Err(ControlError::UnexpectedArgument)
    } else {
        frame_of(Some(CanAddr { addr: 0, port: 0 }), address(w[1]), payload_of(w[2]))
    }
}

/// Where no `mark` stands before `k`, and one stands at `k` or `s` ends
/// there, `k` is the place of the first `mark`.
proof fn lemma_first_of(s: Seq<u8>, mark: u8, k: int)
    requires
        0 <= k <= s.len(),
        forall|i: int| 0 <= i < k ==> s[i] != mark,
        k == s.len() || s[k] == mark,
    ensures
        first_of(s, mark) == k,
    decreases k,
{
    if k > 0 {
        let t = s.skip(1);
        assert forall|i: int| 0 <= i < k - 1 implies t[i] != mark by {
            assert(t[i] == s[i + 1]);
        }
        lemma_first_of(t, mark, k - 1);
    }
}

/// The place of the first `mark` at or after `from`, or the length of the text.
fn find(text: &[u8], from: usize, mark: u8) -> (at: usize)
    requires
        from <= text@.len(),
    ensures
        from <= at <= text@.len(),
        at - from == first_of(text@.skip(from as int), mark),
{
    let mut at: usize = from;
    while at < text.len() && text[at] != mark
        invariant
            from <= at <= text@.len(),
            forall|i: int| from <= i < at ==> text@[i] != mark,
        decreases text.len() - at,
    {
        at = at + 1;
    }
    proof {
        let t = text@.skip(from as int);
        assert forall|i: int| 0 <= i < at - from implies t[i] != mark by {
            assert(t[i] == text@[from + i]);
        }
        lemma_first_of(t, mark, at - from);
    }
    at
}

/// The words of a line.
pub fn split_words(line: &[u8]) -> (w: Vec<Vec<u8>>)
    ensures
        w@.len() == words(line@).len(),
        forall|i: int| 0 <= i < w@.len() ==> (#[trigger] w@[i])@ == words(line@)[i],
{
    let mut out: Vec<Vec<u8>> = Vec::new();
    let mut start: usize = 0;
    let ghost mut done: Seq<Seq<u8>> = Seq::empty();
    proof {
        assert(line@.skip(0) == line@);
        assert(done + words(line@) == words(line@));
    }
    loop
        invariant_except_break
            start <= line@.len(),
            out@.len() == done.len(),
            forall|i: int| 0 <= i < out@.len() ==> (#[trigger] out@[i])@ == done[i],
            words(line@) == done + words(line@.skip(start as int)),
        ensures
            out@.len() == words(line@).len(),
            forall|i: int| 0 <= i < out@.len() ==> (#[trigger] out@[i])@ == words(line@)[i],
        decreases line@.len() - start,
    {
        let end: usize = find(line, start, 0x20);
        let word = vstd::slice::slice_to_vec(vstd::slice::slice_subrange(line, start, end));
        let ghost tail = line@.skip(start as int);
        proof {
            assert(word@ == tail.take(end - start));
        }
        out.push(word);
        if end >= line.len() {
            proof {
                assert(tail.take(tail.len() as int) == tail);
                done = done.push(tail);
                assert(words(line@) == done);
            }
            break;
        }
        proof {
            assert(tail.skip(end - start + 1) == line@.skip(end + 1));
            let next = words(line@.skip(end + 1));
            assert(done + (seq![word@] + next) == done.push(word@) + next);
            done = done.push(word@);
        }
        start = end + 1;
    }
    out
}

/// The value of a hexadecimal digit, in either case.
fn digit_value(c: u8) -> (r: Option<u8>)
    ensures
        r == hex_value(c),
{
    if 0x30 <= c && c <= 0x39 {
        Some(c - 0x30)
    } else if 0x61 <= c && c <= 0x66 {
        Some(c - 0x61 + 10)
    } else if 0x41 <= c && c <= 0x46 {
        Some(c - 0x41 + 10)
    } else {
        None
    }
}

/// The byte that one or two hexadecimal digits stand for.
pub fn parse_hex_byte(text: &[u8]) -> (r: Option<u8>)
    ensures
        r == hex_byte(text@),
{
    if text.len() == 1 {
        digit_value(text[0])
    } else if text.len() == 2 {
        match (digit_value(text[0]), digit_value(text[1])) {
            (Some(high), Some(low)) => Some(high * 16 + low),
            _ => None,
        }
    } else {
        None
    }
}

/// The endpoint that `addr:port` stands for.
pub fn parse_address(text: &[u8]) -> (r: Option<CanAddr>)
    ensures
        r == address(text@),
{
    let colon: usize = find(text, 0, 0x3a);
    proof {
        assert(text@.skip(0) == text@);
    }
    if colon >= text.len() {
        return None;
    }
    let first = vstd::slice::slice_subrange(text, 0, colon);
    let second = vstd::slice::slice_subrange(text, colon + 1, text.len());
    proof {
        assert(first@ == text@.take(colon as int));
        assert(second@ == text@.skip(colon + 1));
    }
    match (parse_hex_byte(first), parse_hex_byte(second)) {
        (Some(addr), Some(port)) => CanAddr::new(addr, port),
        _ => None,
    }
}

/// The payload that a text of hexadecimal digits stands for, given the
/// bytes that the digits were decoded to.
pub fn checked_payload(decoded: Option<Vec<u8>>) -> (r: Option<Vec<u8>>)
    ensures
        match r {
            Some(bytes) => decoded matches Some(all) && all@ == bytes@ && bytes@.len()
                <= MAX_PAYLOAD,
            None => decoded matches Some(all) ==> all@.len() > MAX_PAYLOAD,
        },
{
    match decoded {
        Some(bytes) => {
            if bytes.len() <= MAX_PAYLOAD {
                Some(bytes)
            } else {
                None
            }
        },
        None => None,
    }
}

/// The payload that a text of hexadecimal digits stands for.
pub fn parse_payload(text: &[u8]) -> (r: Option<Vec<u8>>)
    ensures
        match r {
            Some(bytes) => payload_of(text@) == Some(bytes@),
            None => payload_of(text@) is None,
        },
{
    checked_payload(hex_decode(text))
}

/// The frame that a source, a destination and a payload stand for.
fn build(src: Option<CanAddr>, dest: Option<CanAddr>, payload: Option<Vec<u8>>) -> (r: Result<
    CanPacket,
    ControlError,
>)
    requires
        src matches Some(a) ==> a.valid(),
        dest matches Some(a) ==> a.valid(),
        payload matches Some(bytes) ==> bytes@.len() <= MAX_PAYLOAD,
    ensures
        match frame_of(
            src,
            dest,
            match payload {
                Some(bytes) => Some(bytes@),
                None => None,
            },
        ) {
            Ok(view) => r matches Ok(p) && p@ == view && p.valid(),
            Err(e) => r == Err::<CanPacket, ControlError>(e),
        },
{
    let src = match src {
        Some(a) => a,
        None => {
            return Err(ControlError::InvalidAddress);
        },
    };
    let dest = match dest {
        Some(a) => a,
        None => {
            return Err(ControlError::InvalidAddress);
        },
    };
    let payload = match payload {
        Some(bytes) => bytes,
        None => {
            return Err(ControlError::InvalidPayload);
        },
    };
    Ok(CanPacket { src, dest, payload })
}

/// Reads one line that the program of a rule has printed: the frame that
/// it asks to be sent, or why the line is no command.
pub fn process_control_message(line: &[u8]) -> (r: Result<CanPacket, ControlError>)
    ensures
        match command(line@) {
            Ok(view) => r matches Ok(p) && p@ == view && p.valid(),
            Err(e) => r == Err::<CanPacket, ControlError>(e),
        },
{
    let w = split_words(line);
    let send: [u8; 4] = [0x73, 0x65, 0x6e, 0x64];
    let short: [u8; 2] = [0x2d, 0x73];
    let long: [u8; 8] = [0x2d, 0x2d, 0x73, 0x6f, 0x75, 0x72, 0x63, 0x65];
    proof {
        assert(send@ == word_send());
        assert(short@ == word_s());
        assert(long@ == word_source());
    }
    if w.len() == 0 || !bytes_equal(w[0].as_slice(), send.as_slice()) {
        return Err(ControlError::UnknownCommand);
    }
    if w.len() >= 2 && (bytes_equal(w[1].as_slice(), short.as_slice()) || bytes_equal(
        w[1].as_slice(),
        long.as_slice(),
    )) {
        if w.len() < 5 {
            Err(ControlError::MissingArgument)
        } else if w.len() > 5 {
            Err(ControlError::UnexpectedArgument)
        } else {
            build(
                parse_address(w[2].as_slice()),
                parse_address(w[3].as_slice()),
                parse_payload(w[4].as_slice()),
            )
        }
    } else if w.len() < 3 {
        Err(ControlError::MissingArgument)
    } else if w.len() > 3 {
        Err(ControlError::UnexpectedArgument)
    } else {
        build(
            Some(CanAddr { addr: 0, port: 0 }),
            parse_address(w[1].as_slice()),
            parse_payload(w[2].as_slice()),
        )
    }
}

} // verus!
