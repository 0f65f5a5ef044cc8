//! The outer message envelope: its tag byte, its payload codecs, and the
//! frame reader that finds a complete terminated message in a streaming
//! buffer.
//!
//! Every message is one tag byte, a tag-dependent payload, and a two-byte
//! terminator (carriage return, line feed). Strings and byte blobs inside a
//! payload carry a 16-bit big-endian length prefix.

use vstd::prelude::*;
use vstd::utf8::{decode_utf8, encode_utf8, valid_utf8};

use crate::command::{cmd_dec, cmd_enc, cmd_wf, Command, CommandModel};
use crate::wire::{be16_dec, be16_enc, bytes_to_string, copy_range, i32_enc, push_i32_be,
    u16_from_be, push_u16_be};

verus! {

/// Why a buffer failed to yield a message.
#[derive(Debug, Clone, Copy, PartialEq, Eq, Structural)]
pub enum Error {
    /// The buffer does not yet hold a complete terminated message, or a
    /// payload ended before its announced length.
    Incomplete,
    /// The leading tag byte names no message variant.
    UnknownMessageTag(u8),
}

/// The kind of a message, as named by its wire tag.
#[derive(Debug, Clone, Copy, PartialEq, Eq, Structural)]
pub enum Variant {
    Ping,
    Command,
    Okay,
    Null,
    Failure,
    Int,
    Text,
}

impl Variant {
    /// The wire tag byte of this variant.
    pub open spec fn spec_byte(self) -> u8 {
        match self {
            Variant::Ping => 0,
            Variant::Command => 1,
            Variant::Okay => 2,
            Variant::Null => 3,
            Variant::Failure => 4,
            Variant::Int => 5,
            Variant::Text => 6,
        }
    }

    /// Writes this variant's wire tag.
    pub fn byte(self) -> (b: u8)
        ensures
            b == self.spec_byte(),
    {
        match self {
            Variant::Ping => 0,
            Variant::Command => 1,
            Variant::Okay => 2,
            Variant::Null => 3,
            Variant::Failure => 4,
            Variant::Int => 5,
            Variant::Text => 6,
        }
    }

    /// The variant a wire tag byte names, if any.
    pub fn from_byte(b: u8) -> (r: Option<Variant>)
        ensures
            (match r {
                Some(v) => v.spec_byte() == b,
                None => b > 6,
            }),
    {
        match b {
            0 => Some(Variant::Ping),
            1 => Some(Variant::Command),
            2 => Some(Variant::Okay),
            3 => Some(Variant::Null),
            4 => Some(Variant::Failure),
            5 => Some(Variant::Int),
            6 => Some(Variant::Text),
            _ => None,
        }
    }
}

/// The wire form of a length-prefixed string: a 16-bit big-endian count of
/// UTF-8 bytes, then those bytes.
pub open spec fn string_enc(s: Seq<char>) -> Seq<u8> {
    be16_enc(encode_utf8(s).len() as u16) + encode_utf8(s)
}

/// Whether a string's UTF-8 bytes fit a 16-bit length prefix.
pub open spec fn string_fits(s: Seq<char>) -> bool {
    encode_utf8(s).len() <= 0xFFFF
}

/// The wire form of a length-prefixed byte blob.
pub open spec fn bytes_enc(b: Seq<u8>) -> Seq<u8> {
    be16_enc(b.len() as u16) + b
}

/// Whether a byte blob fits a 16-bit length prefix.
pub open spec fn bytes_fits(b: Seq<u8>) -> bool {
    b.len() <= 0xFFFF
}

/// What reading a length-prefixed string at the start of `tail` yields: the
/// string and the count of bytes consumed, or the exact error.
pub open spec fn string_dec(tail: Seq<u8>) -> Result<(Seq<char>, int), crate::Error> {
    if tail.len() < 2 {
        Err(crate::Error::ParseMessage(Error::Incomplete))
    } else {
        let n = be16_dec(tail[0], tail[1]) as int;
        if tail.len() < 2 + n {
            Err(crate::Error::ParseMessage(Error::Incomplete))
        } else if valid_utf8(tail.subrange(2, 2 + n)) {
            Ok((decode_utf8(tail.subrange(2, 2 + n)), 2 + n))
        } else {
            Err(crate::Error::InvalidUtf8)
        }
    }
}

/// What reading a length-prefixed byte blob at the start of `tail` yields.
pub open spec fn bytes_dec(tail: Seq<u8>) -> Result<(Seq<u8>, int), crate::Error> {
    if tail.len() < 2 {
        Err(crate::Error::ParseMessage(Error::Incomplete))
    } else {
        let n = be16_dec(tail[0], tail[1]) as int;
        if tail.len() < 2 + n {
            Err(crate::Error::ParseMessage(Error::Incomplete))
        } else {
            Ok((tail.subrange(2, 2 + n), 2 + n))
        }
    }
}

/// What reading a fixed four-byte big-endian integer at the start of `tail`
/// yields.
pub open spec fn int_dec(tail: Seq<u8>) -> Result<(i32, int), crate::Error> {
    if tail.len() < 4 {
        Err(crate::Error::ParseMessage(Error::Incomplete))
    } else {
        Ok((crate::wire::i32_dec(tail[0], tail[1], tail[2], tail[3]), 4))
    }
}

/// Reads a length-prefixed UTF-8 string from `buf` at `pos`, advancing `pos`
/// past it on success and leaving `pos` unchanged on failure.
pub fn read_string(buf: &Vec<u8>, pos: &mut usize) -> (r: Result<String, crate::Error>)
    requires
        *old(pos) <= buf@.len(),
    ensures
        *final(pos) <= buf@.len(),
        (match r {
            Ok(s) => {
                &&& string_dec(buf@.skip(*old(pos) as int)) == Ok::<(Seq<char>, int), crate::Error>(
                    (s@, *final(pos) - *old(pos)),
                )
                &&& *old(pos) <= *final(pos)
            },
            Err(e) => {
                &&& string_dec(buf@.skip(*old(pos) as int)) == Err::<(Seq<char>, int), crate::Error>(e)
                &&& *final(pos) == *old(pos)
            },
        }),
{
    let start: usize = *pos;
    let ghost tail = buf@.skip(start as int);
    if buf.len() - start < 2 {
        return Err(crate::Error::ParseMessage(Error::Incomplete));
    }
    let n: usize = u16_from_be(buf[start], buf[start + 1]) as usize;
    assert(n == be16_dec(tail[0], tail[1]));
    if buf.len() - (start + 2) < n {
        return Err(crate::Error::ParseMessage(Error::Incomplete));
    }
    let bs = copy_range(buf, start + 2, start + 2 + n);
    proof {
        assert(bs@ =~= tail.subrange(2, 2 + n as int));
    }
    match bytes_to_string(bs) {
        Some(s) => {
            *pos = start + 2 + n;
            Ok(s)
        },
        None => Err(crate::Error::InvalidUtf8),
    }
}

/// Reads a length-prefixed byte blob from `buf` at `pos`, advancing `pos`
/// past it on success and leaving `pos` unchanged on failure.
pub fn read_bytes(buf: &Vec<u8>, pos: &mut usize) -> (r: Result<Vec<u8>, crate::Error>)
    requires
        *old(pos) <= buf@.len(),
    ensures
        *final(pos) <= buf@.len(),
        (match r {
            Ok(b) => {
                &&& bytes_dec(buf@.skip(*old(pos) as int)) == Ok::<(Seq<u8>, int), crate::Error>(
                    (b@, *final(pos) - *old(pos)),
                )
                &&& *old(pos) <= *final(pos)
            },
            Err(e) => {
                &&& bytes_dec(buf@.skip(*old(pos) as int)) == Err::<(Seq<u8>, int), crate::Error>(e)
                &&& *final(pos) == *old(pos)
            },
        }),
{
    let start: usize = *pos;
    let ghost tail = buf@.skip(start as int);
    if buf.len() - start < 2 {
        return Err(crate::Error::ParseMessage(Error::Incomplete));
    }
    let n: usize = u16_from_be(buf[start], buf[start + 1]) as usize;
    assert(n == be16_dec(tail[0], tail[1]));
    if buf.len() - (start + 2) < n {
        return Err(crate::Error::ParseMessage(Error::Incomplete));
    }
    let bs = copy_range(buf, start + 2, start + 2 + n);
    proof {
        assert(bs@ =~= tail.subrange(2, 2 + n as int));
    }
    *pos = start + 2 + n;
    Ok(bs)
}

/// Reads a four-byte big-endian integer from `buf` at `pos`, advancing `pos`
/// past it on success and leaving `pos` unchanged on failure.
pub fn read_int(buf: &Vec<u8>, pos: &mut usize) -> (r: Result<i32, crate::Error>)
    requires
        *old(pos) <= buf@.len(),
    ensures
        *final(pos) <= buf@.len(),
        (match r {
            Ok(n) => {
                &&& int_dec(buf@.skip(*old(pos) as int)) == Ok::<(i32, int), crate::Error>(
                    (n, *final(pos) - *old(pos)),
                )
                &&& *old(pos) <= *final(pos)
            },
            Err(e) => {
                &&& int_dec(buf@.skip(*old(pos) as int)) == Err::<(i32, int), crate::Error>(e)
                &&& *final(pos) == *old(pos)
            },
        }),
{
    let start: usize = *pos;
    let ghost tail = buf@.skip(start as int);
    if buf.len() - start < 4 {
        return Err(crate::Error::ParseMessage(Error::Incomplete));
    }
    let n = crate::wire::i32_from_be(buf[start], buf[start + 1], buf[start + 2], buf[start + 3]);
    assert(n == crate::wire::i32_dec(tail[0], tail[1], tail[2], tail[3]));
    *pos = start + 4;
    Ok(n)
}

/// Appends the wire form of a string, or reports that it is too long for
/// its length prefix and leaves the buffer unchanged.
pub fn write_string(buf: &mut Vec<u8>, value: &str) -> (r: Result<(), crate::Error>)
    ensures
        string_fits(value@) ==> r == Ok::<(), crate::Error>(()) && final(buf)@ == old(buf)@
            + string_enc(value@),
        !string_fits(value@) ==> r == Err::<(), crate::Error>(crate::Error::StringTooLarge)
            && final(buf)@ == old(buf)@,
{
    let mut bs = vstd::string::StrSliceExecFns::as_bytes_vec(value);
    if bs.len() > 0xFFFF {
        return Err(crate::Error::StringTooLarge);
    }
    push_u16_be(buf, bs.len() as u16);
    buf.append(&mut bs);
    proof {
        assert(buf@ =~= old(buf)@ + string_enc(value@));
    }
    Ok(())
}

/// Appends the wire form of a byte blob, or reports that it is too long for
/// its length prefix and leaves the buffer unchanged.
pub fn write_bytes(buf: &mut Vec<u8>, value: &Vec<u8>) -> (r: Result<(), crate::Error>)
    ensures
        bytes_fits(value@) ==> r == Ok::<(), crate::Error>(()) && final(buf)@ == old(buf)@
            + bytes_enc(value@),
        !bytes_fits(value@) ==> r == Err::<(), crate::Error>(crate::Error::StringTooLarge)
            && final(buf)@ == old(buf)@,
{
    if value.len() > 0xFFFF {
        return Err(crate::Error::StringTooLarge);
    }
    push_u16_be(buf, value.len() as u16);
    let mut bs = value.clone();
    buf.append(&mut bs);
    proof {
        assert(buf@ =~= old(buf)@ + bytes_enc(value@));
    }
    Ok(())
}

/// A well-formed wire string at the front of a buffer reads back as itself,
/// whatever follows it, and consumes exactly its own encoding.
pub proof fn lemma_string_dec_prefix(s: Seq<char>, rest: Seq<u8>)
    requires
        string_fits(s),
    ensures
        string_dec(string_enc(s) + rest) == Ok::<(Seq<char>, int), crate::Error>(
            (s, string_enc(s).len() as int),
        ),
        string_enc(s).len() == 2 + encode_utf8(s).len(),
{
    let bs = encode_utf8(s);
    let n16 = bs.len() as u16;
    let tail = string_enc(s) + rest;
    crate::wire::lemma_be16_round_trip(n16);
    assert(tail[0] == be16_enc(n16)[0]);
    assert(tail[1] == be16_enc(n16)[1]);
    assert(be16_dec(tail[0], tail[1]) == n16);
    assert(tail.subrange(2, 2 + bs.len() as int) =~= bs);
    vstd::utf8::encode_utf8_valid_utf8(s);
    vstd::utf8::encode_utf8_decode_utf8(s);
}

/// A wire byte blob at the front of a buffer reads back as itself, whatever
/// follows it, and consumes exactly its own encoding.
pub proof fn lemma_bytes_dec_prefix(b: Seq<u8>, rest: Seq<u8>)
    requires
        bytes_fits(b),
    ensures
        bytes_dec(bytes_enc(b) + rest) == Ok::<(Seq<u8>, int), crate::Error>(
            (b, bytes_enc(b).len() as int),
        ),
        bytes_enc(b).len() == 2 + b.len(),
{
    let n16 = b.len() as u16;
    let tail = bytes_enc(b) + rest;
    crate::wire::lemma_be16_round_trip(n16);
    assert(tail[0] == be16_enc(n16)[0]);
    assert(tail[1] == be16_enc(n16)[1]);
    assert(be16_dec(tail[0], tail[1]) == n16);
    assert(tail.subrange(2, 2 + b.len() as int) =~= b);
}

/// A four-byte big-endian integer at the front of a buffer reads back as
/// itself, whatever follows it.
pub proof fn lemma_int_dec_prefix(n: i32, rest: Seq<u8>)
    ensures
        int_dec(crate::wire::i32_enc(n) + rest) == Ok::<(i32, int), crate::Error>((n, 4)),
{
    let enc = crate::wire::i32_enc(n);
    let tail = enc + rest;
    crate::wire::lemma_i32_round_trip(n);
    assert(tail[0] == enc[0]);
    assert(tail[1] == enc[1]);
    assert(tail[2] == enc[2]);
    assert(tail[3] == enc[3]);
}

/// The first byte of the message terminator.
pub const TERM_CR: u8 = 13;

/// The second byte of the message terminator.
pub const TERM_LF: u8 = 10;

/// The index of the first terminator pair at or after `from`, if one lies
/// wholly inside the buffer.
pub open spec fn find_crlf(b: Seq<u8>, from: int) -> Option<int>
    decreases b.len() - from,
{
    if from < 0 || from + 1 >= b.len() {
        None
    } else if b[from] == TERM_CR && b[from + 1] == TERM_LF {
        Some(from)
    } else {
        find_crlf(b, from + 1)
    }
}

/// Extracts the next complete line: the bytes from `pos` up to the first
/// terminator pair, advancing `pos` past the terminator. Reports the frame
/// incomplete, with `pos` unchanged, when no terminator is present yet.
pub fn read_line(buf: &Vec<u8>, pos: &mut usize) -> (r: Result<Vec<u8>, crate::Error>)
    requires
        *old(pos) <= buf@.len(),
    ensures
        *final(pos) <= buf@.len(),
        (match r {
            Ok(line) => {
                &&& find_crlf(buf@, *old(pos) as int) == Some(*final(pos) - 2 as int)
                &&& line@ == buf@.subrange(*old(pos) as int, *final(pos) - 2 as int)
                &&& *old(pos) + 2 <= *final(pos)
            },
            Err(e) => {
                &&& e == crate::Error::ParseMessage(Error::Incomplete)
                &&& find_crlf(buf@, *old(pos) as int) is None
                &&& *final(pos) == *old(pos)
            },
        }),
{
    let start: usize = *pos;
    let n_len: usize = buf.len();
    let mut i: usize = start;
    while i < n_len && i + 1 < n_len
        invariant
            start == *old(pos),
            *pos == start,
            start <= i,
            i <= buf@.len(),
            start <= buf@.len(),
            n_len == buf@.len(),
            find_crlf(buf@, start as int) == find_crlf(buf@, i as int),
        decreases buf@.len() - i,
    {
        if buf[i] == TERM_CR && buf[i + 1] == TERM_LF {
            let line = copy_range(buf, start, i);
            *pos = i + 2;
            proof {
                assert(find_crlf(buf@, i as int) == Some(i as int));
            }
            return Ok(line);
        }
        i = i + 1;
    }
    proof {
        assert(find_crlf(buf@, i as int) is None);
    }
    Err(crate::Error::ParseMessage(Error::Incomplete))
}

/// The frame reader's verdict when the peer stops sending: with everything
/// up to `pos` consumed, leftover bytes are a partial message cut off
/// mid-frame — a protocol violation — while an empty remainder is a clean
/// end of stream.
pub fn on_peer_close(buf: &Vec<u8>, pos: usize) -> (r: Option<crate::Error>)
    requires
        pos <= buf@.len(),
    ensures
        (r is None) <==> pos == buf@.len(),
        (r is Some) ==> r == Some(crate::Error::ConnectionReset),
{
    if pos == buf.len() {
        None
    } else {
        Some(crate::Error::ConnectionReset)
    }
}

/// Whether the buffer already holds a complete terminated message at `pos`:
/// a scan for the terminator pair, and nothing more.
pub fn is_complete(buf: &Vec<u8>, pos: usize) -> (r: bool)
    requires
        pos <= buf@.len(),
    ensures
        r == (find_crlf(buf@, pos as int) is Some),
{
    let n_len: usize = buf.len();
    let mut i: usize = pos;
    while i < n_len && i + 1 < n_len
        invariant
            pos <= i <= buf@.len(),
            n_len == buf@.len(),
            find_crlf(buf@, pos as int) == find_crlf(buf@, i as int),
        decreases buf@.len() - i,
    {
        if buf[i] == TERM_CR && buf[i + 1] == TERM_LF {
            proof {
                assert(find_crlf(buf@, i as int) == Some(i as int));
            }
            return true;
        }
        i = i + 1;
    }
    proof {
        assert(find_crlf(buf@, i as int) is None);
    }
    false
}


/// A protocol message: a request envelope or a reply.
#[derive(Debug, Clone, PartialEq)]
pub enum Message {
    Ping,
    Command(Command),
    Okay,
    Null,
    Failure(String),
    Int(i32),
    Text(String),
}

/// The mathematical content of a [`Message`].
pub enum MessageModel {
    Ping,
    Command(CommandModel),
    Okay,
    Null,
    Failure(Seq<char>),
    Int(i32),
    Text(Seq<char>),
}

impl View for Message {
    type V = MessageModel;

    open spec fn view(&self) -> MessageModel {
        match self {
            Message::Ping => MessageModel::Ping,
            Message::Command(c) => MessageModel::Command(c@),
            Message::Okay => MessageModel::Okay,
            Message::Null => MessageModel::Null,
            Message::Failure(s) => MessageModel::Failure(s@),
            Message::Int(n) => MessageModel::Int(*n),
            Message::Text(s) => MessageModel::Text(s@),
        }
    }
}

/// Whether a message's strings and blobs fit their 16-bit length prefixes,
/// which is all its encoding asks of it.
pub open spec fn msg_wf(m: MessageModel) -> bool {
    match m {
        MessageModel::Command(c) => cmd_wf(c),
        MessageModel::Failure(s) => string_fits(s),
        MessageModel::Text(s) => string_fits(s),
        _ => true,
    }
}

/// The payload encoding of a message: its tag byte and tag-dependent body,
/// without the terminator.
pub open spec fn msg_payload_enc(m: MessageModel) -> Seq<u8> {
    match m {
        MessageModel::Ping => seq![0u8],
        MessageModel::Command(c) => seq![1u8] + cmd_enc(c),
        MessageModel::Okay => seq![2u8],
        MessageModel::Null => seq![3u8],
        MessageModel::Failure(s) => seq![4u8] + string_enc(s),
        MessageModel::Int(n) => seq![5u8] + i32_enc(n),
        MessageModel::Text(s) => seq![6u8] + string_enc(s),
    }
}

/// The framed encoding of a message: its payload followed by the two-byte
/// terminator.
pub open spec fn msg_enc(m: MessageModel) -> Seq<u8> {
    msg_payload_enc(m) + seq![TERM_CR, TERM_LF]
}

/// The message a complete line decodes to, or the exact error it is
/// rejected with. Bytes past a variant's payload are ignored: the line
/// boundary already delimits the message.
pub open spec fn msg_payload_dec(line: Seq<u8>) -> Result<MessageModel, crate::Error> {
    if line.len() < 1 {
        Err(crate::Error::ParseMessage(Error::Incomplete))
    } else if line[0] == 0 {
        Ok(MessageModel::Ping)
    } else if line[0] == 1 {
        match cmd_dec(line.skip(1)) {
            Ok((c, n)) => Ok(MessageModel::Command(c)),
            Err(e) => Err(e),
        }
    } else if line[0] == 2 {
        Ok(MessageModel::Okay)
    } else if line[0] == 3 {
        Ok(MessageModel::Null)
    } else if line[0] == 4 {
        match string_dec(line.skip(1)) {
            Ok((s, n)) => Ok(MessageModel::Failure(s)),
            Err(e) => Err(e),
        }
    } else if line[0] == 5 {
        match int_dec(line.skip(1)) {
            Ok((v, n)) => Ok(MessageModel::Int(v)),
            Err(e) => Err(e),
        }
    } else if line[0] == 6 {
        match string_dec(line.skip(1)) {
            Ok((s, n)) => Ok(MessageModel::Text(s)),
            Err(e) => Err(e),
        }
    } else {
        Err(crate::Error::ParseMessage(Error::UnknownMessageTag(line[0])))
    }
}

/// What parsing one framed message from `b` at `pos` yields: the next
/// line's decoding and the position just past its terminator, or the
/// frame-incomplete error with the position unchanged.
pub open spec fn msg_dec(b: Seq<u8>, pos: int) -> (Result<MessageModel, crate::Error>, int) {
    match find_crlf(b, pos) {
        Some(i) => (msg_payload_dec(b.subrange(pos, i)), i + 2),
        None => (Err(crate::Error::ParseMessage(Error::Incomplete)), pos),
    }
}

impl Message {
    /// Decodes the next framed message from `buf` at `pos`. When a complete
    /// line is present, `pos` is advanced past its terminator whether or not
    /// the payload decodes, so a bad frame is dropped and the connection can
    /// go on; with no complete line, `pos` is unchanged and the frame is
    /// reported incomplete.
    pub fn parse(buf: &Vec<u8>, pos: &mut usize) -> (r: Result<Message, crate::Error>)
        requires
            *old(pos) <= buf@.len(),
        ensures
            *final(pos) <= buf@.len(),
            *final(pos) == msg_dec(buf@, *old(pos) as int).1,
            (match r {
                Ok(m) => msg_dec(buf@, *old(pos) as int).0 == Ok::<MessageModel, crate::Error>(m@),
                Err(e) => msg_dec(buf@, *old(pos) as int).0 == Err::<MessageModel, crate::Error>(e),
            }),
    {
        let line: Vec<u8> = match read_line(buf, pos) {
            Ok(l) => l,
            Err(e) => {
                return Err(e);
            },
        };
        if line.len() < 1 {
            return Err(crate::Error::ParseMessage(Error::Incomplete));
        }
        let t: u8 = line[0];
        let mut p: usize = 1;
        match Variant::from_byte(t) {
            Some(Variant::Ping) => Ok(Message::Ping),
            Some(Variant::Command) => {
                match Command::parse(&line, &mut p) {
                    Ok(c) => Ok(Message::Command(c)),
                    Err(e) => Err(e),
                }
            },
            Some(Variant::Okay) => Ok(Message::Okay),
            Some(Variant::Null) => Ok(Message::Null),
            Some(Variant::Failure) => {
                match read_string(&line, &mut p) {
                    Ok(s) => Ok(Message::Failure(s)),
                    Err(e) => Err(e),
                }
            },
            Some(Variant::Int) => {
                match read_int(&line, &mut p) {
                    Ok(n) => Ok(Message::Int(n)),
                    Err(e) => Err(e),
                }
            },
            Some(Variant::Text) => {
                match read_string(&line, &mut p) {
                    Ok(s) => Ok(Message::Text(s)),
                    Err(e) => Err(e),
                }
            },
            None => Err(crate::Error::ParseMessage(Error::UnknownMessageTag(t))),
        }
    }

    /// Appends the framed encoding of this message, terminator included, or
    /// reports an oversized string and leaves the buffer unchanged.
    pub fn write(&self, buf: &mut Vec<u8>) -> (r: Result<(), crate::Error>)
        ensures
            msg_wf(self@) ==> r == Ok::<(), crate::Error>(()) && final(buf)@ == old(buf)@
                + msg_enc(self@),
            !msg_wf(self@) ==> r == Err::<(), crate::Error>(crate::Error::StringTooLarge)
                && final(buf)@ == old(buf)@,
    {
        let mut tmp: Vec<u8> = Vec::new();
        let res: Result<(), crate::Error> = match self {
            Message::Ping => {
                tmp.push(Variant::Ping.byte());
                Ok(())
            },
            Message::Command(c) => {
                tmp.push(Variant::Command.byte());
                c.write(&mut tmp)
            },
            Message::Okay => {
                tmp.push(Variant::Okay.byte());
                Ok(())
            },
            Message::Null => {
                tmp.push(Variant::Null.byte());
                Ok(())
            },
            Message::Failure(s) => {
                tmp.push(Variant::Failure.byte());
                write_string(&mut tmp, s.as_str())
            },
            Message::Int(n) => {
                tmp.push(Variant::Int.byte());
                push_i32_be(&mut tmp, *n);
                Ok(())
            },
            Message::Text(s) => {
                tmp.push(Variant::Text.byte());
                write_string(&mut tmp, s.as_str())
            },
        };
        match res {
            Ok(_) => {
                tmp.push(TERM_CR);
                tmp.push(TERM_LF);
                proof {
                    assert(tmp@ =~= msg_enc(self@));
                }
                buf.append(&mut tmp);
                Ok(())
            },
            Err(e) => Err(e),
        }
    }
}

/// Law: decoding inverts encoding at the payload level, for every message
/// whose strings and blobs fit their length prefixes.
pub proof fn lemma_message_payload_round_trip(m: MessageModel)
    ensures
        msg_wf(m) ==> msg_payload_dec(msg_payload_enc(m)) == Ok::<MessageModel, crate::Error>(m),
{
    if msg_wf(m) {
        let enc = msg_payload_enc(m);
        match m {
            MessageModel::Ping => {},
            MessageModel::Command(c) => {
                assert(enc.skip(1) =~= cmd_enc(c));
                crate::command::lemma_command_round_trip(c);
            },
            MessageModel::Okay => {},
            MessageModel::Null => {},
            MessageModel::Failure(s) => {
                assert(enc.skip(1) =~= string_enc(s) + Seq::<u8>::empty());
                lemma_string_dec_prefix(s, Seq::<u8>::empty());
            },
            MessageModel::Int(n) => {
                assert(enc.skip(1) =~= i32_enc(n) + Seq::<u8>::empty());
                lemma_int_dec_prefix(n, Seq::<u8>::empty());
            },
            MessageModel::Text(s) => {
                assert(enc.skip(1) =~= string_enc(s) + Seq::<u8>::empty());
                lemma_string_dec_prefix(s, Seq::<u8>::empty());
            },
        }
    }
}

/// Whether a stretch of bytes holds no terminator pair, so the terminator
/// scan cannot split it early.
pub open spec fn crlf_free(b: Seq<u8>) -> bool {
    forall|j: int| 0 <= j < b.len() - 1 ==> !((#[trigger] b[j]) == TERM_CR && b[j + 1] == TERM_LF)
}

/// Whether a message is safe to frame: its strings fit their length
/// prefixes and its payload holds no terminator pair. The scan that frames
/// messages reads any terminator pair as a boundary, even one inside a
/// binary payload, so only such messages survive a framed round trip.
pub open spec fn frame_safe(m: MessageModel) -> bool {
    msg_wf(m) && crlf_free(msg_payload_enc(m))
}

/// The scan over a terminator-free payload finds exactly the terminator
/// appended after it, whatever follows.
proof fn lemma_find_crlf_terminated(p: Seq<u8>, rest: Seq<u8>, from: int)
    requires
        crlf_free(p),
        0 <= from <= p.len(),
    ensures
        find_crlf(p + seq![TERM_CR, TERM_LF] + rest, from) == Some(p.len() as int),
    decreases p.len() - from,
{
    let b = p + seq![TERM_CR, TERM_LF] + rest;
    if from == p.len() {
        assert(b[from] == TERM_CR && b[from + 1] == TERM_LF);
    } else {
        assert(!(b[from] == TERM_CR && b[from + 1] == TERM_LF));
        lemma_find_crlf_terminated(p, rest, from + 1);
    }
}

/// While a framed message is still arriving, no prefix of it holds a
/// terminator pair.
proof fn lemma_find_crlf_prefix_incomplete(p: Seq<u8>, k: int, from: int)
    requires
        crlf_free(p),
        0 <= k < p.len() + 2,
        0 <= from,
    ensures
        find_crlf((p + seq![TERM_CR, TERM_LF]).take(k), from) is None,
    decreases k - from,
{
    let b = (p + seq![TERM_CR, TERM_LF]).take(k);
    if from + 1 >= b.len() {
    } else {
        assert(!(b[from] == TERM_CR && b[from + 1] == TERM_LF));
        lemma_find_crlf_prefix_incomplete(p, k, from + 1);
    }
}

/// The scan past a fixed prefix sees only the suffix, shifted.
proof fn lemma_find_crlf_offset(a: Seq<u8>, b: Seq<u8>, from: int)
    requires
        0 <= from,
    ensures
        find_crlf(a + b, a.len() + from) == (match find_crlf(b, from) {
            Some(i) => Some(a.len() + i),
            None => None::<int>,
        }),
    decreases b.len() - from,
{
    if from + 1 >= b.len() {
    } else if b[from] == TERM_CR && b[from + 1] == TERM_LF {
    } else {
        lemma_find_crlf_offset(a, b, from + 1);
    }
}

/// Law: a framed message decodes back to itself: the scan finds exactly the
/// appended terminator and the payload reads back as the message.
pub proof fn lemma_message_frame_round_trip(m: MessageModel)
    ensures
        frame_safe(m) ==> msg_dec(msg_enc(m), 0) == (
            Ok::<MessageModel, crate::Error>(m),
            msg_enc(m).len() as int,
        ),
{
    if frame_safe(m) {
        let p = msg_payload_enc(m);
        assert(msg_enc(m) =~= p + seq![TERM_CR, TERM_LF] + Seq::<u8>::empty());
        lemma_find_crlf_terminated(p, Seq::<u8>::empty(), 0);
        assert(msg_enc(m).subrange(0, p.len() as int) =~= p);
        lemma_message_payload_round_trip(m);
    }
}

/// Law: fed one byte at a time, the stream yields nothing until the whole
/// framed message has arrived, and then yields exactly that message.
pub proof fn lemma_framing_incremental(m: MessageModel, k: int)
    requires
        frame_safe(m),
        0 <= k < msg_enc(m).len(),
    ensures
        msg_dec(msg_enc(m).take(k), 0) == (
            Err::<MessageModel, crate::Error>(crate::Error::ParseMessage(Error::Incomplete)),
            0int,
        ),
        msg_dec(msg_enc(m), 0) == (Ok::<MessageModel, crate::Error>(m), msg_enc(m).len() as int),
{
    let p = msg_payload_enc(m);
    assert(msg_enc(m) =~= p + seq![TERM_CR, TERM_LF]);
    assert(msg_enc(m).take(k) =~= (p + seq![TERM_CR, TERM_LF]).take(k));
    lemma_find_crlf_prefix_incomplete(p, k, 0);
    lemma_message_frame_round_trip(m);
}

/// Law: two framed messages concatenated decode in order: the first parse
/// yields the first message and stops at the start of the second, which the
/// next parse then yields, consuming the rest.
pub proof fn lemma_framing_two_messages(m1: MessageModel, m2: MessageModel)
    requires
        frame_safe(m1),
        frame_safe(m2),
    ensures
        msg_dec(msg_enc(m1) + msg_enc(m2), 0) == (
            Ok::<MessageModel, crate::Error>(m1),
            msg_enc(m1).len() as int,
        ),
        msg_dec(msg_enc(m1) + msg_enc(m2), msg_enc(m1).len() as int) == (
            Ok::<MessageModel, crate::Error>(m2),
            (msg_enc(m1) + msg_enc(m2)).len() as int,
        ),
{
    let b = msg_enc(m1) + msg_enc(m2);
    let p1 = msg_payload_enc(m1);
    let p2 = msg_payload_enc(m2);
    assert(b =~= p1 + seq![TERM_CR, TERM_LF] + msg_enc(m2));
    lemma_find_crlf_terminated(p1, msg_enc(m2), 0);
    assert(b.subrange(0, p1.len() as int) =~= p1);
    lemma_message_payload_round_trip(m1);

    lemma_find_crlf_offset(msg_enc(m1), msg_enc(m2), 0);
    assert(msg_enc(m2) =~= p2 + seq![TERM_CR, TERM_LF] + Seq::<u8>::empty());
    lemma_find_crlf_terminated(p2, Seq::<u8>::empty(), 0);
    assert(b.subrange(msg_enc(m1).len() as int, msg_enc(m1).len() + p2.len() as int) =~= p2);
    lemma_message_payload_round_trip(m2);
}

} // verus!
