//! The legacy line-oriented text protocol: a space-separated command read
//! straight off the socket buffer. The socket itself, and the loop that
//! feeds this parser, live with the I/O code.

use vstd::prelude::*;
use vstd::utf8::{decode_utf8, valid_utf8};

use crate::wire::{bytes_to_string, copy_range};

verus! {

/// Why a text line failed to parse as a command.
#[derive(Debug, Clone, Copy, PartialEq, Eq, Structural)]
pub enum Error {
    /// The line names no known command or is missing an argument.
    InvalidFrame,
    /// The line, or an argument in it, is not valid UTF-8.
    InvalidUtf8,
}

/// A text-protocol command: a read of a key, or a write of a plain string
/// value.
#[derive(Debug, Clone, PartialEq)]
pub enum Command {
    Get(String),
    SetCmd(String, String),
}

/// The mathematical content of a text-protocol [`Command`].
pub enum CommandModel {
    Get(Seq<char>),
    SetCmd(Seq<char>, Seq<char>),
}

impl View for Command {
    type V = CommandModel;

    open spec fn view(&self) -> CommandModel {
        match self {
            Command::Get(k) => CommandModel::Get(k@),
            Command::SetCmd(k, v) => CommandModel::SetCmd(k@, v@),
        }
    }
}

/// The index of the first space at or after `from`.
pub open spec fn find_space(b: Seq<u8>, from: int) -> Option<int>
    decreases b.len() - from,
{
    if from < 0 || from >= b.len() {
        None
    } else if b[from] == 32 {
        Some(from)
    } else {
        find_space(b, from + 1)
    }
}

/// Where the word starting at `from` ends: at the next space, or at the end
/// of the line.
pub open spec fn word_end(b: Seq<u8>, from: int) -> int {
    match find_space(b, from) {
        Some(i) => i,
        None => b.len() as int,
    }
}

/// ASCII lowercasing of one byte; bytes outside the ASCII uppercase range,
/// including every byte of a multi-byte character, pass through unchanged.
pub open spec fn lower_byte(c: u8) -> u8 {
    if 65 <= c <= 90 {
        (c + 32) as u8
    } else {
        c
    }
}

/// Whether the line's first word, lowercased bytewise in ASCII, is the
/// three given bytes.
pub open spec fn first_word_is(b: Seq<u8>, c0: u8, c1: u8, c2: u8) -> bool {
    word_end(b, 0) == 3 && b.len() >= 3 && lower_byte(b[0]) == c0 && lower_byte(b[1]) == c1
        && lower_byte(b[2]) == c2
}

/// The bytes with trailing line feeds removed.
pub open spec fn trim_nl(b: Seq<u8>) -> Seq<u8>
    decreases b.len(),
{
    if b.len() > 0 && b[b.len() - 1] == 10 {
        trim_nl(b.drop_last())
    } else {
        b
    }
}

/// The command a text line decodes to, or the exact error it is rejected
/// with: the line must be UTF-8, its first word names the operation
/// case-insensitively, a read takes the second word (trailing line feeds
/// trimmed) as its key, and a write takes the second word as its key and
/// the third (trimmed) as its value.
pub open spec fn conn_dec(b: Seq<u8>) -> Result<CommandModel, Error> {
    if !valid_utf8(b) {
        Err(Error::InvalidUtf8)
    } else if first_word_is(b, 103, 101, 116) {
        let e0 = word_end(b, 0);
        if e0 >= b.len() {
            Err(Error::InvalidFrame)
        } else {
            let k = trim_nl(b.subrange(e0 + 1, word_end(b, e0 + 1)));
            if valid_utf8(k) {
                Ok(CommandModel::Get(decode_utf8(k)))
            } else {
                Err(Error::InvalidUtf8)
            }
        }
    } else if first_word_is(b, 115, 101, 116) {
        let e0 = word_end(b, 0);
        if e0 >= b.len() {
            Err(Error::InvalidFrame)
        } else {
            let e1 = word_end(b, e0 + 1);
            if e1 >= b.len() {
                Err(Error::InvalidFrame)
            } else {
                let k = b.subrange(e0 + 1, e1);
                let v = trim_nl(b.subrange(e1 + 1, word_end(b, e1 + 1)));
                if valid_utf8(k) && valid_utf8(v) {
                    Ok(CommandModel::SetCmd(decode_utf8(k), decode_utf8(v)))
                } else {
                    Err(Error::InvalidUtf8)
                }
            }
        }
    } else {
        Err(Error::InvalidFrame)
    }
}

/// Finds the first space at or after `from`.
fn find_space_at(buf: &Vec<u8>, from: usize) -> (r: Option<usize>)
    requires
        from <= buf@.len(),
    ensures
        (match r {
            Some(i) => find_space(buf@, from as int) == Some(i as int) && from <= i < buf@.len(),
            None => find_space(buf@, from as int) is None,
        }),
{
    let mut i: usize = from;
    while i < buf.len()
        invariant
            from <= i <= buf@.len(),
            find_space(buf@, from as int) == find_space(buf@, i as int),
        decreases buf@.len() - i,
    {
        if buf[i] == 32 {
            proof {
                assert(find_space(buf@, i as int) == Some(i as int));
            }
            return Some(i);
        }
        i = i + 1;
    }
    None
}

/// ASCII lowercasing of one byte.
fn lower_byte_of(c: u8) -> (r: u8)
    ensures
        r == lower_byte(c),
{
    if c >= 65 && c <= 90 {
        c + 32
    } else {
        c
    }
}

/// Drops trailing line feeds from the range `start..end`, returning the new
/// end.
fn trim_line_feeds(buf: &Vec<u8>, start: usize, end: usize) -> (e: usize)
    requires
        start <= end <= buf@.len(),
    ensures
        start <= e <= end,
        trim_nl(buf@.subrange(start as int, end as int)) == buf@.subrange(start as int, e as int),
{
    let mut e: usize = end;
    while e > start && buf[e - 1] == 10
        invariant
            start <= e <= end <= buf@.len(),
            trim_nl(buf@.subrange(start as int, end as int)) == trim_nl(
                buf@.subrange(start as int, e as int),
            ),
        decreases e,
    {
        proof {
            assert(buf@.subrange(start as int, e as int).drop_last() =~= buf@.subrange(
                start as int,
                e as int - 1,
            ));
        }
        e = e - 1;
    }
    proof {
        let sub = buf@.subrange(start as int, e as int);
        if e > start {
            assert(sub[sub.len() - 1] == buf@[e as int - 1]);
        }
        assert(trim_nl(sub) == sub);
    }
    e
}

impl Command {
    /// Parses one line of the text protocol, returning exactly what
    /// [`conn_dec`] says of the line's bytes.
    pub fn parse(bytes: &Vec<u8>) -> (r: Result<Command, Error>)
        ensures
            (match r {
                Ok(c) => conn_dec(bytes@) == Ok::<CommandModel, Error>(c@),
                Err(e) => conn_dec(bytes@) == Err::<CommandModel, Error>(e),
            }),
    {
        match bytes_to_string(bytes.clone()) {
            Some(_) => {},
            None => {
                return Err(Error::InvalidUtf8);
            },
        }
        let e0: usize = match find_space_at(bytes, 0) {
            Some(i) => i,
            None => bytes.len(),
        };
        let word_get: bool = e0 == 3 && lower_byte_of(bytes[0]) == 103 && lower_byte_of(bytes[1])
            == 101 && lower_byte_of(bytes[2]) == 116;
        let word_set: bool = e0 == 3 && lower_byte_of(bytes[0]) == 115 && lower_byte_of(bytes[1])
            == 101 && lower_byte_of(bytes[2]) == 116;
        if word_get {
            if e0 >= bytes.len() {
                return Err(Error::InvalidFrame);
            }
            let s1: usize = e0 + 1;
            let e1: usize = match find_space_at(bytes, s1) {
                Some(i) => i,
                None => bytes.len(),
            };
            let te = trim_line_feeds(bytes, s1, e1);
            let kb = copy_range(bytes, s1, te);
            match bytes_to_string(kb) {
                Some(k) => Ok(Command::Get(k)),
                None => Err(Error::InvalidUtf8),
            }
        } else if word_set {
            if e0 >= bytes.len() {
                return Err(Error::InvalidFrame);
            }
            let s1: usize = e0 + 1;
            let e1: usize = match find_space_at(bytes, s1) {
                Some(i) => i,
                None => {
                    return Err(Error::InvalidFrame);
                },
            };
            let kb = copy_range(bytes, s1, e1);
            let s2: usize = e1 + 1;
            let e2: usize = match find_space_at(bytes, s2) {
                Some(i) => i,
                None => bytes.len(),
            };
            let tv = trim_line_feeds(bytes, s2, e2);
            let vb = copy_range(bytes, s2, tv);
            let key: String = match bytes_to_string(kb) {
                Some(k) => k,
                None => {
                    return Err(Error::InvalidUtf8);
                },
            };
            match bytes_to_string(vb) {
                Some(v) => Ok(Command::SetCmd(key, v)),
                None => Err(Error::InvalidUtf8),
            }
        } else {
            Err(Error::InvalidFrame)
        }
    }
}

} // verus!
