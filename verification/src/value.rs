//! The typed scalar stored under a key, and its byte-level codec.
//!
//! A value is serialized as one tag byte followed by either a fixed 4-byte
//! big-endian integer or raw UTF-8 text.

use vstd::prelude::*;
use vstd::utf8::{decode_utf8, encode_utf8, encode_utf8_decode_utf8, encode_utf8_valid_utf8,
    valid_utf8};

use crate::wire::{copy_range, bytes_to_string, i32_dec, i32_enc, i32_from_be, lemma_i32_round_trip,
    push_i32_be};

verus! {

/// Why a byte buffer failed to decode as a value.
#[derive(Debug, Clone, Copy, PartialEq, Eq, Structural)]
pub enum Error {
    /// The buffer is empty.
    InvalidValue,
    /// The first byte is not a recognized type tag.
    UnknownValueTag(u8),
    /// The tag announces an integer but fewer than four bytes follow.
    TruncatedInt,
    /// The tag announces text but the remaining bytes are not valid UTF-8.
    InvalidUtf8,
}

/// A value stored under a key: either a 32-bit integer or a text string.
#[derive(Debug, Clone, PartialEq)]
pub enum Value {
    Int(i32),
    String(String),
}

/// The mathematical content of a [`Value`].
pub enum ValueModel {
    Int(i32),
    Text(Seq<char>),
}

impl View for Value {
    type V = ValueModel;

    open spec fn view(&self) -> ValueModel {
        match self {
            Value::Int(n) => ValueModel::Int(*n),
            Value::String(s) => ValueModel::Text(s@),
        }
    }
}

/// The tag byte marking an integer value.
pub const TAG_INT: u8 = 0;

/// The tag byte marking a text value.
pub const TAG_STRING: u8 = 1;

/// The byte encoding of a value: the integer tag and four big-endian bytes,
/// or the text tag and the text's UTF-8 bytes.
pub open spec fn value_enc(v: ValueModel) -> Seq<u8> {
    match v {
        ValueModel::Int(n) => seq![TAG_INT] + i32_enc(n),
        ValueModel::Text(s) => seq![TAG_STRING] + encode_utf8(s),
    }
}

/// The value a byte buffer decodes to, or the exact error it is rejected
/// with. Bytes past the fourth are ignored for an integer.
pub open spec fn value_dec(b: Seq<u8>) -> Result<ValueModel, crate::Error> {
    if b.len() == 0 {
        Err(crate::Error::ParseValue(Error::InvalidValue))
    } else if b[0] == TAG_INT {
        if b.len() < 5 {
            Err(crate::Error::ParseValue(Error::TruncatedInt))
        } else {
            Ok(ValueModel::Int(i32_dec(b[1], b[2], b[3], b[4])))
        }
    } else if b[0] == TAG_STRING {
        if valid_utf8(b.skip(1)) {
            Ok(ValueModel::Text(decode_utf8(b.skip(1))))
        } else {
            Err(crate::Error::ParseValue(Error::InvalidUtf8))
        }
    } else {
        Err(crate::Error::ParseValue(Error::UnknownValueTag(b[0])))
    }
}

impl Value {
    /// Decodes a value from the whole buffer, returning exactly what
    /// [`value_dec`] says of the buffer's bytes.
    pub fn parse(buf: &Vec<u8>) -> (r: Result<Value, crate::Error>)
        ensures
            (match r {
                Ok(v) => value_dec(buf@) == Ok::<ValueModel, crate::Error>(v@),
                Err(e) => value_dec(buf@) == Err::<ValueModel, crate::Error>(e),
            }),
    {
        if buf.len() == 0 {
            return Err(crate::Error::ParseValue(Error::InvalidValue));
        }
        let tag: u8 = buf[0];
        if tag == TAG_INT {
            if buf.len() < 5 {
                return Err(crate::Error::ParseValue(Error::TruncatedInt));
            }
            Ok(Value::Int(i32_from_be(buf[1], buf[2], buf[3], buf[4])))
        } else if tag == TAG_STRING {
            let rest = copy_range(buf, 1, buf.len());
            proof {
                assert(rest@ =~= buf@.skip(1));
            }
            match bytes_to_string(rest) {
                Some(s) => Ok(Value::String(s)),
                None => Err(crate::Error::ParseValue(Error::InvalidUtf8)),
            }
        } else {
            Err(crate::Error::ParseValue(Error::UnknownValueTag(tag)))
        }
    }

    /// Overwrites the buffer with the serialized form of this value.
    pub fn write(&self, buf: &mut Vec<u8>)
        ensures
            final(buf)@ == value_enc(self@),
    {
        buf.clear();
        match self {
            Value::Int(n) => {
                buf.push(TAG_INT);
                push_i32_be(buf, *n);
            },
            Value::String(s) => {
                buf.push(TAG_STRING);
                let mut bs = s.as_str().as_bytes_vec();
                buf.append(&mut bs);
            },
        }
        proof {
            assert(buf@ =~= value_enc(self@));
        }
    }

    /// The serialized form of this value as a fresh byte vector.
    pub fn into_vec(&self) -> (r: Vec<u8>)
        ensures
            r@ == value_enc(self@),
    {
        let mut buf: Vec<u8> = Vec::new();
        self.write(&mut buf);
        buf
    }
}

/// Law: decoding inverts encoding, for every value.
pub proof fn lemma_value_round_trip(v: ValueModel)
    ensures
        value_dec(value_enc(v)) == Ok::<ValueModel, crate::Error>(v),
{
    match v {
        ValueModel::Int(n) => {
            lemma_i32_round_trip(n);
        },
        ValueModel::Text(s) => {
            encode_utf8_valid_utf8(s);
            encode_utf8_decode_utf8(s);
            assert(value_enc(v).skip(1) =~= encode_utf8(s));
        },
    }
}

/// The stored bytes after one increment step: an encoded integer is
/// re-encoded with one added (wrapping at the numeric limit), any other
/// content is left unchanged.
pub open spec fn incr_step_spec(b: Seq<u8>) -> Seq<u8> {
    match value_dec(b) {
        Ok(ValueModel::Int(n)) => value_enc(ValueModel::Int(wrap_inc(n))),
        _ => b,
    }
}

/// The increment applied to a stored integer, wrapping at the largest value.
pub open spec fn wrap_inc(n: i32) -> i32 {
    if n == i32::MAX {
        i32::MIN
    } else {
        (n + 1) as i32
    }
}

/// The bytes one increment step leaves stored, given what was stored just
/// before it: an absent key starts at the encoded one, a present value goes
/// through the step.
pub open spec fn incr_step_result(prior: Option<Seq<u8>>) -> Seq<u8> {
    match prior {
        Some(b) => incr_step_spec(b),
        None => value_enc(ValueModel::Int(1)),
    }
}

/// One increment step over a value's stored bytes.
pub fn incr_step(bytes: &Vec<u8>) -> (r: Vec<u8>)
    ensures
        r@ == incr_step_spec(bytes@),
{
    match Value::parse(bytes) {
        Ok(Value::Int(n)) => {
            let m: i32 = if n == i32::MAX {
                i32::MIN
            } else {
                n + 1
            };
            Value::Int(m).into_vec()
        },
        _ => {
            let r = bytes.clone();
            proof {
                assert(r@ =~= bytes@);
            }
            r
        },
    }
}

/// The stored bytes a counter starts from: the encoded integer one.
pub fn initial_counter() -> (r: Vec<u8>)
    ensures
        r@ == value_enc(ValueModel::Int(1)),
{
    Value::Int(1).into_vec()
}

} // verus!
