//! The write operation: store an already-encoded value blob under a key.

use vstd::prelude::*;

use crate::command::{arg2_dec, read_count, Error};
use crate::message;
use crate::message::{Message, MessageModel};
use crate::store::Store;

verus! {

/// A write of one key. The value carries an already-encoded value payload,
/// not a plain string, so a write can store either an integer or a string
/// as one blob.
#[derive(Debug, Clone, PartialEq)]
pub struct SetCmd {
    pub key: String,
    pub value: Vec<u8>,
}

impl SetCmd {
    /// Stores this value blob verbatim under the key and replies ok,
    /// unconditionally.
    pub fn perform(self, db: &mut Store) -> (r: Message)
        ensures
            r@ == MessageModel::Okay,
    {
        db.set(self.key, self.value);
        Message::Okay
    }

    /// Decodes the argument list of a write: the count byte, which must be
    /// two, then the key and the value blob. The count is checked before
    /// any argument bytes are read; on a mismatch exactly the count byte is
    /// consumed.
    pub fn parse(buf: &Vec<u8>, pos: &mut usize) -> (r: Result<SetCmd, crate::Error>)
        requires
            *old(pos) <= buf@.len(),
        ensures
            *final(pos) <= buf@.len(),
            (match r {
                Ok(s) => {
                    &&& arg2_dec(buf@.skip(*old(pos) as int)) == Ok::<
                        (Seq<char>, Seq<u8>, int),
                        crate::Error,
                    >((s.key@, s.value@, *final(pos) - *old(pos)))
                    &&& *old(pos) <= *final(pos)
                },
                Err(e) => {
                    &&& arg2_dec(buf@.skip(*old(pos) as int)) == Err::<
                        (Seq<char>, Seq<u8>, int),
                        crate::Error,
                    >(e)
                    &&& (match e {
                        crate::Error::ParseCommand(Error::WrongArgumentCount) => *final(pos)
                            == *old(pos) + 1,
                        _ => *final(pos) == *old(pos),
                    })
                },
            }),
    {
        let start: usize = *pos;
        let ghost tail = buf@.skip(start as int);
        let mut p: usize = start;
        let count: u8 = match read_count(buf, &mut p) {
            Ok(c) => c,
            Err(e) => {
                return Err(e);
            },
        };
        if count != 2 {
            *pos = p;
            return Err(crate::Error::ParseCommand(Error::WrongArgumentCount));
        }
        proof {
            assert(buf@.skip(p as int) =~= tail.skip(1));
        }
        let key: String = match message::read_string(buf, &mut p) {
            Ok(k) => k,
            Err(e) => {
                return Err(e);
            },
        };
        proof {
            assert(buf@.skip(p as int) =~= tail.skip(1 + (p - start - 1)));
        }
        match message::read_bytes(buf, &mut p) {
            Ok(value) => {
                *pos = p;
                Ok(SetCmd { key, value })
            },
            Err(e) => Err(e),
        }
    }

    /// Appends the argument list of a write: the count byte two, then the
    /// length-prefixed key and value blob.
    pub fn write(&self, buf: &mut Vec<u8>) -> (r: Result<(), crate::Error>)
        ensures
            message::string_fits(self.key@) && message::bytes_fits(self.value@) ==> r == Ok::<
                (),
                crate::Error,
            >(()) && final(buf)@ == old(buf)@ + seq![2u8] + message::string_enc(self.key@)
                + message::bytes_enc(self.value@),
            !(message::string_fits(self.key@) && message::bytes_fits(self.value@)) ==> r == Err::<
                (),
                crate::Error,
            >(crate::Error::StringTooLarge) && final(buf)@ == old(buf)@,
    {
        let kb = vstd::string::StrSliceExecFns::as_bytes_vec(self.key.as_str());
        if kb.len() > 0xFFFF {
            return Err(crate::Error::StringTooLarge);
        }
        if self.value.len() > 0xFFFF {
            return Err(crate::Error::StringTooLarge);
        }
        buf.push(2);
        let w1 = message::write_string(buf, self.key.as_str());
        match w1 {
            Ok(_) => {
                match message::write_bytes(buf, &self.value) {
                    Ok(_) => {
                        proof {
                            assert(buf@ =~= old(buf)@ + seq![2u8] + message::string_enc(self.key@)
                                + message::bytes_enc(self.value@));
                        }
                        Ok(())
                    },
                    Err(e) => Err(e),
                }
            },
            Err(e) => Err(e),
        }
    }
}

} // verus!
