//! The read operation: fetch the value stored under a key.

use vstd::prelude::*;

use crate::command::{arg1_dec, read_count, Error};
use crate::dispatch::{found_view, get_reply_for, lookup_reply};
use crate::message;
use crate::message::Message;
use crate::store::Store;

verus! {

/// A read of one key.
#[derive(Debug, Clone, PartialEq)]
pub struct Get {
    pub key: String,
}

impl Get {
    /// Reads the value stored under this key and shapes it into the reply:
    /// the decoded value, null when the key was absent, and a reported
    /// error when the stored bytes no longer decode. Other connections
    /// write to the shared store concurrently, so the contract promises a
    /// reply correctly shaped from some lookup outcome; the shaping itself
    /// is [`lookup_reply`]'s exact contract.
    pub fn perform(self, db: &Store) -> (r: Message)
        ensures
            exists|found: Option<Seq<u8>>| r@ == get_reply_for(found),
    {
        let found = db.get(&self.key);
        let ghost fv = found_view(found);
        let r = lookup_reply(found);
        proof {
            assert(r@ == get_reply_for(fv));
        }
        r
    }

    /// Decodes the argument list of a read: the count byte, which must be
    /// one, then the key. The count is checked before any argument bytes
    /// are read; on a mismatch exactly the count byte is consumed.
    pub fn parse(buf: &Vec<u8>, pos: &mut usize) -> (r: Result<Get, crate::Error>)
        requires
            *old(pos) <= buf@.len(),
        ensures
            *final(pos) <= buf@.len(),
            (match r {
                Ok(g) => {
                    &&& arg1_dec(buf@.skip(*old(pos) as int)) == Ok::<
                        (Seq<char>, int),
                        crate::Error,
                    >((g.key@, *final(pos) - *old(pos)))
                    &&& *old(pos) <= *final(pos)
                },
                Err(e) => {
                    &&& arg1_dec(buf@.skip(*old(pos) as int)) == Err::<
                        (Seq<char>, int),
                        crate::Error,
                    >(e)
                    &&& (match e {
                        crate::Error::ParseCommand(Error::WrongArgumentCount) => *final(pos)
                            == *old(pos) + 1,
                        _ => *final(pos) == *old(pos),
                    })
                },
            }),
    {
        let start: usize = *pos;
        let ghost tail = buf@.skip(start as int);
        let mut p: usize = start;
        let count: u8 = match read_count(buf, &mut p) {
            Ok(c) => c,
            Err(e) => {
                return Err(e);
            },
        };
        if count != 1 {
            *pos = p;
            return Err(crate::Error::ParseCommand(Error::WrongArgumentCount));
        }
        proof {
            assert(buf@.skip(p as int) =~= tail.skip(1));
        }
        match message::read_string(buf, &mut p) {
            Ok(key) => {
                *pos = p;
                Ok(Get { key })
            },
            Err(e) => Err(e),
        }
    }

    /// Appends the argument list of a read: the count byte one, then the
    /// length-prefixed key.
    pub fn write(&self, buf: &mut Vec<u8>) -> (r: Result<(), crate::Error>)
        ensures
            message::string_fits(self.key@) ==> r == Ok::<(), crate::Error>(()) && final(buf)@
                == old(buf)@ + seq![1u8] + message::string_enc(self.key@),
            !message::string_fits(self.key@) ==> r == Err::<(), crate::Error>(
                crate::Error::StringTooLarge,
            ) && final(buf)@ == old(buf)@,
    {
        let kb = vstd::string::StrSliceExecFns::as_bytes_vec(self.key.as_str());
        if kb.len() > 0xFFFF {
            return Err(crate::Error::StringTooLarge);
        }
        buf.push(1);
        match message::write_string(buf, self.key.as_str()) {
            Ok(_) => {
                proof {
                    assert(buf@ =~= old(buf)@ + seq![1u8] + message::string_enc(self.key@));
                }
                Ok(())
            },
            Err(e) => Err(e),
        }
    }
}

} // verus!
