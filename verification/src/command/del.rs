//! The delete operation: remove a key and report whether it was present.

use vstd::prelude::*;

use crate::command::{arg1_dec, read_count, Error};
use crate::dispatch::{del_reply, del_reply_for};
use crate::message;
use crate::message::Message;
use crate::store::Store;

verus! {

/// A removal of one key.
#[derive(Debug, Clone, PartialEq)]
pub struct Del {
    pub key: String,
}

impl Del {
    /// Removes this key and replies ok when it was present at that
    /// instant, null when it was not. Other connections write to the shared
    /// store concurrently, so the contract promises a reply correctly
    /// shaped from the removal's outcome; the shaping itself is
    /// [`del_reply`]'s exact contract.
    pub fn perform(self, db: &mut Store) -> (r: Message)
        ensures
            exists|removed: bool| r@ == del_reply_for(removed),
    {
        let removed = db.remove(&self.key);
        let r = del_reply(removed);
        proof {
            assert(r@ == del_reply_for(removed));
        }
        r
    }

    /// Decodes the argument list of a removal: the count byte, which must be
    /// one, then the key. The count is checked before any argument bytes
    /// are read; on a mismatch exactly the count byte is consumed.
    pub fn parse(buf: &Vec<u8>, pos: &mut usize) -> (r: Result<Del, crate::Error>)
        requires
            *old(pos) <= buf@.len(),
        ensures
            *final(pos) <= buf@.len(),
            (match r {
                Ok(d) => {
                    &&& arg1_dec(buf@.skip(*old(pos) as int)) == Ok::<
                        (Seq<char>, int),
                        crate::Error,
                    >((d.key@, *final(pos) - *old(pos)))
                    &&& *old(pos) <= *final(pos)
                },
                Err(e) => {
                    &&& arg1_dec(buf@.skip(*old(pos) as int)) == Err::<
                        (Seq<char>, int),
                        crate::Error,
                    >(e)
                    &&& (match e {
                        crate::Error::ParseCommand(Error::WrongArgumentCount) => *final(pos)
                            == *old(pos) + 1,
                        _ => *final(pos) == *old(pos),
                    })
                },
            }),
    {
        let start: usize = *pos;
        let ghost tail = buf@.skip(start as int);
        let mut p: usize = start;
        let count: u8 = match read_count(buf, &mut p) {
            Ok(c) => c,
            Err(e) => {
                return Err(e);
            },
        };
        if count != 1 {
            *pos = p;
            return Err(crate::Error::ParseCommand(Error::WrongArgumentCount));
        }
        proof {
            assert(buf@.skip(p as int) =~= tail.skip(1));
        }
        match message::read_string(buf, &mut p) {
            Ok(key) => {
                *pos = p;
                Ok(Del { key })
            },
            Err(e) => Err(e),
        }
    }

    /// Appends the argument list of a removal: the count byte one, then the
    /// length-prefixed key.
    pub fn write(&self, buf: &mut Vec<u8>) -> (r: Result<(), crate::Error>)
        ensures
            message::string_fits(self.key@) ==> r == Ok::<(), crate::Error>(()) && final(buf)@
                == old(buf)@ + seq![1u8] + message::string_enc(self.key@),
            !message::string_fits(self.key@) ==> r == Err::<(), crate::Error>(
                crate::Error::StringTooLarge,
            ) && final(buf)@ == old(buf)@,
    {
        let kb = vstd::string::StrSliceExecFns::as_bytes_vec(self.key.as_str());
        if kb.len() > 0xFFFF {
            return Err(crate::Error::StringTooLarge);
        }
        buf.push(1);
        match message::write_string(buf, self.key.as_str()) {
            Ok(_) => {
                proof {
                    assert(buf@ =~= old(buf)@ + seq![1u8] + message::string_enc(self.key@));
                }
                Ok(())
            },
            Err(e) => Err(e),
        }
    }
}

} // verus!
