//! The increment operation: add one to the integer stored under a key, or
//! initialize an absent key to one.

use vstd::prelude::*;

use crate::command::{arg1_dec, read_count, Error};
use crate::dispatch::{incr_reply_for, incr_result_reply};
use crate::message;
use crate::message::Message;
use crate::store::Store;
use crate::value::incr_step_result;

verus! {

/// An increment of one key.
#[derive(Debug, Clone, PartialEq)]
pub struct Incr {
    pub key: String,
}

impl Incr {
    /// Atomically increments the integer stored under this key, or
    /// initializes an absent key to one, and replies with the integer now
    /// stored; a stored value that is not an integer is left unchanged and
    /// reported as not a number. The step's atomicity per key comes from
    /// the store's entry interface; the contract promises a reply correctly
    /// shaped from the step's outcome on whatever the key held at that
    /// instant, and the shaping itself is [`incr_result_reply`]'s exact
    /// contract.
    pub fn perform(self, db: &mut Store) -> (r: Message)
        ensures
            exists|prior: Option<Seq<u8>>| r@ == incr_reply_for(incr_step_result(prior)),
    {
        let bytes = db.update_or_insert(self.key);
        let r = incr_result_reply(&bytes);
        proof {
            let prior = choose|p: Option<Seq<u8>>| bytes@ == incr_step_result(p);
            assert(r@ == incr_reply_for(incr_step_result(prior)));
        }
        r
    }

    /// Decodes the argument list of an increment: the count byte, which must be
    /// one, then the key. The count is checked before any argument bytes
    /// are read; on a mismatch exactly the count byte is consumed.
    pub fn parse(buf: &Vec<u8>, pos: &mut usize) -> (r: Result<Incr, crate::Error>)
        requires
            *old(pos) <= buf@.len(),
        ensures
            *final(pos) <= buf@.len(),
            (match r {
                Ok(i) => {
                    &&& arg1_dec(buf@.skip(*old(pos) as int)) == Ok::<
                        (Seq<char>, int),
                        crate::Error,
                    >((i.key@, *final(pos) - *old(pos)))
                    &&& *old(pos) <= *final(pos)
                },
                Err(e) => {
                    &&& arg1_dec(buf@.skip(*old(pos) as int)) == Err::<
                        (Seq<char>, int),
                        crate::Error,
                    >(e)
                    &&& (match e {
                        crate::Error::ParseCommand(Error::WrongArgumentCount) => *final(pos)
                            == *old(pos) + 1,
                        _ => *final(pos) == *old(pos),
                    })
                },
            }),
    {
        let start: usize = *pos;
        let ghost tail = buf@.skip(start as int);
        let mut p: usize = start;
        let count: u8 = match read_count(buf, &mut p) {
            Ok(c) => c,
            Err(e) => {
                return Err(e);
            },
        };
        if count != 1 {
            *pos = p;
            return Err(crate::Error::ParseCommand(Error::WrongArgumentCount));
        }
        proof {
            assert(buf@.skip(p as int) =~= tail.skip(1));
        }
        match message::read_string(buf, &mut p) {
            Ok(key) => {
                *pos = p;
                Ok(Incr { key })
            },
            Err(e) => Err(e),
        }
    }

    /// Appends the argument list of an increment: the count byte one, then the
    /// length-prefixed key.
    pub fn write(&self, buf: &mut Vec<u8>) -> (r: Result<(), crate::Error>)
        ensures
            message::string_fits(self.key@) ==> r == Ok::<(), crate::Error>(()) && final(buf)@
                == old(buf)@ + seq![1u8] + message::string_enc(self.key@),
            !message::string_fits(self.key@) ==> r == Err::<(), crate::Error>(
                crate::Error::StringTooLarge,
            ) && final(buf)@ == old(buf)@,
    {
        let kb = vstd::string::StrSliceExecFns::as_bytes_vec(self.key.as_str());
        if kb.len() > 0xFFFF {
            return Err(crate::Error::StringTooLarge);
        }
        buf.push(1);
        match message::write_string(buf, self.key.as_str()) {
            Ok(_) => {
                proof {
                    assert(buf@ =~= old(buf)@ + seq![1u8] + message::string_enc(self.key@));
                }
                Ok(())
            },
            Err(e) => Err(e),
        }
    }
}

} // verus!
