//! The request operations and their binary codec.
//!
//! A command is one tag byte, one argument-count byte, then each argument as
//! a length-prefixed byte string. The count is validated against the
//! operation's fixed arity before any argument bytes are read.

use vstd::prelude::*;

use crate::message;

mod del;
mod get;
mod incr;
mod set;

pub use del::Del;
pub use get::Get;
pub use incr::Incr;
pub use set::SetCmd;

verus! {

/// Why a buffer failed to decode as a command.
#[derive(Debug, Clone, Copy, PartialEq, Eq, Structural)]
pub enum Error {
    /// The leading tag byte names no operation.
    UnknownCommandTag(u8),
    /// The declared argument count does not match the operation's arity.
    WrongArgumentCount,
}

/// A decoded request operation.
#[derive(Debug, Clone, PartialEq)]
pub enum Command {
    Get(Get),
    SetCmd(SetCmd),
    Incr(Incr),
    Del(Del),
}

/// The mathematical content of a [`Command`]: the operation, its key, and
/// for a write the raw value bytes it carries.
pub enum CommandModel {
    Get(Seq<char>),
    SetCmd(Seq<char>, Seq<u8>),
    Incr(Seq<char>),
    Del(Seq<char>),
}

impl View for Command {
    type V = CommandModel;

    open spec fn view(&self) -> CommandModel {
        match self {
            Command::Get(g) => CommandModel::Get(g.key@),
            Command::SetCmd(s) => CommandModel::SetCmd(s.key@, s.value@),
            Command::Incr(i) => CommandModel::Incr(i.key@),
            Command::Del(d) => CommandModel::Del(d.key@),
        }
    }
}

/// The kind of a command, as named by its wire tag.
#[derive(Debug, Clone, Copy, PartialEq, Eq, Structural)]
pub enum Variant {
    Get,
    SetCmd,
    Incr,
    Del,
}

impl Variant {
    /// The wire tag byte of this variant.
    pub open spec fn spec_byte(self) -> u8 {
        match self {
            Variant::Get => 0,
            Variant::SetCmd => 1,
            Variant::Incr => 2,
            Variant::Del => 3,
        }
    }

    /// Writes this variant's wire tag.
    pub fn byte(self) -> (b: u8)
        ensures
            b == self.spec_byte(),
    {
        match self {
            Variant::Get => 0,
            Variant::SetCmd => 1,
            Variant::Incr => 2,
            Variant::Del => 3,
        }
    }

    /// The variant a wire tag byte names, if any.
    pub fn from_byte(b: u8) -> (r: Option<Variant>)
        ensures
            (match r {
                Some(v) => v.spec_byte() == b,
                None => b > 3,
            }),
    {
        match b {
            0 => Some(Variant::Get),
            1 => Some(Variant::SetCmd),
            2 => Some(Variant::Incr),
            3 => Some(Variant::Del),
            _ => None,
        }
    }
}

/// Whether a command's arguments fit their 16-bit length prefixes, which is
/// all its encoding asks of it.
pub open spec fn cmd_wf(c: CommandModel) -> bool {
    match c {
        CommandModel::Get(k) => message::string_fits(k),
        CommandModel::SetCmd(k, v) => message::string_fits(k) && message::bytes_fits(v),
        CommandModel::Incr(k) => message::string_fits(k),
        CommandModel::Del(k) => message::string_fits(k),
    }
}

/// The byte encoding of a command: its tag, its arity, then each argument
/// length-prefixed.
pub open spec fn cmd_enc(c: CommandModel) -> Seq<u8> {
    match c {
        CommandModel::Get(k) => seq![0u8, 1u8] + message::string_enc(k),
        CommandModel::SetCmd(k, v) => seq![1u8, 2u8] + message::string_enc(k) + message::bytes_enc(v),
        CommandModel::Incr(k) => seq![2u8, 1u8] + message::string_enc(k),
        CommandModel::Del(k) => seq![3u8, 1u8] + message::string_enc(k),
    }
}

/// What reading an arity-one argument list (count byte, then one string) at
/// the start of `tail` yields: the key and the bytes consumed. A count other
/// than one is rejected before any argument bytes are read.
pub open spec fn arg1_dec(tail: Seq<u8>) -> Result<(Seq<char>, int), crate::Error> {
    if tail.len() < 1 {
        Err(crate::Error::ParseMessage(message::Error::Incomplete))
    } else if tail[0] != 1 {
        Err(crate::Error::ParseCommand(Error::WrongArgumentCount))
    } else {
        match message::string_dec(tail.skip(1)) {
            Ok((k, n)) => Ok((k, 1 + n)),
            Err(e) => Err(e),
        }
    }
}

/// What reading an arity-two argument list (count byte, then a string and a
/// byte blob) at the start of `tail` yields. A count other than two is
/// rejected before any argument bytes are read.
pub open spec fn arg2_dec(tail: Seq<u8>) -> Result<(Seq<char>, Seq<u8>, int), crate::Error> {
    if tail.len() < 1 {
        Err(crate::Error::ParseMessage(message::Error::Incomplete))
    } else if tail[0] != 2 {
        Err(crate::Error::ParseCommand(Error::WrongArgumentCount))
    } else {
        match message::string_dec(tail.skip(1)) {
            Ok((k, n1)) => match message::bytes_dec(tail.skip(1 + n1)) {
                Ok((v, n2)) => Ok((k, v, 1 + n1 + n2)),
                Err(e) => Err(e),
            },
            Err(e) => Err(e),
        }
    }
}

/// The command a buffer decodes to at the start of `tail`, with the bytes
/// consumed, or the exact error it is rejected with.
pub open spec fn cmd_dec(tail: Seq<u8>) -> Result<(CommandModel, int), crate::Error> {
    if tail.len() < 1 {
        Err(crate::Error::ParseMessage(message::Error::Incomplete))
    } else if tail[0] == 0 {
        match arg1_dec(tail.skip(1)) {
            Ok((k, n)) => Ok((CommandModel::Get(k), 1 + n)),
            Err(e) => Err(e),
        }
    } else if tail[0] == 1 {
        match arg2_dec(tail.skip(1)) {
            Ok((k, v, n)) => Ok((CommandModel::SetCmd(k, v), 1 + n)),
            Err(e) => Err(e),
        }
    } else if tail[0] == 2 {
        match arg1_dec(tail.skip(1)) {
            Ok((k, n)) => Ok((CommandModel::Incr(k), 1 + n)),
            Err(e) => Err(e),
        }
    } else if tail[0] == 3 {
        match arg1_dec(tail.skip(1)) {
            Ok((k, n)) => Ok((CommandModel::Del(k), 1 + n)),
            Err(e) => Err(e),
        }
    } else {
        Err(crate::Error::ParseCommand(Error::UnknownCommandTag(tail[0])))
    }
}

impl Command {
    /// Decodes a command from `buf` at `pos`, advancing `pos` past exactly
    /// the bytes consumed: the whole command on success, the tag byte on an
    /// unknown tag, the tag and count bytes on a wrong argument count, and
    /// nothing on a truncated or malformed argument.
    pub fn parse(buf: &Vec<u8>, pos: &mut usize) -> (r: Result<Command, crate::Error>)
        requires
            *old(pos) <= buf@.len(),
        ensures
            *final(pos) <= buf@.len(),
            (match r {
                Ok(c) => {
                    &&& cmd_dec(buf@.skip(*old(pos) as int)) == Ok::<
                        (CommandModel, int),
                        crate::Error,
                    >((c@, *final(pos) - *old(pos)))
                    &&& *old(pos) <= *final(pos)
                },
                Err(e) => {
                    &&& cmd_dec(buf@.skip(*old(pos) as int)) == Err::<
                        (CommandModel, int),
                        crate::Error,
                    >(e)
                    &&& (match e {
                        crate::Error::ParseCommand(Error::UnknownCommandTag(t)) => *final(pos)
                            == *old(pos) + 1,
                        crate::Error::ParseCommand(Error::WrongArgumentCount) => *final(pos)
                            == *old(pos) + 2,
                        _ => *final(pos) == *old(pos),
                    })
                },
            }),
    {
        let start: usize = *pos;
        let ghost tail = buf@.skip(start as int);
        if buf.len() - start < 1 {
            return Err(crate::Error::ParseMessage(message::Error::Incomplete));
        }
        let t: u8 = buf[start];
        assert(t == tail[0]);
        let mut p: usize = start + 1;
        proof {
            assert(buf@.skip(start as int + 1) =~= tail.skip(1));
        }
        match Variant::from_byte(t) {
            Some(Variant::Get) => {
                match Get::parse(buf, &mut p) {
                    Ok(g) => {
                        *pos = p;
                        Ok(Command::Get(g))
                    },
                    Err(e) => {
                        if let crate::Error::ParseCommand(Error::WrongArgumentCount) = e {
                            *pos = p;
                        }
                        Err(e)
                    },
                }
            },
            Some(Variant::SetCmd) => {
                match SetCmd::parse(buf, &mut p) {
                    Ok(s) => {
                        *pos = p;
                        Ok(Command::SetCmd(s))
                    },
                    Err(e) => {
                        if let crate::Error::ParseCommand(Error::WrongArgumentCount) = e {
                            *pos = p;
                        }
                        Err(e)
                    },
                }
            },
            Some(Variant::Incr) => {
                match Incr::parse(buf, &mut p) {
                    Ok(i) => {
                        *pos = p;
                        Ok(Command::Incr(i))
                    },
                    Err(e) => {
                        if let crate::Error::ParseCommand(Error::WrongArgumentCount) = e {
                            *pos = p;
                        }
                        Err(e)
                    },
                }
            },
            Some(Variant::Del) => {
                match Del::parse(buf, &mut p) {
                    Ok(d) => {
                        *pos = p;
                        Ok(Command::Del(d))
                    },
                    Err(e) => {
                        if let crate::Error::ParseCommand(Error::WrongArgumentCount) = e {
                            *pos = p;
                        }
                        Err(e)
                    },
                }
            },
            None => {
                *pos = start + 1;
                Err(crate::Error::ParseCommand(Error::UnknownCommandTag(t)))
            },
        }
    }

    /// Appends the byte encoding of this command, or reports an oversized
    /// argument and leaves the buffer unchanged.
    pub fn write(&self, buf: &mut Vec<u8>) -> (r: Result<(), crate::Error>)
        ensures
            cmd_wf(self@) ==> r == Ok::<(), crate::Error>(()) && final(buf)@ == old(buf)@
                + cmd_enc(self@),
            !cmd_wf(self@) ==> r == Err::<(), crate::Error>(crate::Error::StringTooLarge)
                && final(buf)@ == old(buf)@,
    {
        let mut tmp: Vec<u8> = Vec::new();
        let res: Result<(), crate::Error> = match self {
            Command::Get(g) => {
                tmp.push(Variant::Get.byte());
                g.write(&mut tmp)
            },
            Command::SetCmd(s) => {
                tmp.push(Variant::SetCmd.byte());
                s.write(&mut tmp)
            },
            Command::Incr(i) => {
                tmp.push(Variant::Incr.byte());
                i.write(&mut tmp)
            },
            Command::Del(d) => {
                tmp.push(Variant::Del.byte());
                d.write(&mut tmp)
            },
        };
        match res {
            Ok(_) => {
                proof {
                    assert(tmp@ =~= cmd_enc(self@));
                }
                buf.append(&mut tmp);
                Ok(())
            },
            Err(e) => Err(e),
        }
    }
}

/// Reads the argument-count byte of a command at `pos`.
pub fn read_count(buf: &Vec<u8>, pos: &mut usize) -> (r: Result<u8, crate::Error>)
    requires
        *old(pos) <= buf@.len(),
    ensures
        *final(pos) <= buf@.len(),
        (match r {
            Ok(c) => {
                &&& *old(pos) < buf@.len()
                &&& c == buf@[*old(pos) as int]
                &&& *final(pos) == *old(pos) + 1
            },
            Err(e) => {
                &&& e == crate::Error::ParseMessage(message::Error::Incomplete)
                &&& *old(pos) == buf@.len()
                &&& *final(pos) == *old(pos)
            },
        }),
{
    let start: usize = *pos;
    if buf.len() - start < 1 {
        return Err(crate::Error::ParseMessage(message::Error::Incomplete));
    }
    *pos = start + 1;
    Ok(buf[start])
}

/// Law: decoding inverts encoding, for every command whose arguments fit
/// their length prefixes, and consumes exactly the encoding.
pub proof fn lemma_command_round_trip(c: CommandModel)
    ensures
        cmd_wf(c) ==> cmd_dec(cmd_enc(c)) == Ok::<(CommandModel, int), crate::Error>(
            (c, cmd_enc(c).len() as int),
        ),
{
    if cmd_wf(c) {
        let enc = cmd_enc(c);
        match c {
            CommandModel::Get(k) => {
                assert(enc.skip(1).skip(1) =~= message::string_enc(k) + Seq::<u8>::empty());
                message::lemma_string_dec_prefix(k, Seq::<u8>::empty());
            },
            CommandModel::SetCmd(k, v) => {
                let se = message::string_enc(k);
                assert(enc.skip(1).skip(1) =~= se + message::bytes_enc(v));
                message::lemma_string_dec_prefix(k, message::bytes_enc(v));
                assert(enc.skip(1).skip(1 + se.len() as int) =~= message::bytes_enc(v)
                    + Seq::<u8>::empty());
                message::lemma_bytes_dec_prefix(v, Seq::<u8>::empty());
            },
            CommandModel::Incr(k) => {
                assert(enc.skip(1).skip(1) =~= message::string_enc(k) + Seq::<u8>::empty());
                message::lemma_string_dec_prefix(k, Seq::<u8>::empty());
            },
            CommandModel::Del(k) => {
                assert(enc.skip(1).skip(1) =~= message::string_enc(k) + Seq::<u8>::empty());
                message::lemma_string_dec_prefix(k, Seq::<u8>::empty());
            },
        }
    }
}

} // verus!
