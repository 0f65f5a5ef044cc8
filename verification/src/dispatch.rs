//! The dispatcher: applies a decoded command to the store and produces the
//! reply message to send back.
//!
//! The store is shared with other connections, which write to it between
//! any two calls, so an executable dispatch can only promise that its reply
//! is correctly shaped from some outcome of its one store operation; the
//! shaping itself ([`lookup_reply`], [`incr_result_reply`]) is exact. What
//! a whole run of commands means on given contents is the pure map model
//! below — [`apply_command`], [`command_reply`] and kin — whose laws are
//! proved at the end of this module.

use vstd::prelude::*;

use crate::command::{Command, CommandModel};
use crate::message::{Message, MessageModel};
use crate::store::Store;
use crate::value::{incr_step_result, value_dec, value_enc, Value, ValueModel};
use vstd::string::StringExecFns;

verus! {

/// What the contents hold under a key: the stored bytes, or nothing.
pub open spec fn stored_at(m: Map<Seq<char>, Seq<u8>>, k: Seq<char>) -> Option<Seq<u8>> {
    if m.contains_key(k) {
        Some(m[k])
    } else {
        None
    }
}

/// The reply a read shapes from one lookup outcome: the decoded value,
/// null for an absent key, and a reported error for stored bytes that no
/// longer decode.
pub open spec fn get_reply_for(found: Option<Seq<u8>>) -> MessageModel {
    match found {
        None => MessageModel::Null,
        Some(b) => match value_dec(b) {
            Ok(ValueModel::Int(n)) => MessageModel::Int(n),
            Ok(ValueModel::Text(s)) => MessageModel::Text(s),
            Err(e) => MessageModel::Failure("internal encoding error"@),
        },
    }
}

/// The reply an increment shapes from the bytes its step left stored: the
/// integer now under the key, or a report that the stored value is not a
/// number (which the step left unchanged).
pub open spec fn incr_reply_for(nb: Seq<u8>) -> MessageModel {
    match value_dec(nb) {
        Ok(ValueModel::Int(n)) => MessageModel::Int(n),
        _ => MessageModel::Failure("not a number"@),
    }
}

/// The reply a delete shapes from its removal outcome: ok for a key that
/// was present and removed, null for one that was already absent.
pub open spec fn del_reply_for(removed: bool) -> MessageModel {
    if removed {
        MessageModel::Okay
    } else {
        MessageModel::Null
    }
}

/// The reply a read produces against given contents.
pub open spec fn get_reply(m: Map<Seq<char>, Seq<u8>>, k: Seq<char>) -> MessageModel {
    get_reply_for(stored_at(m, k))
}

/// The contents after an increment of `k`: a present value goes through
/// the increment step, an absent key is initialized to the integer one.
pub open spec fn store_incr(m: Map<Seq<char>, Seq<u8>>, k: Seq<char>) -> Map<Seq<char>, Seq<u8>> {
    m.insert(k, incr_step_result(stored_at(m, k)))
}

/// The reply an increment produces against given contents.
pub open spec fn incr_reply(m: Map<Seq<char>, Seq<u8>>, k: Seq<char>) -> MessageModel {
    incr_reply_for(incr_step_result(stored_at(m, k)))
}

/// The contents after a command is applied.
pub open spec fn apply_command(m: Map<Seq<char>, Seq<u8>>, c: CommandModel) -> Map<
    Seq<char>,
    Seq<u8>,
> {
    match c {
        CommandModel::Get(k) => m,
        CommandModel::SetCmd(k, v) => m.insert(k, v),
        CommandModel::Incr(k) => store_incr(m, k),
        CommandModel::Del(k) => m.remove(k),
    }
}

/// The reply a command produces against given contents.
pub open spec fn command_reply(m: Map<Seq<char>, Seq<u8>>, c: CommandModel) -> MessageModel {
    match c {
        CommandModel::Get(k) => get_reply(m, k),
        CommandModel::SetCmd(k, v) => MessageModel::Okay,
        CommandModel::Incr(k) => incr_reply(m, k),
        CommandModel::Del(k) => del_reply_for(m.contains_key(k)),
    }
}

/// The replies a command can produce against the shared store: exact for a
/// write, and correctly shaped from some outcome of the one store
/// operation for a read, an increment or a delete — which outcome depends
/// on what other connections did.
pub open spec fn valid_reply(c: CommandModel, r: MessageModel) -> bool {
    match c {
        CommandModel::Get(k) => exists|found: Option<Seq<u8>>| r == get_reply_for(found),
        CommandModel::SetCmd(k, v) => r == MessageModel::Okay,
        CommandModel::Incr(k) => exists|prior: Option<Seq<u8>>|
            r == incr_reply_for(incr_step_result(prior)),
        CommandModel::Del(k) => exists|removed: bool| r == del_reply_for(removed),
    }
}

/// The responses owed for a received message: a pong for a ping, a valid
/// command reply for a command, and nothing for a message that asks
/// nothing.
pub open spec fn valid_response(msg: MessageModel, r: Option<MessageModel>) -> bool {
    match msg {
        MessageModel::Ping => r == Some(MessageModel::Okay),
        MessageModel::Command(c) => match r {
            Some(rep) => valid_reply(c, rep),
            None => false,
        },
        _ => r is None,
    }
}

/// The mathematical view of one lookup outcome.
pub open spec fn found_view(found: Option<Vec<u8>>) -> Option<Seq<u8>> {
    match found {
        Some(v) => Some(v@),
        None => None,
    }
}

/// Shapes one lookup outcome into the read's reply.
pub fn lookup_reply(found: Option<Vec<u8>>) -> (r: Message)
    ensures
        r@ == get_reply_for(found_view(found)),
{
    match found {
        Some(bytes) => {
            match Value::parse(&bytes) {
                Ok(Value::Int(n)) => Message::Int(n),
                Ok(Value::String(s)) => Message::Text(s),
                Err(_) => Message::Failure(String::from_str("internal encoding error")),
            }
        },
        None => Message::Null,
    }
}

/// Shapes the bytes an increment step left stored into its reply.
pub fn incr_result_reply(bytes: &Vec<u8>) -> (r: Message)
    ensures
        r@ == incr_reply_for(bytes@),
{
    match Value::parse(bytes) {
        Ok(Value::Int(n)) => Message::Int(n),
        _ => Message::Failure(String::from_str("not a number")),
    }
}

/// Shapes a delete's removal outcome into its reply.
pub fn del_reply(removed: bool) -> (r: Message)
    ensures
        r@ == del_reply_for(removed),
{
    if removed {
        Message::Okay
    } else {
        Message::Null
    }
}

/// Executes a decoded command against the store and produces the reply.
pub fn execute(command: Command, store: &mut Store) -> (r: Message)
    ensures
        valid_reply(command@, r@),
{
    match command {
        Command::Get(g) => g.perform(store),
        Command::SetCmd(s) => s.perform(store),
        Command::Incr(i) => i.perform(store),
        Command::Del(d) => d.perform(store),
    }
}

/// Handles one received message against the store and produces the reply
/// to send back, if one is owed.
pub fn respond_to(message: Message, store: &mut Store) -> (r: Option<Message>)
    ensures
        (match r {
            Some(reply) => valid_response(message@, Some(reply@)),
            None => valid_response(message@, None::<MessageModel>),
        }),
{
    match message {
        Message::Ping => Some(Message::Okay),
        Message::Command(c) => Some(execute(c, store)),
        _ => None,
    }
}

/// The reply owed when decoding a request failed: a recoverable decode
/// error is reported back to the client and the connection goes on; a
/// transport-level reset is fatal and gets no reply.
pub fn error_reply(err: &crate::Error) -> (r: Option<Message>)
    ensures
        (match *err {
            crate::Error::ConnectionReset => r is None,
            _ => (match r {
                Some(m) => m@ == MessageModel::Failure(err.spec_text()),
                None => false,
            }),
        }),
{
    match err {
        crate::Error::ConnectionReset => None,
        _ => Some(Message::Failure(err.describe())),
    }
}

/// Law: after an integer is stored under a key, one increment replies with
/// the next integer and a read then sees that same integer.
pub proof fn lemma_incr_semantics(m: Map<Seq<char>, Seq<u8>>, k: Seq<char>, n: i32)
    requires
        n < i32::MAX,
    ensures
        ({
            let m1 = apply_command(m, CommandModel::SetCmd(k, value_enc(ValueModel::Int(n))));
            let m2 = store_incr(m1, k);
            &&& incr_reply(m1, k) == MessageModel::Int((n + 1) as i32)
            &&& get_reply(m2, k) == MessageModel::Int((n + 1) as i32)
        }),
{
    crate::value::lemma_value_round_trip(ValueModel::Int(n));
    crate::value::lemma_value_round_trip(ValueModel::Int((n + 1) as i32));
}

/// Law: an increment of an absent key replies with the integer one and
/// leaves it stored, so a read then sees one.
pub proof fn lemma_incr_absent(m: Map<Seq<char>, Seq<u8>>, k: Seq<char>)
    requires
        !m.contains_key(k),
    ensures
        incr_reply(m, k) == MessageModel::Int(1),
        get_reply(store_incr(m, k), k) == MessageModel::Int(1),
{
    crate::value::lemma_value_round_trip(ValueModel::Int(1));
}

/// Law: an increment of a stored string replies that the value is not a
/// number and leaves the store unchanged, so a read still sees the string.
pub proof fn lemma_incr_not_a_number(m: Map<Seq<char>, Seq<u8>>, k: Seq<char>, s: Seq<char>)
    ensures
        ({
            let m1 = m.insert(k, value_enc(ValueModel::Text(s)));
            &&& incr_reply(m1, k) == MessageModel::Failure("not a number"@)
            &&& store_incr(m1, k) == m1
            &&& get_reply(store_incr(m1, k), k) == MessageModel::Text(s)
        }),
{
    let m1 = m.insert(k, value_enc(ValueModel::Text(s)));
    crate::value::lemma_value_round_trip(ValueModel::Text(s));
    assert(store_incr(m1, k) =~= m1);
}

/// The contents after a run of increments of one key, applied one after
/// another.
pub open spec fn incr_n_times(m: Map<Seq<char>, Seq<u8>>, k: Seq<char>, n: nat) -> Map<
    Seq<char>,
    Seq<u8>,
>
    decreases n,
{
    if n == 0 {
        m
    } else {
        store_incr(incr_n_times(m, k, (n - 1) as nat), k)
    }
}

/// Law: a run of increments of a fresh key loses none of them: after the
/// run, exactly the count of increments is stored, and a read sees it.
/// Each increment's atomicity per key is what lets concurrent increments
/// land in some such order.
pub proof fn lemma_incr_counts(m: Map<Seq<char>, Seq<u8>>, k: Seq<char>, n: nat)
    requires
        !m.contains_key(k),
        1 <= n <= i32::MAX,
    ensures
        incr_n_times(m, k, n).contains_key(k),
        incr_n_times(m, k, n)[k] == value_enc(ValueModel::Int(n as i32)),
        get_reply(incr_n_times(m, k, n), k) == MessageModel::Int(n as i32),
    decreases n,
{
    crate::value::lemma_value_round_trip(ValueModel::Int(n as i32));
    if n == 1 {
    } else {
        lemma_incr_counts(m, k, (n - 1) as nat);
        crate::value::lemma_value_round_trip(ValueModel::Int((n - 1) as i32));
    }
}

/// Law: deleting an absent key replies null and changes nothing; deleting
/// a key right after a write replies ok and removes it; a second delete
/// then replies null again.
pub proof fn lemma_del_idempotent(m: Map<Seq<char>, Seq<u8>>, k: Seq<char>, v: Seq<u8>)
    ensures
        !m.contains_key(k) ==> command_reply(m, CommandModel::Del(k)) == MessageModel::Null
            && apply_command(m, CommandModel::Del(k)) =~= m,
        ({
            let m1 = apply_command(m, CommandModel::SetCmd(k, v));
            let m2 = apply_command(m1, CommandModel::Del(k));
            &&& command_reply(m1, CommandModel::Del(k)) == MessageModel::Okay
            &&& command_reply(m2, CommandModel::Del(k)) == MessageModel::Null
            &&& !m2.contains_key(k)
        }),
{
}

} // verus!
