use attodb::command::{self, Command, Del, Get, Incr, SetCmd};
use attodb::message;
use attodb::Value;

fn round_trip(c: Command) {
    let mut buf: Vec<u8> = Vec::new();
    assert_eq!(c.write(&mut buf), Ok(()));
    let mut pos: usize = 0;
    assert_eq!(Command::parse(&buf, &mut pos), Ok(c));
    assert_eq!(pos, buf.len());
}

#[test]
fn command_round_trip_get() {
    round_trip(Command::Get(Get { key: String::from("k") }));
}

#[test]
fn command_round_trip_set() {
    round_trip(Command::SetCmd(SetCmd {
        key: String::from("key"),
        value: Value::Int(5).into_vec(),
    }));
}

#[test]
fn command_round_trip_incr() {
    round_trip(Command::Incr(Incr { key: String::from("counter") }));
}

#[test]
fn command_round_trip_del() {
    round_trip(Command::Del(Del { key: String::from("gone") }));
}

#[test]
fn command_get_exact_bytes() {
    let mut buf: Vec<u8> = Vec::new();
    let c = Command::Get(Get { key: String::from("ab") });
    assert_eq!(c.write(&mut buf), Ok(()));
    assert_eq!(buf, vec![0u8, 1, 0, 2, 97, 98]);
}

#[test]
fn command_set_exact_bytes() {
    let mut buf: Vec<u8> = Vec::new();
    let c = Command::SetCmd(SetCmd { key: String::from("k"), value: vec![1u8, 104, 105] });
    assert_eq!(c.write(&mut buf), Ok(()));
    assert_eq!(buf, vec![1u8, 2, 0, 1, 107, 0, 3, 1, 104, 105]);
}

#[test]
fn command_arity_get_rejected_early() {
    // tag get, count 2: the count is wrong; the tag and count bytes are
    // consumed and nothing past the malformed header is
    let buf = vec![0u8, 2, 0, 1, 107];
    let mut pos: usize = 0;
    assert_eq!(
        Command::parse(&buf, &mut pos),
        Err(attodb::Error::ParseCommand(command::Error::WrongArgumentCount))
    );
    assert_eq!(pos, 2);
}

#[test]
fn command_arity_set_rejected_early() {
    // tag set, count 1
    let buf = vec![1u8, 1, 0, 1, 107];
    let mut pos: usize = 0;
    assert_eq!(
        Command::parse(&buf, &mut pos),
        Err(attodb::Error::ParseCommand(command::Error::WrongArgumentCount))
    );
    assert_eq!(pos, 2);
}

#[test]
fn command_arity_incr_del_rejected_early() {
    for tag in [2u8, 3u8] {
        let buf = vec![tag, 0];
        let mut pos: usize = 0;
        assert_eq!(
            Command::parse(&buf, &mut pos),
            Err(attodb::Error::ParseCommand(command::Error::WrongArgumentCount))
        );
        assert_eq!(pos, 2);
    }
}

#[test]
fn command_unknown_tag() {
    let buf = vec![9u8, 1, 0, 1, 107];
    let mut pos: usize = 0;
    assert_eq!(
        Command::parse(&buf, &mut pos),
        Err(attodb::Error::ParseCommand(command::Error::UnknownCommandTag(9)))
    );
    // only the tag byte is consumed
    assert_eq!(pos, 1);
}

#[test]
fn command_truncated_argument_is_incomplete() {
    // tag get, count 1, length prefix says 4 bytes but only 1 follows
    let buf = vec![0u8, 1, 0, 4, 107];
    let mut pos: usize = 0;
    assert_eq!(
        Command::parse(&buf, &mut pos),
        Err(attodb::Error::ParseMessage(message::Error::Incomplete))
    );
    assert_eq!(pos, 0);
}

#[test]
fn command_key_invalid_utf8() {
    let buf = vec![0u8, 1, 0, 2, 0xFF, 0xFE];
    let mut pos: usize = 0;
    assert_eq!(Command::parse(&buf, &mut pos), Err(attodb::Error::InvalidUtf8));
    assert_eq!(pos, 0);
}

#[test]
fn command_write_oversized_key_refused() {
    let big = "x".repeat(0x1_0000);
    let c = Command::Get(Get { key: big });
    let mut buf: Vec<u8> = Vec::new();
    assert_eq!(c.write(&mut buf), Err(attodb::Error::StringTooLarge));
    assert!(buf.is_empty());
}
