use attodb::command::{Command, Get, SetCmd};
use attodb::message::{self, is_complete, on_peer_close, read_int, read_line, read_string,
    write_string};
use attodb::Message;

fn round_trip(m: Message) {
    let mut buf: Vec<u8> = Vec::new();
    assert_eq!(m.write(&mut buf), Ok(()));
    let mut pos: usize = 0;
    assert_eq!(Message::parse(&buf, &mut pos), Ok(m));
    assert_eq!(pos, buf.len());
}

#[test]
fn message_round_trip_every_variant() {
    round_trip(Message::Ping);
    round_trip(Message::Okay);
    round_trip(Message::Null);
    round_trip(Message::Failure(String::from("not a number")));
    round_trip(Message::Int(-7));
    round_trip(Message::Text(String::from("héllo")));
    round_trip(Message::Command(Command::Get(Get { key: String::from("k") })));
    round_trip(Message::Command(Command::SetCmd(SetCmd {
        key: String::from("k"),
        value: vec![0u8, 0, 0, 0, 5],
    })));
}

#[test]
fn message_exact_bytes() {
    let mut buf: Vec<u8> = Vec::new();
    assert_eq!(Message::Ping.write(&mut buf), Ok(()));
    assert_eq!(buf, vec![0u8, 13, 10]);

    let mut buf: Vec<u8> = Vec::new();
    assert_eq!(Message::Int(1).write(&mut buf), Ok(()));
    assert_eq!(buf, vec![5u8, 0, 0, 0, 1, 13, 10]);

    let mut buf: Vec<u8> = Vec::new();
    assert_eq!(Message::Text(String::from("hi")).write(&mut buf), Ok(()));
    assert_eq!(buf, vec![6u8, 0, 2, 104, 105, 13, 10]);

    let mut buf: Vec<u8> = Vec::new();
    assert_eq!(Message::Okay.write(&mut buf), Ok(()));
    assert_eq!(buf, vec![2u8, 13, 10]);
}

#[test]
fn message_unknown_tag_is_reported_not_fatal() {
    let buf = vec![255u8, 13, 10];
    let mut pos: usize = 0;
    assert_eq!(
        Message::parse(&buf, &mut pos),
        Err(attodb::Error::ParseMessage(message::Error::UnknownMessageTag(255)))
    );
    // the bad frame is consumed, so the connection can go on
    assert_eq!(pos, 3);
}

#[test]
fn message_incomplete_frame_waits() {
    let buf = vec![5u8, 0, 0, 0, 1];
    let mut pos: usize = 0;
    assert_eq!(
        Message::parse(&buf, &mut pos),
        Err(attodb::Error::ParseMessage(message::Error::Incomplete))
    );
    assert_eq!(pos, 0);
}

#[test]
fn framing_one_byte_at_a_time() {
    let mut enc: Vec<u8> = Vec::new();
    assert_eq!(Message::Text(String::from("hi")).write(&mut enc), Ok(()));
    let mut partial: Vec<u8> = Vec::new();
    for &b in enc.iter() {
        assert!(!is_complete(&partial, 0));
        partial.push(b);
    }
    assert!(is_complete(&partial, 0));
    let mut pos: usize = 0;
    assert_eq!(Message::parse(&partial, &mut pos), Ok(Message::Text(String::from("hi"))));
    assert_eq!(pos, enc.len());
}

#[test]
fn framing_two_messages_in_order() {
    let mut buf: Vec<u8> = Vec::new();
    assert_eq!(Message::Int(3).write(&mut buf), Ok(()));
    let first_len = buf.len();
    assert_eq!(Message::Text(String::from("ab")).write(&mut buf), Ok(()));
    let mut pos: usize = 0;
    assert_eq!(Message::parse(&buf, &mut pos), Ok(Message::Int(3)));
    assert_eq!(pos, first_len);
    assert_eq!(Message::parse(&buf, &mut pos), Ok(Message::Text(String::from("ab"))));
    assert_eq!(pos, buf.len());
}

#[test]
fn read_line_finds_terminator() {
    let buf = vec![1u8, 2, 13, 10, 9];
    let mut pos: usize = 0;
    assert_eq!(read_line(&buf, &mut pos), Ok(vec![1u8, 2]));
    assert_eq!(pos, 4);
    assert!(!is_complete(&buf, pos));
}

#[test]
fn peer_close_mid_frame_is_a_reset() {
    // bytes left over without a terminator: the peer vanished mid-message
    assert_eq!(
        on_peer_close(&vec![5u8, 0, 0], 0),
        Some(attodb::Error::ConnectionReset)
    );
    // nothing buffered: a clean end of stream
    assert_eq!(on_peer_close(&vec![], 0), None);
    // everything buffered was already consumed
    assert_eq!(on_peer_close(&vec![0u8, 13, 10], 3), None);
}

#[test]
fn read_string_round_trips_wire_form() {
    let mut buf: Vec<u8> = Vec::new();
    assert_eq!(write_string(&mut buf, "héllo"), Ok(()));
    assert_eq!(buf[0], 0);
    assert_eq!(buf[1] as usize, buf.len() - 2);
    let mut pos: usize = 0;
    assert_eq!(read_string(&buf, &mut pos), Ok(String::from("héllo")));
    assert_eq!(pos, buf.len());
}

#[test]
fn read_string_rejects_invalid_utf8() {
    let buf = vec![0u8, 2, 0xFF, 0xFE];
    let mut pos: usize = 0;
    assert_eq!(read_string(&buf, &mut pos), Err(attodb::Error::InvalidUtf8));
    assert_eq!(pos, 0);
}

#[test]
fn write_string_rejects_oversized() {
    let big = "y".repeat(0x1_0000);
    let mut buf: Vec<u8> = Vec::new();
    assert_eq!(write_string(&mut buf, &big), Err(attodb::Error::StringTooLarge));
    assert!(buf.is_empty());
}

#[test]
fn message_write_oversized_text_refused() {
    let big = Message::Text("z".repeat(0x1_0000));
    let mut buf: Vec<u8> = Vec::new();
    assert_eq!(big.write(&mut buf), Err(attodb::Error::StringTooLarge));
    assert!(buf.is_empty());
}

#[test]
fn error_describe_texts() {
    assert_eq!(attodb::Error::InvalidUtf8.describe(), "invalid utf8");
    assert_eq!(attodb::Error::ConnectionReset.describe(), "connection reset by peer");
    assert_eq!(
        attodb::Error::ParseMessage(message::Error::Incomplete).describe(),
        "failed to parse message"
    );
}

#[test]
fn read_int_big_endian() {
    let buf = vec![0u8, 0, 1, 0];
    let mut pos: usize = 0;
    assert_eq!(read_int(&buf, &mut pos), Ok(256));
    let buf = vec![255u8, 255, 255, 255];
    let mut pos: usize = 0;
    assert_eq!(read_int(&buf, &mut pos), Ok(-1));
}
