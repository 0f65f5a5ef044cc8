use attodb::command::{Command, Del, Get, Incr, SetCmd};
use attodb::dispatch::{del_reply, error_reply, execute, incr_result_reply, lookup_reply,
    respond_to};
use attodb::{Message, Store, Value};

fn get(store: &Store, key: &str) -> Message {
    Get { key: String::from(key) }.perform(store)
}

#[test]
fn incr_after_set_int_yields_next() {
    let mut store = Store::new();
    SetCmd { key: String::from("k"), value: Value::Int(5).into_vec() }.perform(&mut store);
    let r = Incr { key: String::from("k") }.perform(&mut store);
    assert_eq!(r, Message::Int(6));
    assert_eq!(get(&store, "k"), Message::Int(6));
}

#[test]
fn incr_absent_initializes_to_one() {
    let mut store = Store::new();
    let r = Incr { key: String::from("fresh") }.perform(&mut store);
    assert_eq!(r, Message::Int(1));
    assert_eq!(get(&store, "fresh"), Message::Int(1));
}

#[test]
fn incr_on_string_reports_and_leaves_value() {
    let mut store = Store::new();
    SetCmd { key: String::from("k"), value: Value::String(String::from("x")).into_vec() }
        .perform(&mut store);
    let r = Incr { key: String::from("k") }.perform(&mut store);
    assert_eq!(r, Message::Failure(String::from("not a number")));
    assert_eq!(get(&store, "k"), Message::Text(String::from("x")));
}

#[test]
fn incr_thousand_times_sequential() {
    let mut store = Store::new();
    for i in 1..=1000 {
        let r = Incr { key: String::from("n") }.perform(&mut store);
        assert_eq!(r, Message::Int(i));
    }
    assert_eq!(get(&store, "n"), Message::Int(1000));
}

#[test]
fn incr_thousand_times_concurrent() {
    let store = Store::new();
    let rt = tokio::runtime::Runtime::new().unwrap();
    rt.block_on(async {
        let mut tasks = Vec::new();
        for _ in 0..8 {
            let mut handle = store.share();
            tasks.push(tokio::spawn(async move {
                for _ in 0..125 {
                    Incr { key: String::from("n") }.perform(&mut handle);
                }
            }));
        }
        for t in tasks {
            t.await.unwrap();
        }
    });
    assert_eq!(get(&store, "n"), Message::Int(1000));
}

#[test]
fn incr_wraps_at_largest_int() {
    let mut store = Store::new();
    SetCmd { key: String::from("k"), value: Value::Int(i32::MAX).into_vec() }.perform(&mut store);
    let r = Incr { key: String::from("k") }.perform(&mut store);
    assert_eq!(r, Message::Int(i32::MIN));
}

#[test]
fn del_is_idempotent() {
    let mut store = Store::new();
    assert_eq!(Del { key: String::from("k") }.perform(&mut store), Message::Null);
    SetCmd { key: String::from("k"), value: Value::Int(1).into_vec() }.perform(&mut store);
    assert_eq!(Del { key: String::from("k") }.perform(&mut store), Message::Okay);
    assert_eq!(Del { key: String::from("k") }.perform(&mut store), Message::Null);
    assert_eq!(get(&store, "k"), Message::Null);
}

#[test]
fn reply_shaping_is_exact_per_outcome() {
    // each shaping function fixes the reply for each outcome of its store
    // operation
    assert_eq!(del_reply(true), Message::Okay);
    assert_eq!(del_reply(false), Message::Null);
    assert_eq!(lookup_reply(None), Message::Null);
    assert_eq!(lookup_reply(Some(Value::Int(7).into_vec())), Message::Int(7));
    assert_eq!(
        lookup_reply(Some(Value::String(String::from("x")).into_vec())),
        Message::Text(String::from("x"))
    );
    assert_eq!(
        lookup_reply(Some(vec![9u8])),
        Message::Failure(String::from("internal encoding error"))
    );
    assert_eq!(incr_result_reply(&Value::Int(3).into_vec()), Message::Int(3));
    assert_eq!(
        incr_result_reply(&Value::String(String::from("x")).into_vec()),
        Message::Failure(String::from("not a number"))
    );
}

#[test]
fn get_absent_is_null() {
    let store = Store::new();
    assert_eq!(get(&store, "nothing"), Message::Null);
}

#[test]
fn get_corrupt_bytes_reports_encoding_error() {
    let mut store = Store::new();
    // a write stores its blob verbatim, so undecodable bytes can land in the store
    SetCmd { key: String::from("k"), value: vec![9u8, 9] }.perform(&mut store);
    assert_eq!(
        get(&store, "k"),
        Message::Failure(String::from("internal encoding error"))
    );
}

#[test]
fn set_overwrites() {
    let mut store = Store::new();
    SetCmd { key: String::from("k"), value: Value::Int(1).into_vec() }.perform(&mut store);
    SetCmd { key: String::from("k"), value: Value::String(String::from("two")).into_vec() }
        .perform(&mut store);
    assert_eq!(get(&store, "k"), Message::Text(String::from("two")));
}

#[test]
fn execute_dispatches_each_command() {
    let mut store = Store::new();
    let set = Command::SetCmd(SetCmd { key: String::from("k"), value: Value::Int(2).into_vec() });
    assert_eq!(execute(set, &mut store), Message::Okay);
    assert_eq!(
        execute(Command::Incr(Incr { key: String::from("k") }), &mut store),
        Message::Int(3)
    );
    assert_eq!(
        execute(Command::Get(Get { key: String::from("k") }), &mut store),
        Message::Int(3)
    );
    assert_eq!(
        execute(Command::Del(Del { key: String::from("k") }), &mut store),
        Message::Okay
    );
}

#[test]
fn respond_to_ping_and_non_requests() {
    let mut store = Store::new();
    assert_eq!(respond_to(Message::Ping, &mut store), Some(Message::Okay));
    assert_eq!(respond_to(Message::Okay, &mut store), None);
    assert_eq!(respond_to(Message::Null, &mut store), None);
    assert_eq!(respond_to(Message::Int(1), &mut store), None);
    let cmd = Message::Command(Command::Incr(Incr { key: String::from("p") }));
    assert_eq!(respond_to(cmd, &mut store), Some(Message::Int(1)));
}

#[test]
fn error_reply_reports_recoverable_errors_only() {
    assert_eq!(error_reply(&attodb::Error::ConnectionReset), None);
    assert_eq!(
        error_reply(&attodb::Error::ParseMessage(attodb::message::Error::Incomplete)),
        Some(Message::Failure(String::from("failed to parse message")))
    );
    assert_eq!(
        error_reply(&attodb::Error::InvalidUtf8),
        Some(Message::Failure(String::from("invalid utf8")))
    );
    assert_eq!(
        error_reply(&attodb::Error::ParseCommand(
            attodb::command::Error::WrongArgumentCount
        )),
        Some(Message::Failure(String::from("failed to parse command")))
    );
}
