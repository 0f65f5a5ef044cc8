use attodb::value;
use attodb::Value;

#[test]
fn value_int_encodes_tagged_big_endian() {
    let v = Value::Int(5);
    assert_eq!(v.into_vec(), vec![0u8, 0, 0, 0, 5]);
    let v = Value::Int(-1);
    assert_eq!(v.into_vec(), vec![0u8, 255, 255, 255, 255]);
    let v = Value::Int(i32::MIN);
    assert_eq!(v.into_vec(), vec![0u8, 128, 0, 0, 0]);
}

#[test]
fn value_string_encodes_tagged_utf8() {
    let v = Value::String(String::from("hé"));
    assert_eq!(v.into_vec(), vec![1u8, 104, 0xC3, 0xA9]);
}

#[test]
fn value_round_trip() {
    for v in [
        Value::Int(0),
        Value::Int(6),
        Value::Int(-42),
        Value::Int(i32::MAX),
        Value::Int(i32::MIN),
        Value::String(String::new()),
        Value::String(String::from("x")),
        Value::String(String::from("héllo wörld")),
    ] {
        let enc = v.into_vec();
        assert_eq!(Value::parse(&enc), Ok(v));
    }
}

#[test]
fn value_parse_empty_is_invalid() {
    assert_eq!(
        Value::parse(&vec![]),
        Err(attodb::Error::ParseValue(value::Error::InvalidValue))
    );
}

#[test]
fn value_parse_unknown_tag() {
    assert_eq!(
        Value::parse(&vec![7u8, 0, 0, 0, 0]),
        Err(attodb::Error::ParseValue(value::Error::UnknownValueTag(7)))
    );
}

#[test]
fn value_parse_truncated_int() {
    assert_eq!(
        Value::parse(&vec![0u8, 1, 2]),
        Err(attodb::Error::ParseValue(value::Error::TruncatedInt))
    );
}

#[test]
fn value_parse_invalid_utf8() {
    assert_eq!(
        Value::parse(&vec![1u8, 0xFF, 0xFE]),
        Err(attodb::Error::ParseValue(value::Error::InvalidUtf8))
    );
}

#[test]
fn value_int_ignores_trailing_bytes() {
    assert_eq!(Value::parse(&vec![0u8, 0, 0, 0, 9, 77]), Ok(Value::Int(9)));
}

#[test]
fn incr_step_increments_encoded_int() {
    let five = Value::Int(5).into_vec();
    assert_eq!(value::incr_step(&five), Value::Int(6).into_vec());
}

#[test]
fn incr_step_leaves_non_int_unchanged() {
    let s = Value::String(String::from("x")).into_vec();
    assert_eq!(value::incr_step(&s), s);
    let junk = vec![9u8, 9, 9];
    assert_eq!(value::incr_step(&junk), junk);
}

#[test]
fn initial_counter_is_encoded_one() {
    assert_eq!(value::initial_counter(), Value::Int(1).into_vec());
}
