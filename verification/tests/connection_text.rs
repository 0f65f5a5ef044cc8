use attodb::connection::{Command, Error};

fn parse(s: &str) -> Result<Command, Error> {
    Command::parse(&s.as_bytes().to_vec())
}

#[test]
fn text_get_parses_key() {
    assert_eq!(parse("get foo\n"), Ok(Command::Get(String::from("foo"))));
    assert_eq!(parse("get foo"), Ok(Command::Get(String::from("foo"))));
}

#[test]
fn text_set_parses_key_and_value() {
    assert_eq!(
        parse("set a b\n"),
        Ok(Command::SetCmd(String::from("a"), String::from("b")))
    );
    assert_eq!(
        parse("set a b"),
        Ok(Command::SetCmd(String::from("a"), String::from("b")))
    );
}

#[test]
fn text_command_word_is_case_insensitive() {
    assert_eq!(parse("GeT x\n"), Ok(Command::Get(String::from("x"))));
    assert_eq!(
        parse("SET k v\n"),
        Ok(Command::SetCmd(String::from("k"), String::from("v")))
    );
}

#[test]
fn text_trailing_line_feeds_trimmed() {
    assert_eq!(parse("get x\n\n"), Ok(Command::Get(String::from("x"))));
    // the write's key is taken as-is; only the last word is trimmed
    assert_eq!(
        parse("set k v\n\n"),
        Ok(Command::SetCmd(String::from("k"), String::from("v")))
    );
}

#[test]
fn text_missing_arguments_is_invalid_frame() {
    assert_eq!(parse("get"), Err(Error::InvalidFrame));
    assert_eq!(parse("set"), Err(Error::InvalidFrame));
    assert_eq!(parse("set a"), Err(Error::InvalidFrame));
}

#[test]
fn text_unknown_word_is_invalid_frame() {
    assert_eq!(parse("put a b"), Err(Error::InvalidFrame));
    assert_eq!(parse(""), Err(Error::InvalidFrame));
}

#[test]
fn text_invalid_utf8_rejected() {
    assert_eq!(
        Command::parse(&vec![0xFFu8, 0xFE, 32, 97]),
        Err(Error::InvalidUtf8)
    );
}

#[test]
fn text_extra_words_ignored() {
    // only the first three words matter to a write
    assert_eq!(
        parse("set a b c\n"),
        Ok(Command::SetCmd(String::from("a"), String::from("b")))
    );
}
