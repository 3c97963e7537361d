use textbuilder::render::decode;
use textbuilder::sink::after_write;
use textbuilder::{Appendable, NotAppendable, Sink, TextBuilderConfig, TextError};

#[test]
fn messages() {
    assert_eq!(TextError::IndexOutOfRange(7).message(), "index `7` is out of range");
    assert_eq!(TextError::IndexOutOfRange(0).message(), "index `0` is out of range");
    assert_eq!(
        TextError::IndexOutOfRange(18446744073709551615).message(),
        "index `18446744073709551615` is out of range"
    );
    assert_eq!(TextError::Formatting(std::fmt::Error).message(), "formatting failed");
    let err = std::str::from_utf8(&[0xFF]).unwrap_err();
    assert_eq!(TextError::Utf8Error(err).message(), "Utf8 Encoding Error");
}

#[test]
fn errors_from_std() {
    assert!(matches!(TextError::from(std::fmt::Error), TextError::Formatting(_)));
    let err = std::str::from_utf8(&[b'a', b'b', 0xC0]).unwrap_err();
    match TextError::from(err) {
        TextError::Utf8Error(inner) => assert_eq!(inner.valid_up_to(), 2),
        _ => panic!("a UTF-8 error stays one"),
    }
}

#[test]
fn errors_into_fmt_error() {
    assert_eq!(std::fmt::Error::from(TextError::IndexOutOfRange(1)), std::fmt::Error);
    assert_eq!(std::fmt::Error::from(TextError::Formatting(std::fmt::Error)), std::fmt::Error);
    let err = std::str::from_utf8(&[0xFF]).unwrap_err();
    assert_eq!(std::fmt::Error::from(TextError::Utf8Error(err)), std::fmt::Error);
}

#[test]
fn refused_write_becomes_a_formatting_error() {
    assert!(matches!(after_write(Ok(())), Ok(())));
    assert!(matches!(after_write(Err(std::fmt::Error)), Err(TextError::Formatting(_))));
}

#[test]
fn decode_accepts_utf8_only() {
    assert_eq!(decode(b"abc").unwrap(), "abc");
    assert_eq!(decode(&[0xE2, 0x86, 0x92]).unwrap(), "→");
    assert_eq!(decode(&[0xF0, 0x9F, 0x92, 0x99, b'!']).unwrap(), "💙!");
    assert_eq!(decode(&[]).unwrap(), "");
    assert!(matches!(decode(&[0x80]), Err(TextError::Utf8Error(_))));
    assert!(matches!(decode(&[0xC0, 0xAF]), Err(TextError::Utf8Error(_))));
    assert!(matches!(decode(&[0xF4, 0x90, 0x80, 0x80]), Err(TextError::Utf8Error(_))));
}

#[test]
fn string_is_a_sink() {
    let mut sink = String::from("a");
    sink.put_str("bc").unwrap();
    sink.put_char('d').unwrap();
    sink.put_char('→').unwrap();
    sink.put_str("").unwrap();
    assert_eq!(sink, "abcd→");
}

#[test]
fn values_write_themselves() {
    let mut sink = String::from("[");
    'a'.write_to(&mut sink).unwrap();
    "bc".write_to(&mut sink).unwrap();
    String::from("de").write_to(&mut sink).unwrap();
    NotAppendable.write_to(&mut sink).unwrap();
    '💙'.write_to(&mut sink).unwrap();
    assert_eq!(sink, "[abcde💙");

    assert_eq!('x'.to_text(), "x");
    assert_eq!("xy".to_text(), "xy");
    assert_eq!(String::from("xyz").to_text(), "xyz");
    assert_eq!(NotAppendable.to_text(), "");
}

#[test]
fn default_config() {
    let config = TextBuilderConfig::default();
    assert_eq!(config.newline, "\n");
    assert!(config.indents.is_empty());

    let config = TextBuilderConfig::new();
    assert_eq!(config.newline, "\n");
    assert!(config.indents.is_empty());
}

#[test]
fn config_writes_line_break_then_indents() {
    let mut config = TextBuilderConfig::new();
    config.set_newline("\r\n");
    config.push_indent("ab");
    config.push_indent('c');
    config.push_indent(String::from("de"));
    assert_eq!(config.indents, vec!["ab", "c", "de"]);

    let mut sink = String::from(">");
    config.write_line_start(&mut sink).unwrap();
    assert_eq!(sink, ">\r\nabcde");

    config.pop_indent();
    assert_eq!(config.indents, vec!["ab", "c"]);
    config.write_line_start(&mut sink).unwrap();
    assert_eq!(sink, ">\r\nabcde\r\nabc");

    config.pop_indent();
    config.pop_indent();
    config.pop_indent();
    assert!(config.indents.is_empty());
    assert_eq!(config.newline, "\r\n");
}
