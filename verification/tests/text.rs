//! Text and numbers, held against the standard library.

use std::num::IntErrorKind;

use cgroups_rs::fs::error::{Cause, Error, ErrorKind};
use cgroups_rs::fs::files::{read_keyed_u64, read_string_from, read_u64_from, FileData};
use cgroups_rs::fs::number::{parse_u64, push_decimal, push_signed_decimal, NumberError};
use cgroups_rs::fs::text::{space, split_words, trim};

fn file(content: &[u8]) -> FileData {
    FileData {
        bytes: content.to_vec(),
        failure: None,
    }
}

#[test]
fn white_space_is_that_of_unicode() {
    for u in 0..=0x10ffffu32 {
        if let Some(c) = char::from_u32(u) {
            assert_eq!(space(c), c.is_whitespace(), "{:x}", u);
        }
    }
}

#[test]
fn trimming_and_splitting() {
    for s in [
        "", " ", "a", " a", "a ", "  a b  ", "\ta\u{a0}\u{3000}b c\n", "\u{2003}", "é ü\u{85}x",
        "sev 50\nsev_es 100\n",
    ] {
        assert_eq!(trim(s), s.trim());
        let words: Vec<String> = s.split_whitespace().map(|w| w.to_string()).collect();
        assert_eq!(split_words(s), words);
    }
}

#[test]
fn numbers_are_read_as_the_standard_library_reads_them() {
    for s in [
        "", "0", "1", "+1", "+", "-", "-1", "++1", "1+", "007", "18446744073709551615",
        "+18446744073709551615", "18446744073709551616", "99999999999999999999999", "12a", "a12",
        "99999999999999999999x", "9999999999999999999x9", " 1", "1 ", "1_000", "٣", "0x10",
    ] {
        let expected = s.parse::<u64>().map_err(|e| match e.kind() {
            IntErrorKind::Empty => NumberError::Empty,
            IntErrorKind::InvalidDigit => NumberError::InvalidDigit,
            IntErrorKind::PosOverflow => NumberError::Overflow,
            other => panic!("{:?}", other),
        });
        assert_eq!(parse_u64(s), expected, "{}", s);
    }
}

#[test]
fn numbers_read_back() {
    for n in [0, 1, 9, 10, 99, 100, 12345, u64::MAX - 1, u64::MAX] {
        let mut s = String::new();
        push_decimal(&mut s, n);
        assert_eq!(s, n.to_string());
        assert_eq!(parse_u64(&s), Ok(n));
    }
    for n in [0, 7, -7, i32::MAX, i32::MIN] {
        let mut s = "fd ".to_string();
        push_signed_decimal(&mut s, n);
        assert_eq!(s, format!("fd {}", n));
    }
}

#[test]
fn files_of_one_value() {
    assert_eq!(read_string_from("f", &file("\n é\u{a0}x \n".as_bytes())).unwrap(), "é\u{a0}x");
    assert_eq!(read_u64_from("f", &file(b" 42\n")).unwrap(), 42);
    assert_eq!(
        read_u64_from("f", &file(b"max\n")).unwrap_err(),
        Error::with_cause(ErrorKind::ParseError, Cause::Number(NumberError::InvalidDigit))
    );
    let e = read_u64_from("f", &file(b"4\xff")).unwrap_err();
    assert_eq!(e.kind(), &ErrorKind::ReadFailed("f".to_string()));
    assert_eq!(e.cause(), Some(&Cause::InvalidUtf8));
    // The operating system's failure comes before the other.
    let both = FileData {
        bytes: vec![0xff],
        failure: Some("Input/output error".to_string()),
    };
    assert_eq!(
        read_string_from("f", &both).unwrap_err().cause(),
        Some(&Cause::Io("Input/output error".to_string()))
    );
}

#[test]
fn keyed_files() {
    let in_file = |content: &[u8], key: &str| read_keyed_u64(&file(content), key, "f");
    assert_eq!(in_file(b"", "a"), Ok(None));
    assert_eq!(in_file(b"\n\n", "a"), Ok(None));
    assert_eq!(in_file(b"a 1\nb 2\n", "b"), Ok(Some(2)));
    assert_eq!(in_file(b"b 2\na 1\n", "b"), Ok(Some(2)));
    assert_eq!(in_file(b"b 2", "b"), Ok(Some(2)));
    assert_eq!(in_file(b"a 1\n", "b"), Ok(None));
    assert_eq!(in_file(b"b 2\nb 3\n", "b"), Ok(Some(2)));
    // A value on the next line is not the key's.
    assert_eq!(in_file(b"b\n2\n", "b"), Ok(None));
    // What comes after the key's line is not looked at.
    assert_eq!(in_file(b"b 2\n\xff", "b"), Ok(Some(2)));
    assert_eq!(
        in_file(b"\xff\nb 2", "b"),
        Err(Error::with_cause(ErrorKind::ReadFailed("f".to_string()), Cause::InvalidUtf8))
    );
    assert_eq!(
        in_file(b"b x\nb 2\n", "b"),
        Err(Error::with_cause(ErrorKind::ParseError, Cause::Number(NumberError::InvalidDigit)))
    );
    let broken = |content: &[u8]| FileData {
        bytes: content.to_vec(),
        failure: Some("Input/output error".to_string()),
    };
    assert_eq!(read_keyed_u64(&broken(b"b 2\nc"), "b", "f"), Ok(Some(2)));
    assert_eq!(
        read_keyed_u64(&broken(b"b 2"), "b", "f"),
        Err(Error::with_cause(
            ErrorKind::ReadFailed("f".to_string()),
            Cause::Io("Input/output error".to_string())
        ))
    );
}
