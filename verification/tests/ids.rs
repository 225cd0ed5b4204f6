use cross_device_link::ids::{parse_id, IdError};
use cross_device_link::text::{chars_of, decimal_text};

#[test]
fn ids_as_printed() {
    assert_eq!(parse_id(b"0\n".to_vec()), Ok(0));
    assert_eq!(parse_id(b"1000\n".to_vec()), Ok(1000));
    assert_eq!(parse_id(b" \t1000 \r\n".to_vec()), Ok(1000));
    assert_eq!(parse_id(b"+7".to_vec()), Ok(7));
    assert_eq!(parse_id(b"4294967295\n".to_vec()), Ok(u32::MAX));
}

#[test]
fn outputs_without_an_id() {
    assert_eq!(parse_id(vec![0xff, b'1']), Err(IdError::NotUtf8));
    assert_eq!(parse_id(b" \n".to_vec()), Err(IdError::Empty));
    assert_eq!(parse_id(b"12a\n".to_vec()), Err(IdError::InvalidDigit));
    assert_eq!(parse_id(b"-1\n".to_vec()), Err(IdError::InvalidDigit));
    assert_eq!(parse_id(b"+\n".to_vec()), Err(IdError::InvalidDigit));
    assert_eq!(parse_id(b"1 2\n".to_vec()), Err(IdError::InvalidDigit));
    assert_eq!(parse_id(b"4294967296\n".to_vec()), Err(IdError::TooLarge));
    assert_eq!(parse_id(b"99999999999x".to_vec()), Err(IdError::TooLarge));
}

#[test]
fn ids_are_read_as_numbers_are() {
    let samples = [
        "", "0", "00", "+0", "-0", "+", "-", "++1", "1+", "007", "4294967295", "4294967296",
        "42949672950", "x", "1x", "99999999999x", "\u{a0}12\u{3000}", "\u{2009}5", "\u{200b}5",
        "\u{85}8\u{2028}", "\u{180e}9", "\u{1680}3", "\u{feff}1", "\u{661}", "1_000", "1\u{b}",
        "\u{c}2\u{1f}",
    ];
    for s in samples {
        let std = s.trim().parse::<u32>();
        let ours = parse_id(s.as_bytes().to_vec());
        match std {
            Ok(n) => assert_eq!(ours, Ok(n), "{s:?}"),
            Err(e) => {
                let kind = match e.kind() {
                    std::num::IntErrorKind::Empty => IdError::Empty,
                    std::num::IntErrorKind::InvalidDigit => IdError::InvalidDigit,
                    std::num::IntErrorKind::PosOverflow => IdError::TooLarge,
                    k => panic!("{k:?}"),
                };
                assert_eq!(ours, Err(kind), "{s:?}");
            }
        }
    }
}

#[test]
fn every_white_space_is_trimmed() {
    for n in 0..=0x10ffff_u32 {
        if let Some(c) = char::from_u32(n) {
            let text = format!("{c}1{c}");
            let trimmed = parse_id(text.as_bytes().to_vec()) == Ok(1);
            assert_eq!(trimmed, c.is_whitespace(), "{n:x}");
        }
    }
}

#[test]
fn a_printed_id_is_read() {
    for n in [0, 9, 10, 99, 100, 1000, 65534, 4294967295] {
        let mut output = decimal_text(n).into_bytes();
        assert_eq!(parse_id(output.clone()), Ok(n));
        output.push(b'\n');
        assert_eq!(parse_id(output), Ok(n));
    }
}

#[test]
fn decimal_is_as_displayed() {
    for n in [0, 1, 9, 10, 11, 909, 1000, 123456789, u32::MAX] {
        assert_eq!(decimal_text(n), n.to_string());
    }
}

#[test]
fn characters_in_order() {
    assert_eq!(chars_of("a\u{e4}\u{1f600}"), vec!['a', '\u{e4}', '\u{1f600}']);
    assert_eq!(chars_of(""), Vec::<char>::new());
}
