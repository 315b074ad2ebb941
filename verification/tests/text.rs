use dbsp::text::{
    cat2, cat3, cat4, cat5, cat7, parse_port, signed_text, trim, unsigned_text, NumberError, Text,
};

#[test]
fn numbers_are_shown_in_decimal() {
    assert_eq!("0", unsigned_text(0));
    assert_eq!("1234567890", unsigned_text(1234567890));
    assert_eq!("340282366920938463463374607431768211455", unsigned_text(u128::MAX));
    assert_eq!("-170141183460469231731687303715884105728", signed_text(i128::MIN));
    assert_eq!("-7", signed_text(-7));
    assert_eq!("42", 42i64.to_text());
    assert_eq!("-42", (-42i32).to_text());
    assert_eq!("-1", (-1isize).to_text());
    assert_eq!("8080", 8080u16.to_text());
    assert_eq!("18446744073709551615", u64::MAX.to_text());
    assert_eq!("abc", "abc".to_string().to_text());
}

#[test]
fn texts_are_joined() {
    assert_eq!("ab", cat2("a", "b"));
    assert_eq!("abc", cat3("a", "b", "c"));
    assert_eq!("abcd", cat4("a", "b", "c", "d"));
    assert_eq!("abcde", cat5("a", "b", "c", "d", "e"));
    assert_eq!("abcdefg", cat7("a", "b", "c", "d", "e", "f", "g"));
}

#[test]
fn white_space_is_trimmed_at_the_ends() {
    assert_eq!("8080", trim(" \t8080\r\n"));
    assert_eq!("a b", trim("\u{2003}a b\u{3000}"));
    assert_eq!("", trim(" \n "));
    assert_eq!("", trim(""));
    assert_eq!("x\u{200b}".trim(), trim("x\u{200b}"));
    for n in 0..0x3100u32 {
        if let Some(c) = char::from_u32(n) {
            let text = format!("{c}x{c}");
            assert_eq!(text.trim(), trim(&text));
        }
    }
}

#[test]
fn ports_are_parsed() {
    assert_eq!(Ok(0), parse_port("0"));
    assert_eq!(Ok(65535), parse_port("65535"));
    assert_eq!(Ok(80), parse_port("+0080"));
    assert_eq!(Err(NumberError::Empty), parse_port(""));
    assert_eq!(Err(NumberError::InvalidDigit), parse_port("-"));
    assert_eq!(Err(NumberError::InvalidDigit), parse_port("+"));
    assert_eq!(Err(NumberError::InvalidDigit), parse_port("-1"));
    assert_eq!(Err(NumberError::InvalidDigit), parse_port("80a"));
    assert_eq!(Err(NumberError::TooLarge), parse_port("65536"));
    assert_eq!(Err(NumberError::TooLarge), parse_port("99999x"));
    for text in ["", "+", "-", "-1", "80a", "65536", "99999x", "x99999", "++1", "1 ", "4294967296"] {
        let expected = text.parse::<u16>().unwrap_err().to_string();
        assert_eq!(expected, parse_port(text).unwrap_err().text());
    }
}
