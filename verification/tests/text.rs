use export_findmy::text::{
    chars_of, decimal_text, hex_text, is_white_space, parse_index, same_text, trim,
};

#[test]
fn white_space_is_that_of_the_standard_library() {
    for n in 0u32..=0x10ffff {
        if let Some(c) = char::from_u32(n) {
            assert_eq!(is_white_space(c), c.is_whitespace(), "U+{:04X}", n);
        }
    }
}

#[test]
fn trim_agrees_with_the_standard_library() {
    for text in [
        "",
        " ",
        "\n",
        "secret\n",
        "secret\r\n",
        "  two words \t",
        "\u{a0}\u{2003}wide\u{3000}",
        "\u{200b}zero width stays\u{200b}",
        "\u{85}next line\u{2028}",
        "\u{e9}t\u{e9} ",
    ] {
        assert_eq!(trim(text), text.trim());
    }
}

#[test]
fn trimming_twice_is_trimming_once() {
    let once = trim(" \t a b \n");
    assert_eq!(once, "a b");
    assert_eq!(trim(&once), once);
}

#[test]
fn chars_and_equality() {
    assert_eq!(chars_of("a\u{e9}\u{1f511}"), vec!['a', '\u{e9}', '\u{1f511}']);
    assert!(same_text("-h", "-h"));
    assert!(!same_text("-h", "-H"));
    assert!(!same_text("-h", "-hh"));
}

#[test]
fn decimal_numbers() {
    for n in [0, 1, 9, 10, 11, 99, 100, 1234567890, u64::MAX - 1, u64::MAX] {
        assert_eq!(decimal_text(n), n.to_string());
    }
}

#[test]
fn numbers_read_as_the_standard_library_reads_them() {
    for text in [
        "0", "7", "42", "+5", "+", "-", "-1", "-0", "", " 1", "1 ", "1_0", "0x1", "00012", "++1",
        "\u{663}", "18446744073709551615", "18446744073709551616", "99999999999999999999999999",
        "184467440737095516150", "9x",
    ] {
        assert_eq!(parse_index(text), text.parse::<usize>().ok(), "{}", text);
    }
}

#[test]
fn a_number_reads_back() {
    for n in [0usize, 1, 10, 4096, usize::MAX] {
        assert_eq!(parse_index(&decimal_text(n as u64)), Some(n));
    }
}

#[test]
fn hexadecimal_numbers() {
    for n in [0u128, 1, 0xf, 0x10, 0xdead_beef, u128::MAX, 1 << 127] {
        assert_eq!(hex_text(n, 32), format!("{:032X}", n));
        assert_eq!(u128::from_str_radix(&hex_text(n, 32), 16), Ok(n));
    }
    assert_eq!(hex_text(0xabc, 2), "BC");
    assert_eq!(hex_text(0xabc, 0), "");
}
