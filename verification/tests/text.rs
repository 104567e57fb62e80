use gguf_swiss::text::{
    copy_text, decimal_text, join_dotted, parse_number, parse_range, push_decimal,
    replace_placeholder,
};

#[test]
fn numbers_are_written_in_decimal() {
    for number in [0u64, 1, 9, 10, 11, 99, 100, 12345, u64::MAX] {
        assert_eq!(decimal_text(number), number.to_string());
    }
    let mut text = String::from("<unused ");
    push_decimal(&mut text, 42);
    assert_eq!(text, "<unused 42");
}

#[test]
fn placeholders_are_replaced() {
    assert_eq!(replace_placeholder("layer.$", "7"), "layer.7");
    assert_eq!(replace_placeholder("$.$.$", "12"), "12.12.12");
    assert_eq!(replace_placeholder("none", "12"), "none");
    assert_eq!(replace_placeholder("", "12"), "");
    assert_eq!(replace_placeholder("bl\u{f6}ck$", ""), "bl\u{f6}ck");
    for template in ["a$b", "$$", "x", "\u{4e2d}$\u{4e2d}"] {
        assert_eq!(replace_placeholder(template, "345"), template.replace('$', "345"));
    }
}

#[test]
fn texts_are_joined_and_copied() {
    assert_eq!(join_dotted("rwkv5", "block_count"), "rwkv5.block_count");
    assert_eq!(join_dotted("", ""), ".");
    assert_eq!(copy_text("h\u{e9}"), "h\u{e9}");
}

#[test]
fn numbers_are_read_as_std_reads_them() {
    let texts = [
        "0", "7", "007", "+7", "+", "", "-1", "1a", "a1", " 1", "18446744073709551615",
        "18446744073709551616", "99999999999999999999999", "++1", "1+", "\u{e9}12", "1\u{660}",
    ];
    for text in texts {
        assert_eq!(parse_number(text), text.parse::<u64>().ok(), "{:?}", text);
    }
    assert_eq!(parse_number("123"), Some(123));
}

#[test]
fn ranges_are_split_at_the_first_two_dots() {
    assert_eq!(parse_range("0..3"), Some((0, 3)));
    assert_eq!(parse_range("10..+12"), Some((10, 12)));
    assert_eq!(parse_range("5..2"), Some((5, 2)));
    assert_eq!(parse_range("0...3"), None);
    assert_eq!(parse_range("..3"), None);
    assert_eq!(parse_range("0.."), None);
    assert_eq!(parse_range(".."), None);
    assert_eq!(parse_range("."), None);
    assert_eq!(parse_range(""), None);
    assert_eq!(parse_range("a..b"), None);
    assert_eq!(parse_range("03"), None);
    assert_eq!(parse_range("0.3"), None);
    assert_eq!(parse_range("1..2..3"), None);
}
