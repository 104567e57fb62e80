use gguf_swiss::vocab::{
    llamacpp_byte_workaround, parse_vocab, parse_vocab_line, split_lines, unescape, VocabError,
    VocabFault,
};

#[test]
fn hex_escapes_give_raw_bytes() {
    assert_eq!(parse_vocab_line(br"b'\x41\x42'"), Ok(vec![0x41, 0x42]));
    assert_eq!(parse_vocab(r"b'\x41\x42'"), Ok(vec![vec![0x41, 0x42]]));
}

#[test]
fn unknown_escape_is_refused() {
    assert_eq!(parse_vocab_line(br"b'\q'"), Err(VocabFault::UnknownEscape));
    assert_eq!(
        parse_vocab(r"b'\q'"),
        Err(VocabError { line: 0, fault: VocabFault::UnknownEscape })
    );
}

#[test]
fn empty_token_is_refused() {
    assert_eq!(parse_vocab_line(b"b''"), Ok(vec![]));
    assert_eq!(parse_vocab("b''"), Err(VocabError { line: 0, fault: VocabFault::EmptyToken }));
}

#[test]
fn every_escape_is_resolved() {
    assert_eq!(
        unescape(br#"a\\b\'c\"d\te\rf\ng\x00\xfF"#),
        Ok(b"a\\b'c\"d\te\rf\ng\x00\xff".to_vec())
    );
}

#[test]
fn escapes_need_two_hex_digits() {
    assert_eq!(unescape(br"\x4g"), Err(VocabFault::UnknownEscape));
    assert_eq!(unescape(br"\xg4"), Err(VocabFault::UnknownEscape));
    assert_eq!(unescape(br"\x+f"), Err(VocabFault::UnknownEscape));
    assert_eq!(unescape(br"\X41"), Err(VocabFault::UnknownEscape));
}

#[test]
fn an_escape_cut_short_stands_for_nothing() {
    assert_eq!(unescape(b"ab\\"), Ok(b"ab".to_vec()));
    assert_eq!(unescape(br"ab\x"), Ok(b"ab".to_vec()));
    assert_eq!(unescape(br"ab\x4"), Ok(b"ab".to_vec()));
    assert_eq!(unescape(br"ab\xz"), Ok(b"ab".to_vec()));
}

#[test]
fn other_bytes_pass_through() {
    assert_eq!(unescape("h\u{e9}llo \u{4e2d}".as_bytes()), Ok("h\u{e9}llo \u{4e2d}".as_bytes().to_vec()));
    assert_eq!(unescape(&[0xff, 0x80, b'a']), Ok(vec![0xff, 0x80, b'a']));
}

#[test]
fn lines_need_their_quotes() {
    assert_eq!(parse_vocab_line(b"b\"ab\""), Ok(b"ab".to_vec()));
    assert_eq!(parse_vocab_line(b"b'ab\""), Ok(b"ab".to_vec()));
    assert_eq!(parse_vocab_line(b"'ab'"), Err(VocabFault::InvalidFormat));
    assert_eq!(parse_vocab_line(b"b'ab"), Err(VocabFault::InvalidFormat));
    assert_eq!(parse_vocab_line(b"bab'"), Err(VocabFault::InvalidFormat));
    assert_eq!(parse_vocab_line(b"b'"), Err(VocabFault::InvalidFormat));
    assert_eq!(parse_vocab_line(b""), Err(VocabFault::InvalidFormat));
    assert_eq!(parse_vocab_line(b" b'a'"), Err(VocabFault::InvalidFormat));
}

#[test]
fn text_is_split_as_std_splits_lines() {
    let texts = [
        "",
        "a",
        "a\n",
        "a\nb",
        "a\r\nb\r\n",
        "a\rb\n",
        "\n\n",
        "a\r",
        "\r\n\r",
        "a\n\rb",
        "x\r\r\ny",
    ];
    for text in texts {
        let expected: Vec<Vec<u8>> = text.lines().map(|line| line.as_bytes().to_vec()).collect();
        assert_eq!(split_lines(text.as_bytes()), expected, "{:?}", text);
    }
}

#[test]
fn single_bytes_that_are_no_text_are_spelled_out() {
    let mut token = vec![0u8];
    llamacpp_byte_workaround(&mut token);
    assert_eq!(token, b"\\x00");
    let mut token = vec![0x80u8];
    llamacpp_byte_workaround(&mut token);
    assert_eq!(token, b"\\x80");
    let mut token = vec![0xabu8];
    llamacpp_byte_workaround(&mut token);
    assert_eq!(token, b"\\xab");
    let mut token = vec![0xffu8];
    llamacpp_byte_workaround(&mut token);
    assert_eq!(token, b"\\xff");
    for value in 0..=255u8 {
        let mut token = vec![value];
        llamacpp_byte_workaround(&mut token);
        if value == 0 || value >= 0x80 {
            assert_eq!(token, format!("\\x{:02x}", value).into_bytes());
        } else {
            assert_eq!(token, vec![value]);
        }
    }
    let mut token = vec![0xffu8, 0xfe];
    llamacpp_byte_workaround(&mut token);
    assert_eq!(token, vec![0xff, 0xfe]);
    let mut token = Vec::new();
    llamacpp_byte_workaround(&mut token);
    assert!(token.is_empty());
}

#[test]
fn vocabulary_is_read_line_by_line() {
    let text = "b'a'\nb\"\\xe4\\xb8\"\r\nb'\\xff'\nb'\\t'";
    assert_eq!(
        parse_vocab(text),
        Ok(vec![b"a".to_vec(), vec![0xe4, 0xb8], vec![0xff], b"\t".to_vec()])
    );
    assert_eq!(parse_vocab(""), Ok(vec![]));
}

#[test]
fn faulty_lines_are_reported_by_number() {
    assert_eq!(
        parse_vocab("b'a'\nb'b'\nb'\\z'\nb''"),
        Err(VocabError { line: 2, fault: VocabFault::UnknownEscape })
    );
    assert_eq!(
        parse_vocab("b'a'\n\nb'b'"),
        Err(VocabError { line: 1, fault: VocabFault::InvalidFormat })
    );
    assert_eq!(
        parse_vocab("b'a'\nb''\nb'\\z'"),
        Err(VocabError { line: 1, fault: VocabFault::EmptyToken })
    );
}
