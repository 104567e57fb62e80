use gguf_swiss::error::PackFault;
use gguf_swiss::json::find_member;
use gguf_swiss::safetensors::{
    collect_entries, find_entry, find_raw_entry, is_reserved, judge_entry, parse_entry,
    read_header, Lookup, RawEntry, StHeader, StTensorInfo,
};

fn source_file(header: &str, payload: &[u8]) -> Vec<u8> {
    let mut file = (header.len() as u64).to_le_bytes().to_vec();
    file.extend_from_slice(header.as_bytes());
    file.extend_from_slice(payload);
    file
}

fn info(data_type: &str, offsets: [u64; 2], shape: &[u64]) -> StTensorInfo {
    StTensorInfo {
        data_type: data_type.to_string(),
        data_offsets: offsets,
        data_shape: shape.to_vec(),
    }
}

#[test]
fn source_header_is_read() {
    let text = r#"{"w.b": {"dtype": "BF16", "shape": [2, 2], "data_offsets": [8, 16]},
        "__metadata__": {"format": "pt"},
        "w.a": {"dtype":"BF16","shape":[4],"data_offsets":[0,8], "extra": null}}"#;
    let file = source_file(text, &[0u8; 16]);
    let header = read_header(&file).unwrap();
    assert_eq!(header.data_start, 8 + text.len() as u64);
    assert_eq!(
        header.entries,
        vec![
            ("w.a".to_string(), info("BF16", [0, 8], &[4])),
            ("w.b".to_string(), info("BF16", [8, 16], &[2, 2])),
        ]
    );
    assert_eq!(find_entry(&header, "w.b"), Some(&info("BF16", [8, 16], &[2, 2])));
    assert_eq!(find_entry(&header, "w.c"), None);
    assert_eq!(find_entry(&header, "__metadata__"), None);
}

#[test]
fn empty_source_header_is_read() {
    let file = source_file("{}", &[]);
    assert_eq!(read_header(&file), Ok(StHeader { entries: vec![], data_start: 10 }));
}

fn header_fault(file: &[u8]) -> (PackFault, String) {
    let error = read_header(file).unwrap_err();
    assert_eq!(error.task, "");
    (error.fault, error.item)
}

#[test]
fn source_header_faults() {
    assert_eq!(header_fault(&[1, 0, 0]), (PackFault::TruncatedSource, String::new()));
    assert_eq!(
        header_fault(&[3, 0, 0, 0, 0, 0, 0, 0, b'{', b'}']),
        (PackFault::TruncatedSource, String::new())
    );
    assert_eq!(
        header_fault(&[0xff, 0xff, 0xff, 0xff, 0xff, 0xff, 0xff, 0xff, b'{', b'}']),
        (PackFault::TruncatedSource, String::new())
    );
    assert_eq!(
        header_fault(&[2, 0, 0, 0, 0, 0, 0, 0, 0xc3, 0x28]),
        (PackFault::SourceNotText, String::new())
    );
    assert_eq!(header_fault(&source_file("[]", &[])), (PackFault::SourceNotJson, String::new()));
    assert_eq!(header_fault(&source_file("{", &[])), (PackFault::SourceNotJson, String::new()));
    assert_eq!(
        header_fault(&source_file("{} x", &[])),
        (PackFault::SourceNotJson, String::new())
    );
    let entry = |body: &str| source_file(&format!("{{\"t\": {}}}", body), &[]);
    assert_eq!(
        header_fault(&entry(r#"{"shape": [1], "data_offsets": [0, 2]}"#)),
        (PackFault::SourceMissingKey, "t".to_string())
    );
    assert_eq!(header_fault(&entry("7")), (PackFault::SourceMissingKey, "t".to_string()));
    assert_eq!(
        header_fault(&entry(r#"{"dtype": 16, "shape": [1], "data_offsets": [0, 2]}"#)),
        (PackFault::SourceMistyped, "t".to_string())
    );
    assert_eq!(
        header_fault(&entry(r#"{"dtype": "BF16", "shape": [1]}"#)),
        (PackFault::SourceMissingKey, "t".to_string())
    );
    assert_eq!(
        header_fault(&entry(r#"{"dtype": "BF16", "shape": [1], "data_offsets": {"a": 0}}"#)),
        (PackFault::SourceMistyped, "t".to_string())
    );
    assert_eq!(
        header_fault(&entry(r#"{"dtype": "BF16", "shape": [1], "data_offsets": [0]}"#)),
        (PackFault::SourceMistyped, "t".to_string())
    );
    assert_eq!(
        header_fault(&entry(r#"{"dtype": "BF16", "shape": [1], "data_offsets": [0, -2]}"#)),
        (PackFault::SourceMistyped, "t".to_string())
    );
    assert_eq!(
        header_fault(&entry(r#"{"dtype": "BF16", "shape": [1], "data_offsets": [0, 2.5]}"#)),
        (PackFault::SourceMistyped, "t".to_string())
    );
    assert_eq!(
        header_fault(&entry(r#"{"dtype": "BF16", "data_offsets": [0, 2]}"#)),
        (PackFault::SourceMissingKey, "t".to_string())
    );
    assert_eq!(
        header_fault(&entry(r#"{"dtype": "BF16", "shape": [1, "2"], "data_offsets": [0, 2]}"#)),
        (PackFault::SourceMistyped, "t".to_string())
    );
    assert_eq!(
        header_fault(&entry(r#"{"dtype": "BF16", "shape": 1, "data_offsets": [0, 2]}"#)),
        (PackFault::SourceMistyped, "t".to_string())
    );
}

#[test]
fn entries_are_parsed_one_by_one() {
    assert_eq!(
        parse_entry(
            "t".to_string(),
            r#"{"dtype": "F3\"2", "shape": [], "data_offsets": [18446744073709551615, 0, "x"]}"#
        ),
        Ok(("t".to_string(), info("F3\"2", [u64::MAX, 0], &[])))
    );
    let error = parse_entry("name".to_string(), "[]").unwrap_err();
    assert_eq!((error.fault, error.item.as_str()), (PackFault::SourceMissingKey, "name"));
}

#[test]
fn reserved_names_start_with_two_underscores() {
    assert!(is_reserved("__metadata__"));
    assert!(is_reserved("__"));
    assert!(!is_reserved("_"));
    assert!(!is_reserved(""));
    assert!(!is_reserved("_a_"));
    assert!(!is_reserved("a__"));
}

#[test]
fn members_are_found_by_key() {
    let members = vec![
        ("a".to_string(), "1".to_string()),
        ("b".to_string(), "2".to_string()),
        ("a".to_string(), "3".to_string()),
    ];
    assert_eq!(find_member(&members, "a"), Some(&"1".to_string()));
    assert_eq!(find_member(&members, "b"), Some(&"2".to_string()));
    assert_eq!(find_member(&members, "c"), None);
}

fn raw(dtype: Lookup<&str>, offsets: Lookup<Vec<Option<u64>>>, shape: Lookup<Vec<u64>>) -> RawEntry {
    RawEntry {
        dtype: match dtype {
            Lookup::Missing => Lookup::Missing,
            Lookup::Mistyped => Lookup::Mistyped,
            Lookup::Found(text) => Lookup::Found(text.to_string()),
        },
        data_offsets: offsets,
        shape,
    }
}

fn good_raw() -> RawEntry {
    raw(Lookup::Found("BF16"), Lookup::Found(vec![Some(4), Some(12)]), Lookup::Found(vec![2, 2]))
}

#[test]
fn entries_are_looked_up_in_their_text() {
    assert_eq!(
        find_raw_entry(r#"{"dtype": "BF16", "shape": [2, 2], "data_offsets": [4, 12, 99]}"#),
        good_raw()
    );
    assert_eq!(
        find_raw_entry(r#"{"dtype": 1, "shape": [2, -2], "data_offsets": [4.5]}"#),
        raw(Lookup::Mistyped, Lookup::Found(vec![None]), Lookup::Mistyped)
    );
    assert_eq!(
        find_raw_entry(r#"{"data_offsets": []}"#),
        raw(Lookup::Missing, Lookup::Found(vec![]), Lookup::Missing)
    );
    assert_eq!(
        find_raw_entry(r#"{"data_offsets": "x", "shape": []}"#),
        raw(Lookup::Missing, Lookup::Mistyped, Lookup::Found(vec![]))
    );
    assert_eq!(find_raw_entry("[1, 2]"), raw(Lookup::Missing, Lookup::Missing, Lookup::Missing));
    assert_eq!(find_raw_entry("{"), raw(Lookup::Missing, Lookup::Missing, Lookup::Missing));
}

#[test]
fn entries_are_judged_field_by_field() {
    assert_eq!(
        judge_entry("t".to_string(), good_raw()),
        Ok(("t".to_string(), info("BF16", [4, 12], &[2, 2])))
    );
    let fault = |entry: RawEntry| {
        let error = judge_entry("t".to_string(), entry).unwrap_err();
        assert_eq!((error.task.as_str(), error.item.as_str()), ("", "t"));
        error.fault
    };
    let mut entry = good_raw();
    entry.dtype = Lookup::Missing;
    entry.shape = Lookup::Mistyped;
    assert_eq!(fault(entry), PackFault::SourceMissingKey);
    let mut entry = good_raw();
    entry.dtype = Lookup::Mistyped;
    entry.data_offsets = Lookup::Missing;
    assert_eq!(fault(entry), PackFault::SourceMistyped);
    let mut entry = good_raw();
    entry.data_offsets = Lookup::Missing;
    entry.shape = Lookup::Mistyped;
    assert_eq!(fault(entry), PackFault::SourceMissingKey);
    for offsets in [
        Lookup::Mistyped,
        Lookup::Found(vec![]),
        Lookup::Found(vec![Some(1)]),
        Lookup::Found(vec![None, Some(1)]),
        Lookup::Found(vec![Some(1), None]),
    ] {
        let mut entry = good_raw();
        entry.data_offsets = offsets;
        entry.shape = Lookup::Missing;
        assert_eq!(fault(entry), PackFault::SourceMistyped);
    }
    let mut entry = good_raw();
    entry.shape = Lookup::Missing;
    assert_eq!(fault(entry), PackFault::SourceMissingKey);
    let mut entry = good_raw();
    entry.shape = Lookup::Mistyped;
    assert_eq!(fault(entry), PackFault::SourceMistyped);
}

#[test]
fn reserved_entries_are_left_out() {
    let broken = raw(Lookup::Missing, Lookup::Missing, Lookup::Missing);
    assert_eq!(
        collect_entries(vec![
            ("__metadata__".to_string(), broken.clone()),
            ("a".to_string(), good_raw()),
            ("__".to_string(), good_raw()),
            ("b".to_string(), good_raw()),
        ]),
        Ok(vec![
            ("a".to_string(), info("BF16", [4, 12], &[2, 2])),
            ("b".to_string(), info("BF16", [4, 12], &[2, 2])),
        ])
    );
    let error = collect_entries(vec![
        ("a".to_string(), good_raw()),
        ("_b".to_string(), broken.clone()),
        ("c".to_string(), raw(Lookup::Mistyped, Lookup::Missing, Lookup::Missing)),
    ])
    .unwrap_err();
    assert_eq!((error.fault, error.item.as_str()), (PackFault::SourceMissingKey, "_b"));
    assert_eq!(collect_entries(vec![]), Ok(vec![]));
}
