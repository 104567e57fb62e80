use gguf_swiss::config::{
    get, get_extent_list, get_float, get_number, get_table, get_text, ConfigValue,
};
use gguf_swiss::dimensions::TensorDimensions;
use gguf_swiss::error::{PackError, PackFault};
use gguf_swiss::header::{TensorInfo, TensorType};
use gguf_swiss::metadata::{MetadataArray, MetadataValue};
use gguf_swiss::numeric::ConvertTensorInfo;
use gguf_swiss::pack::{apply_header_tensors, convert, convert_from_manifest, write_header, ConvertInfo};
use gguf_swiss::Header;
use gguf_swiss::read::read_header;
use gguf_swiss::tasks::add_model_card::AddModelCardTask;
use gguf_swiss::tasks::add_model_config::AddModelConfigTask;
use gguf_swiss::tasks::context::ProcessContext;
use gguf_swiss::tasks::convert_rwkv_tokenizer::ConvertRwkvTokenizerTask;
use gguf_swiss::tasks::convert_safetensors::{
    expand_tensors, read_tensor_manifest, ConvertSafetensorsTask, ExpandedTensor, TensorManifest,
};
use gguf_swiss::tasks::{find_source, load, load_task, process, write_tensors, PackTask, SourceFile};
use gguf_swiss::ByteReader;

type Table = Vec<(String, ConfigValue)>;

fn text(value: &str) -> ConfigValue {
    ConfigValue::String(value.to_string())
}

fn table(entries: Vec<(&str, ConfigValue)>) -> Table {
    entries.into_iter().map(|(key, value)| (key.to_string(), value)).collect()
}

fn extents(values: &[i64]) -> ConfigValue {
    ConfigValue::Array(values.iter().map(|value| ConfigValue::Integer(*value)).collect())
}

fn tensor(source: &str, ty: &str, dimensions: &[i64]) -> ConfigValue {
    ConfigValue::Table(table(vec![
        ("source", text(source)),
        ("type", text(ty)),
        ("dimensions", extents(dimensions)),
    ]))
}

fn narrow(bits: u32) -> u16 {
    half::f16::from_f32(f32::from_bits(bits)).to_bits()
}

fn fault_of<T: std::fmt::Debug>(result: Result<T, PackError>) -> (PackFault, String, String) {
    let error = result.unwrap_err();
    (error.fault, error.task, error.item)
}

fn card_table() -> Table {
    table(vec![
        ("task", text("add-model-card")),
        ("name", text("Model")),
        ("author", text("Someone")),
        ("description", text("A model")),
        ("license", text("MIT")),
        ("architecture", text("rwkv5")),
    ])
}

fn string_entry(key: &str, value: &str) -> (String, MetadataValue) {
    (key.to_string(), MetadataValue::String(value.as_bytes().to_vec()))
}

#[test]
fn tables_are_looked_up_by_kind() {
    let values = table(vec![
        ("text", text("abc")),
        ("number", ConfigValue::Integer(7)),
        ("negative", ConfigValue::Integer(-7)),
        ("fraction", ConfigValue::Float(0.5f32.to_bits())),
        ("flag", ConfigValue::Boolean(true)),
        ("inner", ConfigValue::Table(table(vec![("x", text("y"))]))),
        ("list", extents(&[1, 2, 3])),
        ("mixed", ConfigValue::Array(vec![ConfigValue::Integer(1), text("2")])),
        ("text", text("shadowed")),
    ]);
    assert_eq!(get(&values, "text"), Some(&text("abc")));
    assert_eq!(get(&values, "absent"), None);
    assert_eq!(get_text(&values, "text"), Ok("abc".to_string()));
    assert_eq!(get_number(&values, "number", 7), Ok(7));
    assert_eq!(get_float(&values, "fraction"), Ok(0.5f32.to_bits()));
    assert_eq!(get_table(&values, "inner"), Ok(&table(vec![("x", text("y"))])));
    assert_eq!(get_extent_list(&values, "list"), Ok(vec![1, 2, 3]));
    let missing = (PackFault::MissingField, String::new(), "absent".to_string());
    assert_eq!(fault_of(get_text(&values, "absent")), missing);
    assert_eq!(fault_of(get_number(&values, "absent", 7)), missing);
    assert_eq!(fault_of(get_float(&values, "absent")), missing);
    assert_eq!(fault_of(get_table(&values, "absent")), missing);
    assert_eq!(fault_of(get_extent_list(&values, "absent")), missing);
    let mistyped = |key: &str| (PackFault::MistypedField, String::new(), key.to_string());
    assert_eq!(fault_of(get_text(&values, "number")), mistyped("number"));
    assert_eq!(fault_of(get_number(&values, "number", 6)), mistyped("number"));
    assert_eq!(fault_of(get_number(&values, "negative", 7)), mistyped("negative"));
    assert_eq!(fault_of(get_number(&values, "text", 7)), mistyped("text"));
    assert_eq!(fault_of(get_float(&values, "number")), mistyped("number"));
    assert_eq!(fault_of(get_table(&values, "list")), mistyped("list"));
    assert_eq!(fault_of(get_extent_list(&values, "mixed")), mistyped("mixed"));
    assert_eq!(fault_of(get_extent_list(&values, "inner")), mistyped("inner"));
}

#[test]
fn model_card_adds_its_entries() {
    let task = AddModelCardTask::new(&card_table()).unwrap();
    let mut ctx = ProcessContext::new();
    ctx.push_metadata_u64("before", 1);
    task.process(&mut ctx);
    assert_eq!(
        ctx.metadata,
        vec![
            ("before".to_string(), MetadataValue::UInt64(1)),
            string_entry("general.name", "Model"),
            string_entry("general.author", "Someone"),
            string_entry("general.description", "A model"),
            string_entry("general.license", "MIT"),
            string_entry("general.architecture", "rwkv5"),
        ]
    );
    assert!(ctx.tensors.is_empty());
    assert_eq!(ctx.next_offset, 0);
}

#[test]
fn model_card_needs_every_field() {
    for missing in ["name", "author", "description", "license", "architecture"] {
        let mut values = card_table();
        values.retain(|(key, _)| key != missing);
        assert_eq!(
            fault_of(AddModelCardTask::new(&values)),
            (PackFault::MissingField, String::new(), missing.to_string())
        );
        values.push((missing.to_string(), ConfigValue::Integer(1)));
        assert_eq!(
            fault_of(AddModelCardTask::new(&values)),
            (PackFault::MistypedField, String::new(), missing.to_string())
        );
    }
}

fn config_table() -> Table {
    table(vec![
        ("task", text("add-model-config")),
        ("architecture", text("rwkv5")),
        ("context_length", ConfigValue::Integer(4096)),
        ("embedding_length", ConfigValue::Integer(2048)),
        ("block_count", ConfigValue::Integer(24)),
        ("feed_forward_length", ConfigValue::Integer(7168)),
        ("attention_head_count", ConfigValue::Integer(32)),
        ("layer_norm_epsilon", ConfigValue::Float(1e-5f32.to_bits())),
    ])
}

#[test]
fn model_config_adds_its_entries() {
    let task = AddModelConfigTask::new(&config_table()).unwrap();
    let mut ctx = ProcessContext::new();
    task.process(&mut ctx);
    let number = |key: &str, value: u32| (key.to_string(), MetadataValue::UInt32(value));
    assert_eq!(
        ctx.metadata,
        vec![
            string_entry("general.architecture", "rwkv5"),
            number("rwkv5.context_length", 4096),
            number("rwkv5.embedding_length", 2048),
            number("rwkv5.block_count", 24),
            number("rwkv5.feed_forward_length", 7168),
            number("rwkv5.attention.head_count", 32),
            (
                "rwkv5.attention.layer_norm_epsilon".to_string(),
                MetadataValue::Float32(1e-5f32.to_bits())
            ),
            number("rwkv5.ssm.state_size", 1),
            number("rwkv5.ssm.inner_size", 1),
        ]
    );
}

#[test]
fn model_config_checks_its_numbers() {
    let mut values = config_table();
    values[2].1 = ConfigValue::Integer(u32::MAX as i64);
    assert_eq!(AddModelConfigTask::new(&values).unwrap().manifest.context_length, u32::MAX);
    values[2].1 = ConfigValue::Integer(u32::MAX as i64 + 1);
    assert_eq!(
        fault_of(AddModelConfigTask::new(&values)),
        (PackFault::MistypedField, String::new(), "context_length".to_string())
    );
    values[2].1 = ConfigValue::Integer(-1);
    assert_eq!(
        fault_of(AddModelConfigTask::new(&values)),
        (PackFault::MistypedField, String::new(), "context_length".to_string())
    );
    let mut values = config_table();
    values[7].1 = ConfigValue::Integer(1);
    assert_eq!(
        fault_of(AddModelConfigTask::new(&values)),
        (PackFault::MistypedField, String::new(), "layer_norm_epsilon".to_string())
    );
    values.pop();
    assert_eq!(
        fault_of(AddModelConfigTask::new(&values)),
        (PackFault::MissingField, String::new(), "layer_norm_epsilon".to_string())
    );
}

fn tokenizer(token_count: i64) -> ConvertRwkvTokenizerTask {
    ConvertRwkvTokenizerTask::new(&table(vec![
        ("task", text("convert-rwkv-tokenizer")),
        ("source", text("vocab.txt")),
        ("token_count", ConfigValue::Integer(token_count)),
    ]))
    .unwrap()
}

#[test]
fn tokenizer_fills_the_vocabulary_up() {
    let task = tokenizer(5);
    assert_eq!(task.manifest.source, "vocab.txt");
    let mut ctx = ProcessContext::new();
    assert_eq!(task.process(&mut ctx, b"b'<s>'\nb'a'\nb'\\xe4\\xb8'\n"), Ok(()));
    assert_eq!(
        ctx.metadata,
        vec![
            string_entry("tokenizer.ggml.model", "rwkv"),
            (
                "tokenizer.ggml.tokens".to_string(),
                MetadataValue::Array(MetadataArray::String(vec![
                    b"<s>".to_vec(),
                    b"a".to_vec(),
                    vec![0xe4, 0xb8],
                    b"<unused 0>".to_vec(),
                    b"<unused 1>".to_vec(),
                ]))
            ),
            (
                "tokenizer.ggml.token_type".to_string(),
                MetadataValue::Array(MetadataArray::UInt32(vec![3, 1, 1, 5, 5]))
            ),
        ]
    );
}

#[test]
fn tokenizer_takes_a_full_vocabulary() {
    let mut ctx = ProcessContext::new();
    assert_eq!(tokenizer(2).process(&mut ctx, b"b'a'\nb'b'"), Ok(()));
    assert_eq!(
        ctx.metadata[1].1,
        MetadataValue::Array(MetadataArray::String(vec![b"a".to_vec(), b"b".to_vec()]))
    );
    assert_eq!(ctx.metadata[2].1, MetadataValue::Array(MetadataArray::UInt32(vec![3, 1])));
}

#[test]
fn tokenizer_faults() {
    let run = |token_count: i64, vocab: &[u8]| {
        let mut ctx = ProcessContext::new();
        let fault = fault_of(tokenizer(token_count).process(&mut ctx, vocab));
        assert!(ctx.metadata.is_empty());
        fault
    };
    assert_eq!(
        run(1, b"b'a'\nb'b'"),
        (PackFault::TokenCountMismatch, String::new(), String::new())
    );
    assert_eq!(run(5, b""), (PackFault::EmptyVocabulary, String::new(), String::new()));
    assert_eq!(run(5, b"b'\xff'"), (PackFault::VocabNotText, String::new(), String::new()));
    assert_eq!(
        run(5, b"b'a'\nb'\\q'"),
        (PackFault::UnknownEscape, String::new(), "1".to_string())
    );
    assert_eq!(run(5, b"b''"), (PackFault::EmptyToken, String::new(), "0".to_string()));
    assert_eq!(
        run(5, b"b'a'\nb'b'\nc"),
        (PackFault::InvalidVocabLine, String::new(), "2".to_string())
    );
    let no_count = table(vec![("source", text("vocab.txt"))]);
    assert_eq!(
        fault_of(ConvertRwkvTokenizerTask::new(&no_count)),
        (PackFault::MissingField, String::new(), "token_count".to_string())
    );
}

fn expanded(name: &str, source: &str, template_source: &str, ty: &str, dims: &[u64]) -> ExpandedTensor {
    ExpandedTensor {
        name: name.to_string(),
        source: source.to_string(),
        manifest: TensorManifest {
            source: template_source.to_string(),
            ty: ty.to_string(),
            dimensions: dims.to_vec(),
        },
    }
}

#[test]
fn range_groups_are_expanded() {
    let tensors = table(vec![
        ("head", tensor("head.weight", "F32", &[8, 2])),
        (
            "$0..3",
            ConfigValue::Table(table(vec![
                ("layer.$", tensor("blocks.$.weight", "F16", &[4])),
                ("bias.$.$", tensor("bias", "F16", &[2])),
            ])),
        ),
        ("$7..7", ConfigValue::Table(table(vec![("none.$", tensor("n", "F16", &[1]))]))),
        ("$9..2", ConfigValue::Table(table(vec![("none.$", tensor("n", "F16", &[1]))]))),
        ("$10..12", ConfigValue::Table(table(vec![("x$", tensor("y$", "F16", &[1]))]))),
    ]);
    assert_eq!(
        expand_tensors(&tensors),
        Ok(vec![
            expanded("head", "head.weight", "head.weight", "F32", &[8, 2]),
            expanded("layer.0", "blocks.0.weight", "blocks.$.weight", "F16", &[4]),
            expanded("layer.1", "blocks.1.weight", "blocks.$.weight", "F16", &[4]),
            expanded("layer.2", "blocks.2.weight", "blocks.$.weight", "F16", &[4]),
            expanded("bias.0.0", "bias", "bias", "F16", &[2]),
            expanded("bias.1.1", "bias", "bias", "F16", &[2]),
            expanded("bias.2.2", "bias", "bias", "F16", &[2]),
            expanded("x10", "y10", "y$", "F16", &[1]),
            expanded("x11", "y11", "y$", "F16", &[1]),
        ])
    );
}

#[test]
fn expansion_faults() {
    let group = |key: &str, value: ConfigValue| table(vec![(key, value)]);
    let one = ConfigValue::Table(table(vec![("layer.$", tensor("s", "F16", &[4]))]));
    assert!(expand_tensors(&group("$0..3", one)).is_ok());
    for key in ["$", "$0", "$0.3", "$a..3", "$0..b", "$..", "$0..3..4", "$-1..3"] {
        let one = ConfigValue::Table(table(vec![("layer.$", tensor("s", "F16", &[4]))]));
        assert_eq!(
            fault_of(expand_tensors(&group(key, one))),
            (PackFault::InvalidRange, String::new(), key.to_string()),
            "{}",
            key
        );
    }
    assert_eq!(
        fault_of(expand_tensors(&group("$0..3", text("x")))),
        (PackFault::InvalidGroup, String::new(), "$0..3".to_string())
    );
    assert_eq!(
        fault_of(expand_tensors(&group("t", text("x")))),
        (PackFault::MistypedField, String::new(), "t".to_string())
    );
    let broken = ConfigValue::Table(table(vec![
        ("good.$", tensor("s", "F16", &[4])),
        ("bad.$", ConfigValue::Table(table(vec![("source", text("s")), ("type", text("F16"))]))),
    ]));
    assert_eq!(
        fault_of(expand_tensors(&group("$0..0", broken))),
        (PackFault::MissingField, String::new(), "bad.$".to_string())
    );
    assert_eq!(read_tensor_manifest(&tensor("s", "F16", &[-4])), Err(PackFault::MistypedField));
    assert_eq!(
        read_tensor_manifest(&ConfigValue::Table(table(vec![("type", text("F16"))]))),
        Err(PackFault::MissingField)
    );
}

fn conversion_task(tensors: Table) -> ConvertSafetensorsTask {
    ConvertSafetensorsTask::new(&table(vec![
        ("task", text("convert-safetensors")),
        ("source", text("model.safetensors")),
        ("tensors", ConfigValue::Table(tensors)),
    ]))
    .unwrap()
}

#[test]
fn range_expansion_gives_descriptors_with_increasing_offsets() {
    let mut task = conversion_task(table(vec![(
        "$0..3",
        ConfigValue::Table(table(vec![("layer.$", tensor("blocks.$", "F16", &[5, 3]))])),
    )]));
    let mut ctx = ProcessContext::new();
    assert_eq!(task.process(&mut ctx), Ok(()));
    let descriptor = |name: &str, offset: u64| TensorInfo {
        name: name.to_string(),
        tensor_type: TensorType::F16,
        dimensions: TensorDimensions([5, 3, 0, 0]),
        offset,
    };
    assert_eq!(
        ctx.tensors,
        vec![descriptor("layer.0", 0), descriptor("layer.1", 32), descriptor("layer.2", 64)]
    );
    assert_eq!(ctx.next_offset, 96);
    assert_eq!(
        task.tensors,
        vec![
            ConvertTensorInfo {
                name: "layer.0".to_string(),
                source: "blocks.0".to_string(),
                dimensions: TensorDimensions([5, 3, 0, 0]),
                offset: 0,
                ty: TensorType::F16,
            },
            ConvertTensorInfo {
                name: "layer.1".to_string(),
                source: "blocks.1".to_string(),
                dimensions: TensorDimensions([5, 3, 0, 0]),
                offset: 32,
                ty: TensorType::F16,
            },
            ConvertTensorInfo {
                name: "layer.2".to_string(),
                source: "blocks.2".to_string(),
                dimensions: TensorDimensions([5, 3, 0, 0]),
                offset: 64,
                ty: TensorType::F16,
            },
        ]
    );
}

#[test]
fn tensor_requests_are_checked() {
    let request = |ty: &str, dimensions: &[u64]| {
        ConvertSafetensorsTask::request(&TensorManifest {
            source: "s".to_string(),
            ty: ty.to_string(),
            dimensions: dimensions.to_vec(),
        })
    };
    assert_eq!(request("F16", &[4, 3]), Ok((TensorType::F16, TensorDimensions([4, 3, 0, 0]), 24)));
    assert_eq!(request("F32", &[4, 3]), Ok((TensorType::F32, TensorDimensions([4, 3, 0, 0]), 48)));
    assert_eq!(request("F32", &[]), Ok((TensorType::F32, TensorDimensions([0, 0, 0, 0]), 0)));
    assert_eq!(request("F32", &[1, 2, 3, 4]), Ok((TensorType::F32, TensorDimensions([1, 2, 3, 4]), 96)));
    assert_eq!(request("BF16", &[4]), Err(PackFault::UnsupportedTensorType));
    assert_eq!(request("f16", &[4]), Err(PackFault::UnsupportedTensorType));
    assert_eq!(request("F16", &[1, 2, 3, 4, 5]), Err(PackFault::TooManyDimensions));
    assert_eq!(request("F16", &[4, 0, 2]), Err(PackFault::ZeroDimension));
    assert_eq!(request("F16", &[1 << 32, 1 << 32]), Err(PackFault::TensorTooLarge));
    assert_eq!(request("F32", &[1 << 62]), Err(PackFault::TensorTooLarge));
    assert_eq!(request("F16", &[1 << 62]), Ok((TensorType::F16, TensorDimensions([1 << 62, 0, 0, 0]), 1 << 63)));
}

#[test]
fn planning_stops_where_the_cursor_leaves_the_range() {
    let mut task = conversion_task(table(vec![
        ("a", tensor("a", "F16", &[1 << 62])),
        ("b", tensor("b", "F16", &[1 << 62])),
    ]));
    let mut ctx = ProcessContext::new();
    assert_eq!(
        fault_of(task.process(&mut ctx)),
        (PackFault::TensorTooLarge, String::new(), "b".to_string())
    );
}

#[test]
fn tasks_are_loaded_by_kind() {
    let entry = load_task("card", &card_table()).unwrap();
    assert_eq!(entry.key, "card");
    assert_eq!(entry.name, "add-model-card");
    assert!(matches!(entry.task, PackTask::AddModelCard(_)));
    assert_eq!(entry.source(), None);
    let entry = load_task("config", &config_table()).unwrap();
    assert!(matches!(entry.task, PackTask::AddModelConfig(_)));
    let entry = load_task(
        "tok",
        &table(vec![
            ("task", text("convert-rwkv-tokenizer")),
            ("source", text("vocab.txt")),
            ("token_count", ConfigValue::Integer(3)),
        ]),
    )
    .unwrap();
    assert!(matches!(entry.task, PackTask::ConvertRwkvTokenizer(_)));
    assert_eq!(entry.source(), Some(&"vocab.txt".to_string()));
    let entry = load_task(
        "conv",
        &table(vec![
            ("task", text("convert-safetensors")),
            ("source", text("m.st")),
            ("tensors", ConfigValue::Table(vec![])),
        ]),
    )
    .unwrap();
    assert!(matches!(entry.task, PackTask::ConvertSafetensors(_)));
    assert_eq!(entry.source(), Some(&"m.st".to_string()));
}

#[test]
fn loading_faults_name_the_task() {
    assert_eq!(
        fault_of(load_task("k", &table(vec![("name", text("x"))]))),
        (PackFault::MissingTaskType, "k".to_string(), "task".to_string())
    );
    assert_eq!(
        fault_of(load_task("k", &table(vec![("task", ConfigValue::Integer(1))]))),
        (PackFault::MissingTaskType, "k".to_string(), "task".to_string())
    );
    assert_eq!(
        fault_of(load_task("k", &table(vec![("task", text("add-llama-config"))]))),
        (PackFault::UnknownTaskType, "k".to_string(), "add-llama-config".to_string())
    );
    assert_eq!(
        fault_of(load_task("k", &table(vec![("task", text("add-model-card"))]))),
        (PackFault::MissingField, "k".to_string(), "name".to_string())
    );
    assert_eq!(
        fault_of(load_task(
            "k",
            &table(vec![("task", text("convert-safetensors")), ("source", text("s"))])
        )),
        (PackFault::MissingField, "k".to_string(), "tensors".to_string())
    );
    let manifest = vec![
        ("first".to_string(), card_table()),
        ("second".to_string(), table(vec![("task", text("nothing"))])),
    ];
    assert_eq!(
        fault_of(load(&manifest)),
        (PackFault::UnknownTaskType, "second".to_string(), "nothing".to_string())
    );
    assert_eq!(load(&vec![("first".to_string(), card_table())]).unwrap().len(), 1);
}

fn bf16_bytes(values: &[f32]) -> Vec<u8> {
    values.iter().flat_map(|value| half::bf16::from_f32(*value).to_le_bytes()).collect()
}

fn source_container(first: &[f32], second: &[f32]) -> Vec<u8> {
    let header = r#"{"__metadata__":{"format":"pt"},"a":{"dtype":"BF16","shape":[4],"data_offsets":[0,8]},"b":{"dtype":"BF16","shape":[2,2],"data_offsets":[8,16]}}"#;
    let mut file = (header.len() as u64).to_le_bytes().to_vec();
    file.extend_from_slice(header.as_bytes());
    file.extend(bf16_bytes(first));
    file.extend(bf16_bytes(second));
    file
}

fn sources(file: Vec<u8>) -> Vec<SourceFile> {
    vec![
        SourceFile { name: "other".to_string(), content: vec![1, 2, 3] },
        SourceFile { name: "model.safetensors".to_string(), content: file },
        SourceFile { name: "model.safetensors".to_string(), content: vec![] },
    ]
}

fn manifest(ty: &str) -> Vec<(String, Table)> {
    vec![
        ("card".to_string(), card_table()),
        (
            "weights".to_string(),
            table(vec![
                ("task", text("convert-safetensors")),
                ("source", text("model.safetensors")),
                (
                    "tensors",
                    ConfigValue::Table(table(vec![
                        ("tensor.a", tensor("a", ty, &[4])),
                        ("tensor.b", tensor("b", ty, &[2, 2])),
                    ])),
                ),
            ]),
        ),
    ]
}

#[test]
fn a_container_is_packed_from_card_and_tensors() {
    let first = [0.0f32, 1.0, -1.0, 0.333];
    let second = [3.140625f32, -65504.0, 1e-7, 100000.0];
    let file = source_container(&first, &second);
    let output = convert_from_manifest(&manifest("F16"), &sources(file), &narrow).unwrap();

    let mut reader = ByteReader::new(&output);
    let header = read_header(&mut reader).unwrap();
    let header_len = output.len() - reader.remaining_len();
    assert_eq!(header.metadata.len(), 5);
    assert_eq!(header.metadata[0], string_entry("general.name", "Model"));
    assert_eq!(
        header.tensors,
        vec![
            TensorInfo {
                name: "tensor.a".to_string(),
                tensor_type: TensorType::F16,
                dimensions: TensorDimensions([4, 0, 0, 0]),
                offset: 0,
            },
            TensorInfo {
                name: "tensor.b".to_string(),
                tensor_type: TensorType::F16,
                dimensions: TensorDimensions([2, 2, 0, 0]),
                offset: 32,
            },
        ]
    );
    let data_start = (header_len + 31) / 32 * 32;
    assert!(output[header_len..data_start].iter().all(|byte| *byte == 0));
    assert_eq!(output.len(), data_start + 32 + 8);
    assert!(output[data_start + 8..data_start + 32].iter().all(|byte| *byte == 0));
    for (tensor, values) in header.tensors.iter().zip([first, second]) {
        let start = data_start + tensor.offset as usize;
        for (index, value) in values.iter().enumerate() {
            let bytes = [output[start + 2 * index], output[start + 2 * index + 1]];
            let stored = half::f16::from_le_bytes(bytes);
            let widened = half::bf16::from_f32(*value).to_f32();
            assert_eq!(stored, half::f16::from_f32(widened));
            if widened.abs() <= 65504.0 && widened.abs() >= 6.2e-5 {
                assert!((stored.to_f32() - widened).abs() <= widened.abs() / 1024.0);
            }
        }
    }
}

#[test]
fn a_container_can_hold_singles() {
    let first = [0.5f32, 1.5, -2.5, 4.0];
    let second = [8.0f32, 16.0, 32.0, 64.0];
    let file = source_container(&first, &second);
    let output = convert_from_manifest(&manifest("F32"), &sources(file), &narrow).unwrap();
    let mut reader = ByteReader::new(&output);
    let header = read_header(&mut reader).unwrap();
    let header_len = output.len() - reader.remaining_len();
    let data_start = (header_len + 31) / 32 * 32;
    assert_eq!(header.tensors[0].offset, 0);
    assert_eq!(header.tensors[1].offset, 32);
    assert_eq!(header.tensors[1].tensor_type, TensorType::F32);
    assert_eq!(output.len(), data_start + 32 + 16);
    let stored: Vec<u8> = second.iter().flat_map(|value| value.to_le_bytes()).collect();
    assert_eq!(&output[data_start + 32..], &stored[..]);
}

#[test]
fn the_steps_of_a_run_fit_together() {
    let file = source_container(&[1.0; 4], &[2.0; 4]);
    let files = sources(file);
    let mut tasks = load(&manifest("F16")).unwrap();
    let (metadata, tensors) = process(&mut tasks, &files).unwrap();
    assert_eq!(metadata.len(), 5);
    assert_eq!(tensors.len(), 2);
    let mut output = Vec::new();
    write_header(&mut output, metadata, tensors).unwrap();
    let header_len = output.len();
    write_tensors(&tasks, &files, &mut output, &narrow).unwrap();
    let data_start = (header_len + 31) / 32 * 32;
    assert_eq!(&output[data_start..data_start + 8], &[0x00, 0x3c].repeat(4)[..]);
    assert_eq!(&output[data_start + 32..], &[0x00, 0x40].repeat(4)[..]);
    assert_eq!(find_source(&files, "other"), Some(&vec![1, 2, 3]));
    assert_eq!(find_source(&files, "absent"), None);
    assert_eq!(find_source(&files, "model.safetensors").map(|file| file.len() > 0), Some(true));
}

#[test]
fn tasks_without_tensors_write_nothing() {
    let manifest = vec![("card".to_string(), card_table()), ("config".to_string(), config_table())];
    let output = convert_from_manifest(&manifest, &vec![], &narrow).unwrap();
    let mut reader = ByteReader::new(&output);
    let header = read_header(&mut reader).unwrap();
    assert_eq!(header.metadata.len(), 14);
    assert!(header.tensors.is_empty());
    assert_eq!(reader.remaining_len(), 0);
}

#[test]
fn running_faults_name_the_task() {
    let file = source_container(&[1.0; 4], &[2.0; 4]);
    assert_eq!(
        fault_of(convert_from_manifest(&manifest("F16"), &vec![], &narrow)),
        (PackFault::MissingSource, "weights".to_string(), "model.safetensors".to_string())
    );
    let mut wrong_shape = manifest("F16");
    wrong_shape[1].1[2].1 =
        ConfigValue::Table(table(vec![("tensor.a", tensor("a", "F16", &[5]))]));
    assert_eq!(
        fault_of(convert_from_manifest(&wrong_shape, &sources(file.clone()), &narrow)),
        (PackFault::ShapeMismatch, "weights".to_string(), "tensor.a".to_string())
    );
    let mut absent = manifest("F16");
    absent[1].1[2].1 = ConfigValue::Table(table(vec![("tensor.c", tensor("c", "F16", &[4]))]));
    assert_eq!(
        fault_of(convert_from_manifest(&absent, &sources(file.clone()), &narrow)),
        (PackFault::MissingTensor, "weights".to_string(), "tensor.c".to_string())
    );
    let mut truncated = file.clone();
    truncated.truncate(file.len() - 1);
    assert_eq!(
        fault_of(convert_from_manifest(&manifest("F16"), &sources(truncated), &narrow)),
        (PackFault::TruncatedSource, "weights".to_string(), "tensor.b".to_string())
    );
    let tokenizer = vec![(
        "tok".to_string(),
        table(vec![
            ("task", text("convert-rwkv-tokenizer")),
            ("source", text("vocab.txt")),
            ("token_count", ConfigValue::Integer(1)),
        ]),
    )];
    assert_eq!(
        fault_of(convert_from_manifest(&tokenizer, &vec![], &narrow)),
        (PackFault::MissingSource, "tok".to_string(), "vocab.txt".to_string())
    );
    let vocab = vec![SourceFile { name: "vocab.txt".to_string(), content: b"b'a'\nb'b'".to_vec() }];
    assert_eq!(
        fault_of(convert_from_manifest(&tokenizer, &vocab, &narrow)),
        (PackFault::TokenCountMismatch, "tok".to_string(), String::new())
    );
    let oversized = vec![(
        "card".to_string(),
        table(vec![
            ("task", text("add-model-card")),
            ("name", text(&"x".repeat(70000))),
            ("author", text("")),
            ("description", text("")),
            ("license", text("")),
            ("architecture", text("")),
        ]),
    )];
    assert_eq!(
        fault_of(convert_from_manifest(&oversized, &vec![], &narrow)),
        (
            PackFault::Encoding(gguf_swiss::WriteError::OversizedString),
            String::new(),
            String::new()
        )
    );
}

fn conversion_info() -> ConvertInfo {
    ConvertInfo {
        metadata: vec![string_entry("general.name", "Model")],
        tensors: vec![
            ConvertTensorInfo {
                name: "tensor.a".to_string(),
                source: "a".to_string(),
                dimensions: TensorDimensions([4, 0, 0, 0]),
                offset: 0,
                ty: TensorType::F16,
            },
            ConvertTensorInfo {
                name: "tensor.b".to_string(),
                source: "b".to_string(),
                dimensions: TensorDimensions([2, 2, 0, 0]),
                offset: 32,
                ty: TensorType::F32,
            },
        ],
    }
}

#[test]
fn one_source_is_converted_into_a_container() {
    let file = source_container(&[1.0, 2.0, 3.0, 4.0], &[0.5, 0.25, -8.0, 0.0]);
    let mut output = Vec::new();
    assert_eq!(convert(&mut output, &file, conversion_info(), &narrow), Ok(()));
    let mut reader = ByteReader::new(&output);
    let header = read_header(&mut reader).unwrap();
    let header_len = output.len() - reader.remaining_len();
    assert_eq!(header.metadata, vec![string_entry("general.name", "Model")]);
    assert_eq!(header.tensors.len(), 2);
    assert_eq!(header.tensors[1].name, "tensor.b");
    assert_eq!(header.tensors[1].tensor_type, TensorType::F32);
    assert_eq!(header.tensors[1].offset, 32);
    let data_start = (header_len + 31) / 32 * 32;
    assert_eq!(output.len(), data_start + 32 + 16);
    let halves: Vec<u8> =
        [1.0f32, 2.0, 3.0, 4.0].iter().flat_map(|v| half::f16::from_f32(*v).to_le_bytes()).collect();
    assert_eq!(&output[data_start..data_start + 8], &halves[..]);
    let singles: Vec<u8> = [0.5f32, 0.25, -8.0, 0.0].iter().flat_map(|v| v.to_le_bytes()).collect();
    assert_eq!(&output[data_start + 32..], &singles[..]);
}

#[test]
fn conversion_refuses_offsets_that_do_not_fit() {
    let file = source_container(&[1.0; 4], &[2.0; 4]);
    let mut info = conversion_info();
    info.tensors[1].offset = 64;
    let mut output = Vec::new();
    assert_eq!(
        fault_of(convert(&mut output, &file, info, &narrow)),
        (PackFault::LayoutInvariantViolation, String::new(), "tensor.b".to_string())
    );
    let mut output = Vec::new();
    assert_eq!(
        fault_of(convert(&mut output, &[1, 2, 3], conversion_info(), &narrow)),
        (PackFault::TruncatedSource, String::new(), String::new())
    );
}

#[test]
fn descriptors_are_added_for_the_tensors_to_convert() {
    let mut header = Header::default();
    header.tensors.push(TensorInfo {
        name: "first".to_string(),
        tensor_type: TensorType::Q8_0,
        dimensions: TensorDimensions([1, 0, 0, 0]),
        offset: 7,
    });
    apply_header_tensors(&mut header, &conversion_info());
    assert!(header.metadata.is_empty());
    assert_eq!(header.tensors.len(), 3);
    assert_eq!(header.tensors[0].name, "first");
    assert_eq!(
        header.tensors[2],
        TensorInfo {
            name: "tensor.b".to_string(),
            tensor_type: TensorType::F32,
            dimensions: TensorDimensions([2, 2, 0, 0]),
            offset: 32,
        }
    );
}
