//! The task that turns a vocabulary text into the tokenizer entries of the
//! metadata.
use vstd::prelude::*;
use vstd::slice::slice_to_vec;
use vstd::utf8::{decode_utf8, decode_utf8_encode_utf8, encode_utf8, valid_utf8};
use crate::config::{get_number, get_text, spec_number, spec_text, ConfigValue, FieldFault};
use crate::error::{PackError, PackFault};
use crate::metadata::{MetadataArray, MetadataArrayView, MetadataValue, MetadataValueView};
use crate::read::metadata::element_views;
use crate::tasks::add_model_card::text_entry;
use crate::tasks::context::ProcessContext;
use crate::text::{decimal, decimal_text, push_decimal, push_text, text_from_utf8};
use crate::vocab::{parse_vocab, spec_parse_vocab, VocabFault};

verus! {

/// The kind of a token that is matched as ordinary text.
pub const TOKEN_NORMAL: u32 = 1;

/// The kind of a control token.
pub const TOKEN_CONTROL: u32 = 3;

/// The kind of a token that stands for nothing.
pub const TOKEN_UNUSED: u32 = 5;

/// The fields of a tokenizer conversion. Both are required.
#[derive(Debug, PartialEq, Eq)]
pub struct ConvertRwkvTokenizerManifest {
    /// The name of the vocabulary file.
    pub source: String,
    /// How many tokens the model has.
    pub token_count: u64,
}

/// What a `ConvertRwkvTokenizerManifest` stands for.
pub struct ConvertRwkvTokenizerManifestView {
    pub source: Seq<char>,
    pub token_count: u64,
}

impl View for ConvertRwkvTokenizerManifest {
    type V = ConvertRwkvTokenizerManifestView;

    open spec fn view(&self) -> ConvertRwkvTokenizerManifestView {
        ConvertRwkvTokenizerManifestView { source: self.source@, token_count: self.token_count }
    }
}

/// The task `convert-rwkv-tokenizer`.
#[derive(Debug, PartialEq, Eq)]
pub struct ConvertRwkvTokenizerTask {
    pub manifest: ConvertRwkvTokenizerManifest,
}

impl View for ConvertRwkvTokenizerTask {
    type V = ConvertRwkvTokenizerManifestView;

    open spec fn view(&self) -> ConvertRwkvTokenizerManifestView {
        self.manifest@
    }
}

/// The tokenizer conversion that a table holds: first the source, then the
/// token count.
pub open spec fn spec_tokenizer(table: Seq<(String, ConfigValue)>) -> Result<
    ConvertRwkvTokenizerManifestView,
    FieldFault,
> {
    match spec_text(table, "source"@) {
        Err(fault) => Err(fault),
        Ok(source) => match spec_number(table, "token_count"@, i64::MAX as u64) {
            Err(fault) => Err(fault),
            Ok(token_count) => Ok(ConvertRwkvTokenizerManifestView { source, token_count }),
        },
    }
}

/// The token that fills place `index` past the vocabulary: `<unused N>`.
/// No two places have the same.
pub open spec fn unused_token(index: nat) -> Seq<u8> {
    encode_utf8("<unused "@ + decimal(index) + ">"@)
}

/// The tokens of a model with `token_count` tokens of which the vocabulary
/// gives the first: the vocabulary, then the fillers.
pub open spec fn padded_tokens(tokens: Seq<Seq<u8>>, token_count: nat) -> Seq<Seq<u8>> {
    Seq::new(
        token_count,
        |index: int|
            if index < tokens.len() {
                tokens[index]
            } else {
                unused_token((index - tokens.len()) as nat)
            },
    )
}

/// The kinds of the tokens: the first is a control token, the rest of the
/// vocabulary is ordinary, the fillers are unused.
pub open spec fn token_kinds(vocabulary: nat, token_count: nat) -> Seq<u32> {
    Seq::new(
        token_count,
        |index: int|
            if index == 0 {
                TOKEN_CONTROL
            } else if index < vocabulary {
                TOKEN_NORMAL
            } else {
                TOKEN_UNUSED
            },
    )
}

/// The fault of the packer that stands for a fault of a vocabulary line.
pub open spec fn vocab_fault(fault: VocabFault) -> PackFault {
    match fault {
        VocabFault::InvalidFormat => PackFault::InvalidVocabLine,
        VocabFault::UnknownEscape => PackFault::UnknownEscape,
        VocabFault::EmptyToken => PackFault::EmptyToken,
    }
}

/// The tokenizer entries that a vocabulary text gives for a model with
/// `token_count` tokens: the name of the tokenizer, the tokens, and their
/// kinds. The text has to be UTF-8 and a vocabulary with at least one token
/// and at most `token_count`. A faulty line is reported by its number.
pub open spec fn spec_tokenizer_entries(raw: Seq<u8>, token_count: u64) -> Result<
    Seq<(Seq<char>, MetadataValueView)>,
    FieldFault,
> {
    if !valid_utf8(raw) {
        Err((PackFault::VocabNotText, Seq::empty()))
    } else {
        match spec_parse_vocab(raw) {
            Err(error) => Err((vocab_fault(error.fault), decimal(error.line as nat))),
            Ok(tokens) => if tokens.len() == 0 {
                Err((PackFault::EmptyVocabulary, Seq::empty()))
            } else if tokens.len() > token_count {
                Err((PackFault::TokenCountMismatch, Seq::empty()))
            } else {
                Ok(
                    seq![
                        text_entry("tokenizer.ggml.model"@, "rwkv"@),
                        (
                            "tokenizer.ggml.tokens"@,
                            MetadataValueView::Array(
                                MetadataArrayView::String(
                                    padded_tokens(tokens, token_count as nat),
                                ),
                            ),
                        ),
                        (
                            "tokenizer.ggml.token_type"@,
                            MetadataValueView::Array(
                                MetadataArrayView::UInt32(
                                    token_kinds(tokens.len(), token_count as nat),
                                ),
                            ),
                        ),
                    ],
                )
            },
        }
    }
}

/// The fillers of two different places differ.
pub proof fn lemma_unused_tokens_differ(first: nat, second: nat)
    requires
        first != second,
    ensures
        unused_token(first) != unused_token(second),
{
    let left = "<unused "@ + decimal(first) + ">"@;
    let right = "<unused "@ + decimal(second) + ">"@;
    if unused_token(first) == unused_token(second) {
        vstd::utf8::encode_utf8_decode_utf8(left);
        vstd::utf8::encode_utf8_decode_utf8(right);
        assert(left == right);
        let head = "<unused "@.len() as int;
        assert(left.subrange(head, left.len() - ">"@.len()) =~= decimal(first));
        assert(right.subrange(head, right.len() - ">"@.len()) =~= decimal(second));
        crate::text::lemma_decimal_value(first);
        crate::text::lemma_decimal_value(second);
    }
}

/// The filler token of a place past the vocabulary.
fn make_unused_token(index: u64) -> (token: Vec<u8>)
    ensures
        token@ == unused_token(index as nat),
{
    let mut text = String::new();
    push_text(&mut text, "<unused ");
    push_decimal(&mut text, index);
    push_text(&mut text, ">");
    assert(text@ =~= "<unused "@ + decimal(index as nat) + ">"@);
    slice_to_vec(text.as_str().as_bytes())
}

/// The packer's fault for a fault of a vocabulary line.
fn fault_of(fault: VocabFault) -> (packed: PackFault)
    ensures
        packed == vocab_fault(fault),
{
    match fault {
        VocabFault::InvalidFormat => PackFault::InvalidVocabLine,
        VocabFault::UnknownEscape => PackFault::UnknownEscape,
        VocabFault::EmptyToken => PackFault::EmptyToken,
    }
}

impl ConvertRwkvTokenizerTask {
    /// Reads the task from its table.
    pub fn new(manifest: &Vec<(String, ConfigValue)>) -> (result: Result<Self, PackError>)
        ensures
            match spec_tokenizer(manifest@) {
                Ok(tokenizer) => result matches Ok(task) && task.manifest@ == tokenizer,
                Err((fault, field)) => result matches Err(error) && error.reports(
                    fault,
                    Seq::empty(),
                    field,
                ),
            },
    {
        let source = get_text(manifest, "source")?;
        let token_count = get_number(manifest, "token_count", i64::MAX as u64)?;
        Ok(
            ConvertRwkvTokenizerTask {
                manifest: ConvertRwkvTokenizerManifest { source, token_count },
            },
        )
    }

    /// Decodes the vocabulary text, fills it up to the token count of the
    /// model, and adds the tokenizer entries to the metadata. Tensors and
    /// cursor stay as they are, and after a failure so does the metadata.
    pub fn process(&self, ctx: &mut ProcessContext, vocab_raw: &[u8]) -> (result: Result<
        (),
        PackError,
    >)
        ensures
            final(ctx).tensors == old(ctx).tensors,
            final(ctx).next_offset == old(ctx).next_offset,
            match spec_tokenizer_entries(vocab_raw@, self.manifest.token_count) {
                Ok(entries) => result is Ok && final(ctx).entries() == old(ctx).entries()
                    + entries,
                Err((fault, item)) => {
                    &&& result matches Err(error) && error.reports(fault, Seq::empty(), item)
                    &&& final(ctx).entries() == old(ctx).entries()
                },
            },
    {
        let text = match text_from_utf8(slice_to_vec(vocab_raw)) {
            Some(text) => text,
            None => {
                return Err(PackError::of(PackFault::VocabNotText));
            },
        };
        proof {
            decode_utf8_encode_utf8(vocab_raw@);
        }
        let mut vocab = match parse_vocab(text.as_str()) {
            Ok(vocab) => vocab,
            Err(error) => {
                let line = decimal_text(error.line as u64);
                return Err(PackError::about(fault_of(error.fault), line.as_str()));
            },
        };
        let ghost tokens = element_views(vocab@);
        let known = vocab.len();
        if known == 0 {
            return Err(PackError::of(PackFault::EmptyVocabulary));
        }
        if known as u64 > self.manifest.token_count {
            return Err(PackError::of(PackFault::TokenCountMismatch));
        }
        let token_count = self.manifest.token_count;
        let mut token_type: Vec<u32> = Vec::new();
        token_type.push(TOKEN_CONTROL);
        let mut index: usize = 1;
        while index < known
            invariant
                1 <= index <= known,
                token_type@.len() == index,
                forall|at: int|
                    0 <= at < index ==> token_type@[at] == token_kinds(
                        known as nat,
                        token_count as nat,
                    )[at],
                known <= token_count,
            decreases known - index,
        {
            token_type.push(TOKEN_NORMAL);
            index = index + 1;
        }
        let remainder = token_count - known as u64;
        let mut filler: u64 = 0;
        while filler < remainder
            invariant
                filler <= remainder == token_count - known,
                known >= 1,
                tokens.len() == known,
                token_type@.len() == known + filler,
                vocab@.len() == known + filler,
                forall|at: int|
                    0 <= at < known + filler ==> token_type@[at] == token_kinds(
                        known as nat,
                        token_count as nat,
                    )[at],
                forall|at: int|
                    0 <= at < known + filler ==> (#[trigger] vocab@[at])@ == padded_tokens(
                        tokens,
                        token_count as nat,
                    )[at],
            decreases remainder - filler,
        {
            vocab.push(make_unused_token(filler));
            token_type.push(TOKEN_UNUSED);
            filler = filler + 1;
        }
        let vocab_value = MetadataValue::Array(MetadataArray::String(vocab));
        let kinds_value = MetadataValue::Array(MetadataArray::UInt32(token_type));
        proof {
            assert(vocab_value@ == MetadataValueView::Array(
                MetadataArrayView::String(padded_tokens(tokens, token_count as nat)),
            )) by {
                assert(vocab_value@->Array_0->String_0 =~= padded_tokens(
                    tokens,
                    token_count as nat,
                ));
            }
            assert(kinds_value@ == MetadataValueView::Array(
                MetadataArrayView::UInt32(token_kinds(known as nat, token_count as nat)),
            )) by {
                assert(kinds_value@->Array_0->UInt32_0 =~= token_kinds(
                    known as nat,
                    token_count as nat,
                ));
            }
        }
        ctx.push_metadata_str("tokenizer.ggml.model", "rwkv");
        ctx.push_metadata_value("tokenizer.ggml.tokens", vocab_value);
        ctx.push_metadata_value("tokenizer.ggml.token_type", kinds_value);
        proof {
            assert(ctx.entries() =~= old(ctx).entries() + spec_tokenizer_entries(
                vocab_raw@,
                token_count,
            )->Ok_0);
        }
        Ok(())
    }
}

} // verus!
