//! The ways in which decoding and encoding a container header can fail.
use vstd::prelude::*;

verus! {

/// Why a byte stream could not be decoded.
#[derive(Clone, Copy, Debug, PartialEq, Eq, Structural)]
pub enum ReadError {
    /// Fewer bytes remain than the next field needs.
    TruncatedInput,
    /// The stream does not start with the container's magic bytes.
    MagicMismatch,
    /// The version field holds something other than 2 or 3.
    UnsupportedVersion(u32),
    /// The header announces more than 1024 tensors.
    ExcessiveTensorCount,
    /// The header announces more than 1024 metadata entries.
    ExcessiveMetadataCount,
    /// A type tag names none of the thirteen metadata kinds.
    InvalidTypeTag(u32),
    /// A string announces more than 65535 bytes.
    OversizedString,
    /// An array announces more than 524288 elements.
    OversizedArray,
    /// Arrays are nested more than two levels below the top-level array.
    ExcessiveDepth,
    /// A tensor announces more than four dimensions.
    TooManyDimensions,
    /// A tensor's type tag names no tensor element type.
    InvalidTensorType(u32),
    /// A metadata key or a tensor name is not UTF-8.
    InvalidText,
}

/// Where in a header a fault was met.
#[derive(Clone, Copy, Debug, PartialEq, Eq, Structural)]
pub enum HeaderPlace {
    /// In the magic bytes, the version or the counts.
    Preamble,
    /// In the metadata entry of this number, counted from 0.
    MetadataEntry(u64),
    /// In the tensor descriptor of this number, counted from 0.
    TensorInfo(u64),
}

/// Why a header could not be decoded, and where the fault was met.
#[derive(Clone, Copy, Debug, PartialEq, Eq, Structural)]
pub struct HeaderError {
    pub fault: ReadError,
    pub place: HeaderPlace,
}

/// Why a value could not be encoded.
#[derive(Clone, Copy, Debug, PartialEq, Eq, Structural)]
pub enum WriteError {
    /// A string is longer than 65535 bytes.
    OversizedString,
    /// The value holds an array of arrays, which the encoder does not write.
    NestedArray,
}

/// What went wrong while packing.
#[derive(Clone, Copy, Debug, PartialEq, Eq, Structural)]
pub enum PackFault {
    /// A task has no `task` entry, or it is no text.
    MissingTaskType,
    /// The `task` entry of a task names no kind of task.
    UnknownTaskType,
    /// A task lacks a field that its kind requires.
    MissingField,
    /// A field of a task holds a value of the wrong kind or out of range.
    MistypedField,
    /// The range of a templated tensor group is not `start..end` in decimal.
    InvalidRange,
    /// A templated tensor group holds something other than a table.
    InvalidGroup,
    /// A tensor asks for an element type other than F16 or F32.
    UnsupportedTensorType,
    /// A shape has more than four dimensions.
    TooManyDimensions,
    /// A shape holds a zero, which is no extent.
    ZeroDimension,
    /// A tensor, or the tensors before it, take more bytes than 64 bits count.
    TensorTooLarge,
    /// A source file that a task names was not handed in.
    MissingSource,
    /// A vocabulary line is no quoted byte literal.
    InvalidVocabLine,
    /// A vocabulary line holds an escape that is not known.
    UnknownEscape,
    /// A vocabulary line stands for a token without bytes.
    EmptyToken,
    /// The vocabulary text is not UTF-8.
    VocabNotText,
    /// The vocabulary holds no token at all.
    EmptyVocabulary,
    /// The vocabulary holds more tokens than the task allows.
    TokenCountMismatch,
    /// A tensor source ends before its header does.
    TruncatedSource,
    /// The header of a tensor source is not UTF-8.
    SourceNotText,
    /// The header of a tensor source is not a JSON object.
    SourceNotJson,
    /// An entry of a tensor source lacks `dtype`, `data_offsets` or `shape`.
    SourceMissingKey,
    /// An entry of a tensor source holds a value of the wrong kind.
    SourceMistyped,
    /// A tensor source has no entry of the name that a tensor asks for.
    MissingTensor,
    /// A source tensor is not stored as 16-bit brain floats.
    UnsupportedSourceType,
    /// The shape of a source tensor is not the shape that was declared.
    ShapeMismatch,
    /// The bytes of a source tensor are not as many as its shape needs, or
    /// lie outside the file.
    SizeMismatch,
    /// The output does not stand where the offset of a tensor says.
    LayoutInvariantViolation,
    /// The header could not be encoded.
    Encoding(WriteError),
}

/// A fault, the task in which it came up, and the field, tensor or entry
/// that has it. A name that is not known is empty.
#[derive(Clone, Debug, PartialEq, Eq)]
pub struct PackError {
    pub fault: PackFault,
    pub task: String,
    pub item: String,
}

impl PackError {
    /// Whether the error reports `fault` for `item` in `task`.
    pub open spec fn reports(self, fault: PackFault, task: Seq<char>, item: Seq<char>) -> bool {
        self.fault == fault && self.task@ == task && self.item@ == item
    }

    /// An error about nothing that has a name.
    pub fn of(fault: PackFault) -> (error: PackError)
        ensures
            error.reports(fault, Seq::empty(), Seq::empty()),
    {
        PackError { fault, task: String::new(), item: String::new() }
    }

    /// An error about an item, with the task not known yet.
    pub fn about(fault: PackFault, item: &str) -> (error: PackError)
        ensures
            error.reports(fault, Seq::empty(), item@),
    {
        PackError { fault, task: String::new(), item: crate::text::copy_text(item) }
    }

    /// The same error, now with the task in which it came up.
    pub fn in_task(self, task: &str) -> (error: PackError)
        ensures
            error.reports(self.fault, task@, self.item@),
    {
        PackError { fault: self.fault, task: crate::text::copy_text(task), item: self.item }
    }
}

} // verus!
