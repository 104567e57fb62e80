//! Packaging of model artifacts into a single self-describing binary
//! container.
//!
//! The crate has two halves. The codec (`read`, `write`, `metadata`,
//! `dimensions`, `header`, `wire`, `endian`, `roundtrip`) encodes and decodes
//! the header of a container. The packer (`pack`, `tasks`, `config`,
//! `layout`, `vocab`, `safetensors`, `json`, `numeric`, `text`) turns task
//! tables and source files into a container.
pub mod config;
pub mod dimensions;
pub mod endian;
pub mod error;
pub mod header;
pub mod json;
pub mod layout;
pub mod metadata;
pub mod numeric;
pub mod pack;
pub mod read;
pub mod roundtrip;
pub mod safetensors;
pub mod tasks;
pub mod text;
pub mod vocab;
pub mod wire;
pub mod write;

pub use crate::dimensions::TensorDimensions;
pub use crate::error::{HeaderError, HeaderPlace, PackError, PackFault, ReadError, WriteError};
pub use crate::header::{Header, TensorInfo, TensorType};
pub use crate::layout::align_offset;
pub use crate::metadata::{MetadataArray, MetadataType, MetadataValue};
pub use crate::read::primitives::ByteReader;
pub use crate::read::read_header;
pub use crate::write::write_header;
