//! The task that records the hyperparameters of the model.
use vstd::prelude::*;
use crate::config::{get_float, get_number, get_text, spec_float, spec_number, spec_text,
    ConfigValue, FieldFault};
use crate::error::PackError;
use crate::metadata::MetadataValueView;
use crate::tasks::add_model_card::text_entry;
use crate::tasks::context::ProcessContext;
use crate::text::{dotted, join_dotted};

verus! {

/// The fields of a model configuration. All of them are required.
#[derive(Debug, PartialEq, Eq)]
pub struct AddModelConfigManifest {
    pub architecture: String,
    pub context_length: u32,
    pub embedding_length: u32,
    pub block_count: u32,
    pub feed_forward_length: u32,
    pub attention_head_count: u32,
    /// The bit pattern of a 32-bit IEEE 754 number.
    pub layer_norm_epsilon: u32,
}

/// What an `AddModelConfigManifest` stands for.
pub struct AddModelConfigManifestView {
    pub architecture: Seq<char>,
    pub context_length: u32,
    pub embedding_length: u32,
    pub block_count: u32,
    pub feed_forward_length: u32,
    pub attention_head_count: u32,
    pub layer_norm_epsilon: u32,
}

impl View for AddModelConfigManifest {
    type V = AddModelConfigManifestView;

    open spec fn view(&self) -> AddModelConfigManifestView {
        AddModelConfigManifestView {
            architecture: self.architecture@,
            context_length: self.context_length,
            embedding_length: self.embedding_length,
            block_count: self.block_count,
            feed_forward_length: self.feed_forward_length,
            attention_head_count: self.attention_head_count,
            layer_norm_epsilon: self.layer_norm_epsilon,
        }
    }
}

/// The task `add-model-config`.
#[derive(Debug, PartialEq, Eq)]
pub struct AddModelConfigTask {
    pub manifest: AddModelConfigManifest,
}

impl View for AddModelConfigTask {
    type V = AddModelConfigManifestView;

    open spec fn view(&self) -> AddModelConfigManifestView {
        self.manifest@
    }
}

/// The 32-bit number under a key.
pub open spec fn spec_u32(table: Seq<(String, ConfigValue)>, key: Seq<char>) -> Result<
    u32,
    FieldFault,
> {
    match spec_number(table, key, u32::MAX as u64) {
        Ok(number) => Ok(number as u32),
        Err(fault) => Err(fault),
    }
}

/// The model configuration that a table holds. The fields are looked at in
/// the order architecture, context_length, embedding_length, block_count,
/// feed_forward_length, attention_head_count, layer_norm_epsilon, and the
/// first that is missing or of the wrong kind is reported.
pub open spec fn spec_model_config(table: Seq<(String, ConfigValue)>) -> Result<
    AddModelConfigManifestView,
    FieldFault,
> {
    match spec_text(table, "architecture"@) {
        Err(fault) => Err(fault),
        Ok(architecture) => match spec_u32(table, "context_length"@) {
            Err(fault) => Err(fault),
            Ok(context_length) => match spec_u32(table, "embedding_length"@) {
                Err(fault) => Err(fault),
                Ok(embedding_length) => match spec_u32(table, "block_count"@) {
                    Err(fault) => Err(fault),
                    Ok(block_count) => match spec_u32(table, "feed_forward_length"@) {
                        Err(fault) => Err(fault),
                        Ok(feed_forward_length) => match spec_u32(
                            table,
                            "attention_head_count"@,
                        ) {
                            Err(fault) => Err(fault),
                            Ok(attention_head_count) => match spec_float(
                                table,
                                "layer_norm_epsilon"@,
                            ) {
                                Err(fault) => Err(fault),
                                Ok(layer_norm_epsilon) => Ok(
                                    AddModelConfigManifestView {
                                        architecture,
                                        context_length,
                                        embedding_length,
                                        block_count,
                                        feed_forward_length,
                                        attention_head_count,
                                        layer_norm_epsilon,
                                    },
                                ),
                            },
                        },
                    },
                },
            },
        },
    }
}

/// A 32-bit number as a metadata entry under `prefix.name`.
pub open spec fn number_entry(prefix: Seq<char>, name: Seq<char>, value: u32) -> (
    Seq<char>,
    MetadataValueView,
) {
    (dotted(prefix, name), MetadataValueView::UInt32(value))
}

/// The metadata entries of a model configuration, in their order: the
/// architecture, six hyperparameters under the architecture's name, and the
/// two state sizes, which are always 1.
pub open spec fn config_entries(config: AddModelConfigManifestView) -> Seq<
    (Seq<char>, MetadataValueView),
> {
    let prefix = config.architecture;
    seq![
        text_entry("general.architecture"@, config.architecture),
        number_entry(prefix, "context_length"@, config.context_length),
        number_entry(prefix, "embedding_length"@, config.embedding_length),
        number_entry(prefix, "block_count"@, config.block_count),
        number_entry(prefix, "feed_forward_length"@, config.feed_forward_length),
        number_entry(prefix, "attention.head_count"@, config.attention_head_count),
        (
            dotted(prefix, "attention.layer_norm_epsilon"@),
            MetadataValueView::Float32(config.layer_norm_epsilon),
        ),
        number_entry(prefix, "ssm.state_size"@, 1),
        number_entry(prefix, "ssm.inner_size"@, 1),
    ]
}

/// Reads the 32-bit number under a key.
fn get_u32(table: &Vec<(String, ConfigValue)>, key: &str) -> (result: Result<u32, PackError>)
    ensures
        crate::config::field_matches(result, spec_u32(table@, key@)),
{
    match get_number(table, key, u32::MAX as u64) {
        Ok(number) => Ok(number as u32),
        Err(error) => Err(error),
    }
}

impl AddModelConfigTask {
    /// Reads the task from its table.
    pub fn new(manifest: &Vec<(String, ConfigValue)>) -> (result: Result<Self, PackError>)
        ensures
            match spec_model_config(manifest@) {
                Ok(config) => result matches Ok(task) && task.manifest@ == config,
                Err((fault, field)) => result matches Err(error) && error.reports(
                    fault,
                    Seq::empty(),
                    field,
                ),
            },
    {
        let architecture = get_text(manifest, "architecture")?;
        let context_length = get_u32(manifest, "context_length")?;
        let embedding_length = get_u32(manifest, "embedding_length")?;
        let block_count = get_u32(manifest, "block_count")?;
        let feed_forward_length = get_u32(manifest, "feed_forward_length")?;
        let attention_head_count = get_u32(manifest, "attention_head_count")?;
        let layer_norm_epsilon = get_float(manifest, "layer_norm_epsilon")?;
        Ok(
            AddModelConfigTask {
                manifest: AddModelConfigManifest {
                    architecture,
                    context_length,
                    embedding_length,
                    block_count,
                    feed_forward_length,
                    attention_head_count,
                    layer_norm_epsilon,
                },
            },
        )
    }

    /// Adds the entries of the model configuration to the metadata. Tensors
    /// and cursor stay as they are.
    pub fn process(&self, ctx: &mut ProcessContext)
        ensures
            final(ctx).entries() == old(ctx).entries() + config_entries(self.manifest@),
            final(ctx).tensors == old(ctx).tensors,
            final(ctx).next_offset == old(ctx).next_offset,
    {
        let m = &self.manifest;
        let prefix = m.architecture.as_str();
        ctx.push_metadata_str("general.architecture", prefix);
        ctx.push_metadata_u32(join_dotted(prefix, "context_length").as_str(), m.context_length);
        ctx.push_metadata_u32(
            join_dotted(prefix, "embedding_length").as_str(),
            m.embedding_length,
        );
        ctx.push_metadata_u32(join_dotted(prefix, "block_count").as_str(), m.block_count);
        ctx.push_metadata_u32(
            join_dotted(prefix, "feed_forward_length").as_str(),
            m.feed_forward_length,
        );
        ctx.push_metadata_u32(
            join_dotted(prefix, "attention.head_count").as_str(),
            m.attention_head_count,
        );
        ctx.push_metadata_f32(
            join_dotted(prefix, "attention.layer_norm_epsilon").as_str(),
            m.layer_norm_epsilon,
        );
        ctx.push_metadata_u32(join_dotted(prefix, "ssm.state_size").as_str(), 1);
        ctx.push_metadata_u32(join_dotted(prefix, "ssm.inner_size").as_str(), 1);
        assert(ctx.entries() =~= old(ctx).entries() + config_entries(self.manifest@));
    }
}

} // verus!
