//! The task that describes the model: who made it and what it is.
use vstd::prelude::*;
use vstd::utf8::encode_utf8;
use crate::config::{get_text, spec_text, ConfigValue, FieldFault};
use crate::error::PackError;
use crate::metadata::MetadataValueView;
use crate::tasks::context::ProcessContext;

verus! {

/// The fields of a model card. All of them are required.
#[derive(Debug, PartialEq, Eq)]
pub struct AddModelCardManifest {
    pub name: String,
    pub author: String,
    pub description: String,
    pub license: String,
    pub architecture: String,
}

/// What an `AddModelCardManifest` stands for.
pub struct AddModelCardManifestView {
    pub name: Seq<char>,
    pub author: Seq<char>,
    pub description: Seq<char>,
    pub license: Seq<char>,
    pub architecture: Seq<char>,
}

impl View for AddModelCardManifest {
    type V = AddModelCardManifestView;

    open spec fn view(&self) -> AddModelCardManifestView {
        AddModelCardManifestView {
            name: self.name@,
            author: self.author@,
            description: self.description@,
            license: self.license@,
            architecture: self.architecture@,
        }
    }
}

/// The task `add-model-card`.
#[derive(Debug, PartialEq, Eq)]
pub struct AddModelCardTask {
    pub manifest: AddModelCardManifest,
}

impl View for AddModelCardTask {
    type V = AddModelCardManifestView;

    open spec fn view(&self) -> AddModelCardManifestView {
        self.manifest@
    }
}

/// The model card that a table holds. The fields are looked at in the
/// order name, author, description, license, architecture, and the first
/// that is missing or no text is reported.
pub open spec fn spec_model_card(table: Seq<(String, ConfigValue)>) -> Result<
    AddModelCardManifestView,
    FieldFault,
> {
    match spec_text(table, "name"@) {
        Err(fault) => Err(fault),
        Ok(name) => match spec_text(table, "author"@) {
            Err(fault) => Err(fault),
            Ok(author) => match spec_text(table, "description"@) {
                Err(fault) => Err(fault),
                Ok(description) => match spec_text(table, "license"@) {
                    Err(fault) => Err(fault),
                    Ok(license) => match spec_text(table, "architecture"@) {
                        Err(fault) => Err(fault),
                        Ok(architecture) => Ok(
                            AddModelCardManifestView {
                                name,
                                author,
                                description,
                                license,
                                architecture,
                            },
                        ),
                    },
                },
            },
        },
    }
}

/// A text as a metadata entry.
pub open spec fn text_entry(key: Seq<char>, value: Seq<char>) -> (Seq<char>, MetadataValueView) {
    (key, MetadataValueView::String(encode_utf8(value)))
}

/// The metadata entries of a model card, in their order.
pub open spec fn card_entries(card: AddModelCardManifestView) -> Seq<
    (Seq<char>, MetadataValueView),
> {
    seq![
        text_entry("general.name"@, card.name),
        text_entry("general.author"@, card.author),
        text_entry("general.description"@, card.description),
        text_entry("general.license"@, card.license),
        text_entry("general.architecture"@, card.architecture),
    ]
}

impl AddModelCardTask {
    /// Reads the task from its table.
    pub fn new(manifest: &Vec<(String, ConfigValue)>) -> (result: Result<Self, PackError>)
        ensures
            match spec_model_card(manifest@) {
                Ok(card) => result matches Ok(task) && task.manifest@ == card,
                Err((fault, field)) => result matches Err(error) && error.reports(
                    fault,
                    Seq::empty(),
                    field,
                ),
            },
    {
        let name = get_text(manifest, "name")?;
        let author = get_text(manifest, "author")?;
        let description = get_text(manifest, "description")?;
        let license = get_text(manifest, "license")?;
        let architecture = get_text(manifest, "architecture")?;
        Ok(
            AddModelCardTask {
                manifest: AddModelCardManifest { name, author, description, license, architecture },
            },
        )
    }

    /// Adds the entries of the model card to the metadata. Tensors and
    /// cursor stay as they are.
    pub fn process(&self, ctx: &mut ProcessContext)
        ensures
            final(ctx).entries() == old(ctx).entries() + card_entries(self.manifest@),
            final(ctx).tensors == old(ctx).tensors,
            final(ctx).next_offset == old(ctx).next_offset,
    {
        let m = &self.manifest;
        ctx.push_metadata_str("general.name", m.name.as_str());
        ctx.push_metadata_str("general.author", m.author.as_str());
        ctx.push_metadata_str("general.description", m.description.as_str());
        ctx.push_metadata_str("general.license", m.license.as_str());
        ctx.push_metadata_str("general.architecture", m.architecture.as_str());
        assert(ctx.entries() =~= old(ctx).entries() + card_entries(self.manifest@));
    }
}

} // verus!
