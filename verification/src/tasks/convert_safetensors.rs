//! The task that converts the tensors of a tensor source.
//!
//! Its table names the source file and, under `tensors`, the tensors to
//! make: each by its name in the container, with its name in the source, its
//! element type and its shape. A key that starts with `$` stands for a
//! group: `$0..12` holds a table of templates, and each template is made
//! once for every number of the range, with the number in place of every
//! `$` of its name and of its source name.
use vstd::prelude::*;
use vstd::slice::slice_to_vec;
use vstd::string::StrSliceExecFns;
use crate::config::{
    get_extent_list, get_table, get_text, spec_extent_list, spec_table, spec_text, ConfigValue,
    FieldFault,
};
use crate::dimensions::{lemma_dimensions_equal, TensorDimensions};
use crate::error::{PackError, PackFault};
use crate::header::{TensorInfoView, TensorType};
use crate::numeric::{
    convert_values, is_payload, lemma_payload_len, read_source_scalars, scalar_width,
    spec_read_source_scalars, write_scalars, zeros, ConvertTensorInfo, ConvertTensorInfoView,
};
use crate::layout::spec_align;
use crate::read::padded;
use crate::safetensors::{read_header, spec_read_header, StHeader, StHeaderView};
use crate::tasks::context::ProcessContext;
use crate::text::{
    copy_text, decimal, decimal_text, range_from, replace_placeholder, spec_parse_range,
    substitute,
};

verus! {

/// What a table says of one tensor.
#[derive(Debug, PartialEq, Eq)]
pub struct TensorManifest {
    /// The name of the tensor in the source.
    pub source: String,
    /// The element type in the container: `F16` or `F32`.
    pub ty: String,
    /// The extents, fastest-varying first.
    pub dimensions: Vec<u64>,
}

/// What a `TensorManifest` stands for.
pub struct TensorManifestView {
    pub source: Seq<char>,
    pub ty: Seq<char>,
    pub dimensions: Seq<u64>,
}

impl View for TensorManifest {
    type V = TensorManifestView;

    open spec fn view(&self) -> TensorManifestView {
        TensorManifestView { source: self.source@, ty: self.ty@, dimensions: self.dimensions@ }
    }
}

/// One tensor to make, after the groups were expanded.
#[derive(Debug, PartialEq, Eq)]
pub struct ExpandedTensor {
    /// The name of the tensor in the container.
    pub name: String,
    /// The name of the tensor in the source.
    pub source: String,
    /// What the table says of it.
    pub manifest: TensorManifest,
}

/// What an `ExpandedTensor` stands for.
pub struct ExpandedTensorView {
    pub name: Seq<char>,
    pub source: Seq<char>,
    pub manifest: TensorManifestView,
}

impl View for ExpandedTensor {
    type V = ExpandedTensorView;

    open spec fn view(&self) -> ExpandedTensorView {
        ExpandedTensorView { name: self.name@, source: self.source@, manifest: self.manifest@ }
    }
}

/// What each expanded tensor stands for.
pub open spec fn expanded_views(tensors: Seq<ExpandedTensor>) -> Seq<ExpandedTensorView> {
    Seq::new(tensors.len(), |index: int| tensors[index]@)
}

/// What each conversion stands for.
pub open spec fn conversion_views(tensors: Seq<ConvertTensorInfo>) -> Seq<ConvertTensorInfoView> {
    Seq::new(tensors.len(), |index: int| tensors[index]@)
}

/// The fields of a tensor conversion.
#[derive(Debug, PartialEq, Eq)]
pub struct ConvertSafetensorsManifest {
    /// The name of the tensor source file.
    pub source: String,
    /// The tensors to make, in the order of the table, groups expanded.
    pub tensors: Vec<ExpandedTensor>,
}

/// The task `convert-safetensors`.
#[derive(Debug, PartialEq, Eq)]
pub struct ConvertSafetensorsTask {
    pub manifest: ConvertSafetensorsManifest,
    /// The conversions that `process` has planned, in the order of the
    /// tensors.
    pub tensors: Vec<ConvertTensorInfo>,
}

/// What a `ConvertSafetensorsTask` stands for.
pub struct ConvertSafetensorsTaskView {
    /// The name of the tensor source file.
    pub source: Seq<char>,
    /// The tensors to make.
    pub wanted: Seq<ExpandedTensorView>,
    /// The conversions that were planned.
    pub planned: Seq<ConvertTensorInfoView>,
}

impl View for ConvertSafetensorsTask {
    type V = ConvertSafetensorsTaskView;

    open spec fn view(&self) -> ConvertSafetensorsTaskView {
        ConvertSafetensorsTaskView {
            source: self.manifest.source@,
            wanted: expanded_views(self.manifest.tensors@),
            planned: conversion_views(self.tensors@),
        }
    }
}

/// What a value says of one tensor. It has to be a table with a text under
/// `source`, a text under `type` and a list of whole numbers under
/// `dimensions`, which are looked at in that order.
pub open spec fn spec_tensor_manifest(value: ConfigValue) -> Result<TensorManifestView, PackFault> {
    match value {
        ConfigValue::Table(entries) => match spec_text(entries@, "source"@) {
            Err((fault, _)) => Err(fault),
            Ok(source) => match spec_text(entries@, "type"@) {
                Err((fault, _)) => Err(fault),
                Ok(ty) => match spec_extent_list(entries@, "dimensions"@) {
                    Err((fault, _)) => Err(fault),
                    Ok(dimensions) => Ok(TensorManifestView { source, ty, dimensions }),
                },
            },
        },
        _ => Err(PackFault::MistypedField),
    }
}

/// The tensor that a template gives for one number of its range.
pub open spec fn expansion(name: Seq<char>, manifest: TensorManifestView, number: nat)
    -> ExpandedTensorView {
    ExpandedTensorView {
        name: substitute(name, decimal(number)),
        source: substitute(manifest.source, decimal(number)),
        manifest,
    }
}

/// How many numbers a range holds.
pub open spec fn range_len(start: nat, end: nat) -> nat {
    if end > start {
        (end - start) as nat
    } else {
        0
    }
}

/// The tensors that a template gives for the numbers from `start` up to,
/// and without, `end`.
pub open spec fn expand_template(
    name: Seq<char>,
    manifest: TensorManifestView,
    start: nat,
    end: nat,
) -> Seq<ExpandedTensorView> {
    Seq::new(range_len(start, end), |offset: int| expansion(name, manifest, (start + offset) as nat))
}

/// The tensors of a group: those of its first template, then those of its
/// second, and so on. The first template of which the value is faulty is
/// reported by its name.
pub open spec fn spec_expand_group(group: Seq<(String, ConfigValue)>, start: nat, end: nat)
    -> Result<Seq<ExpandedTensorView>, FieldFault>
    decreases group.len(),
{
    if group.len() == 0 {
        Ok(Seq::empty())
    } else {
        match spec_expand_group(group.drop_last(), start, end) {
            Err(fault) => Err(fault),
            Ok(front) => match spec_tensor_manifest(group.last().1) {
                Err(fault) => Err((fault, group.last().0@)),
                Ok(manifest) => Ok(
                    front + expand_template(group.last().0@, manifest, start, end),
                ),
            },
        }
    }
}

/// Whether a key stands for a group.
pub open spec fn is_group(name: Seq<char>) -> bool {
    name.len() > 0 && name[0] == '$'
}

/// The tensors of one entry of the table: those of a group, or the one
/// tensor that the entry names.
pub open spec fn spec_expand_entry(name: Seq<char>, value: ConfigValue) -> Result<
    Seq<ExpandedTensorView>,
    FieldFault,
> {
    if is_group(name) {
        match spec_parse_range(name.skip(1)) {
            None => Err((PackFault::InvalidRange, name)),
            Some((start, end)) => match value {
                ConfigValue::Table(group) => spec_expand_group(group@, start as nat, end as nat),
                _ => Err((PackFault::InvalidGroup, name)),
            },
        }
    } else {
        match spec_tensor_manifest(value) {
            Err(fault) => Err((fault, name)),
            Ok(manifest) => Ok(
                seq![ExpandedTensorView { name, source: manifest.source, manifest }],
            ),
        }
    }
}

/// The tensors of a table, entry by entry in its order, or the first fault.
pub open spec fn spec_expand_tensors(tensors: Seq<(String, ConfigValue)>) -> Result<
    Seq<ExpandedTensorView>,
    FieldFault,
>
    decreases tensors.len(),
{
    if tensors.len() == 0 {
        Ok(Seq::empty())
    } else {
        match spec_expand_tensors(tensors.drop_last()) {
            Err(fault) => Err(fault),
            Ok(front) => match spec_expand_entry(tensors.last().0@, tensors.last().1) {
                Err(fault) => Err(fault),
                Ok(last) => Ok(front + last),
            },
        }
    }
}

/// The tensor conversion that a table holds: the source, then the tensors.
pub open spec fn spec_conversion(table: Seq<(String, ConfigValue)>) -> Result<
    (Seq<char>, Seq<ExpandedTensorView>),
    FieldFault,
> {
    match spec_text(table, "source"@) {
        Err(fault) => Err(fault),
        Ok(source) => match spec_table(table, "tensors"@) {
            Err(fault) => Err(fault),
            Ok(tensors) => match spec_expand_tensors(tensors) {
                Err(fault) => Err(fault),
                Ok(expanded) => Ok((source, expanded)),
            },
        },
    }
}

/// The element type that a name stands for: `F16` or `F32`.
pub open spec fn spec_tensor_type(name: Seq<char>) -> Option<TensorType> {
    if name == "F16"@ {
        Some(TensorType::F16)
    } else if name == "F32"@ {
        Some(TensorType::F32)
    } else {
        None
    }
}

/// Whether a shape holds a zero.
pub open spec fn has_zero(extents: Seq<u64>) -> bool {
    exists|index: int| 0 <= index < extents.len() && extents[index] == 0
}

/// What a tensor asks of the container: its element type, its dimensions,
/// and the number of bytes of its payload. The element type has to be F16 or
/// F32, the shape may have at most four extents and no zero, and the payload
/// has to be countable in 64 bits; these are checked in that order.
pub open spec fn spec_request(manifest: TensorManifestView) -> Result<
    (TensorType, TensorDimensions, u64),
    PackFault,
> {
    match spec_tensor_type(manifest.ty) {
        None => Err(PackFault::UnsupportedTensorType),
        Some(tensor_type) => if manifest.dimensions.len() > 4 {
            Err(PackFault::TooManyDimensions)
        } else if has_zero(manifest.dimensions) {
            Err(PackFault::ZeroDimension)
        } else {
            let dimensions = padded(manifest.dimensions);
            let size = dimensions.spec_total() * scalar_width(tensor_type);
            if size > u64::MAX {
                Err(PackFault::TensorTooLarge)
            } else {
                Ok((tensor_type, dimensions, size as u64))
            }
        },
    }
}

/// A group whose front part has a faulty template has no tensors, for the
/// reason of that part.
pub proof fn lemma_expand_group_error(
    group: Seq<(String, ConfigValue)>,
    start: nat,
    end: nat,
    front: nat,
)
    requires
        front <= group.len(),
        spec_expand_group(group.take(front as int), start, end) is Err,
    ensures
        spec_expand_group(group, start, end) == spec_expand_group(
            group.take(front as int),
            start,
            end,
        ),
    decreases group.len(),
{
    if front < group.len() {
        assert(group.drop_last().take(front as int) =~= group.take(front as int));
        lemma_expand_group_error(group.drop_last(), start, end, front);
    } else {
        assert(group.take(front as int) =~= group);
    }
}

/// A table whose front part has a faulty entry has no tensors, for the
/// reason of that part.
pub proof fn lemma_expand_tensors_error(tensors: Seq<(String, ConfigValue)>, front: nat)
    requires
        front <= tensors.len(),
        spec_expand_tensors(tensors.take(front as int)) is Err,
    ensures
        spec_expand_tensors(tensors) == spec_expand_tensors(tensors.take(front as int)),
    decreases tensors.len(),
{
    if front < tensors.len() {
        assert(tensors.drop_last().take(front as int) =~= tensors.take(front as int));
        lemma_expand_tensors_error(tensors.drop_last(), front);
    } else {
        assert(tensors.take(front as int) =~= tensors);
    }
}

/// Reads what a value says of one tensor.
pub fn read_tensor_manifest(value: &ConfigValue) -> (result: Result<TensorManifest, PackFault>)
    ensures
        match spec_tensor_manifest(*value) {
            Ok(manifest) => result matches Ok(read) && read@ == manifest,
            Err(fault) => result == Err::<TensorManifest, PackFault>(fault),
        },
{
    let entries = match value {
        ConfigValue::Table(entries) => entries,
        _ => {
            return Err(PackFault::MistypedField);
        },
    };
    let source = match get_text(entries, "source") {
        Ok(source) => source,
        Err(error) => {
            return Err(error.fault);
        },
    };
    let ty = match get_text(entries, "type") {
        Ok(ty) => ty,
        Err(error) => {
            return Err(error.fault);
        },
    };
    let dimensions = match get_extent_list(entries, "dimensions") {
        Ok(dimensions) => dimensions,
        Err(error) => {
            return Err(error.fault);
        },
    };
    Ok(TensorManifest { source, ty, dimensions })
}

/// A copy of what a table says of one tensor.
fn copy_manifest(manifest: &TensorManifest) -> (copy: TensorManifest)
    ensures
        copy@ == manifest@,
{
    TensorManifest {
        source: manifest.source.clone(),
        ty: manifest.ty.clone(),
        dimensions: slice_to_vec(manifest.dimensions.as_slice()),
    }
}

/// Appends the tensors that a template gives for the numbers of a range.
fn expand_one(
    values: &mut Vec<ExpandedTensor>,
    name: &str,
    manifest: &TensorManifest,
    start: u64,
    end: u64,
)
    ensures
        expanded_views(final(values)@) == expanded_views(old(values)@) + expand_template(
            name@,
            manifest@,
            start as nat,
            end as nat,
        ),
{
    let ghost before = expanded_views(values@);
    let mut number = start;
    assert(expanded_views(values@) =~= before + expand_template(
        name@,
        manifest@,
        start as nat,
        start as nat,
    ));
    while number < end
        invariant
            start <= number,
            start <= end ==> number <= end,
            end < start ==> number == start,
            expanded_views(values@) == before + expand_template(
                name@,
                manifest@,
                start as nat,
                number as nat,
            ),
        decreases end - number,
    {
        let ghost earlier = values@;
        let is = decimal_text(number);
        let target_name = replace_placeholder(name, is.as_str());
        let source_name = replace_placeholder(manifest.source.as_str(), is.as_str());
        let tensor = ExpandedTensor {
            name: target_name,
            source: source_name,
            manifest: copy_manifest(manifest),
        };
        values.push(tensor);
        proof {
            assert(expanded_views(values@) =~= expanded_views(earlier).push(
                expansion(name@, manifest@, number as nat),
            ));
            assert(expand_template(name@, manifest@, start as nat, (number + 1) as nat)
                =~= expand_template(name@, manifest@, start as nat, number as nat).push(
                expansion(name@, manifest@, number as nat),
            ));
            assert(expanded_views(values@) =~= before + expand_template(
                name@,
                manifest@,
                start as nat,
                (number + 1) as nat,
            ));
        }
        number = number + 1;
    }
    proof {
        if end < start {
            assert(number == start);
        }
        assert(expand_template(name@, manifest@, start as nat, number as nat)
            =~= expand_template(name@, manifest@, start as nat, end as nat));
    }
}

/// Appends the tensors of a group. After a failure `values` holds the
/// tensors of the templates before the faulty one as well.
fn expand_group(
    values: &mut Vec<ExpandedTensor>,
    group: &Vec<(String, ConfigValue)>,
    start: u64,
    end: u64,
) -> (result: Result<(), PackError>)
    ensures
        match spec_expand_group(group@, start as nat, end as nat) {
            Ok(tensors) => result is Ok && expanded_views(final(values)@) == expanded_views(
                old(values)@,
            ) + tensors,
            Err((fault, name)) => result matches Err(error) && error.reports(
                fault,
                Seq::empty(),
                name,
            ),
        },
{
    let ghost before = expanded_views(values@);
    let mut index: usize = 0;
    proof {
        assert(group@.take(0) =~= Seq::<(String, ConfigValue)>::empty());
        assert(before + Seq::<ExpandedTensorView>::empty() =~= before);
    }
    while index < group.len()
        invariant
            index <= group@.len(),
            spec_expand_group(group@.take(index as int), start as nat, end as nat) is Ok,
            expanded_views(values@) == before + spec_expand_group(
                group@.take(index as int),
                start as nat,
                end as nat,
            )->Ok_0,
        decreases group@.len() - index,
    {
        let ghost front = spec_expand_group(group@.take(index as int), start as nat, end as nat)->Ok_0;
        proof {
            assert(group@.take(index + 1).drop_last() =~= group@.take(index as int));
            assert(group@.take(index + 1).last() == group@[index as int]);
        }
        let name = group[index].0.as_str();
        let manifest = match read_tensor_manifest(&group[index].1) {
            Ok(manifest) => manifest,
            Err(fault) => {
                proof {
                    lemma_expand_group_error(
                        group@,
                        start as nat,
                        end as nat,
                        (index + 1) as nat,
                    );
                }
                return Err(PackError::about(fault, name));
            },
        };
        expand_one(values, name, &manifest, start, end);
        proof {
            assert(before + front + expand_template(name@, manifest@, start as nat, end as nat)
                =~= before + (front + expand_template(
                name@,
                manifest@,
                start as nat,
                end as nat,
            )));
        }
        index = index + 1;
    }
    proof {
        assert(group@.take(index as int) =~= group@);
    }
    Ok(())
}

/// Lists the tensors that a table asks for, entry by entry in its order,
/// with every group expanded.
pub fn expand_tensors(tensors: &Vec<(String, ConfigValue)>) -> (result: Result<
    Vec<ExpandedTensor>,
    PackError,
>)
    ensures
        match spec_expand_tensors(tensors@) {
            Ok(expanded) => result matches Ok(values) && expanded_views(values@) == expanded,
            Err((fault, name)) => result matches Err(error) && error.reports(
                fault,
                Seq::empty(),
                name,
            ),
        },
{
    let mut values: Vec<ExpandedTensor> = Vec::new();
    let mut index: usize = 0;
    proof {
        assert(tensors@.take(0) =~= Seq::<(String, ConfigValue)>::empty());
        assert(expanded_views(values@) =~= Seq::<ExpandedTensorView>::empty());
    }
    while index < tensors.len()
        invariant
            index <= tensors@.len(),
            spec_expand_tensors(tensors@.take(index as int)) == Ok::<
                Seq<ExpandedTensorView>,
                FieldFault,
            >(expanded_views(values@)),
        decreases tensors@.len() - index,
    {
        let ghost front = expanded_views(values@);
        proof {
            assert(tensors@.take(index + 1).drop_last() =~= tensors@.take(index as int));
            assert(tensors@.take(index + 1).last() == tensors@[index as int]);
        }
        let name = tensors[index].0.as_str();
        let value = &tensors[index].1;
        if name.unicode_len() > 0 && name.get_char(0) == '$' {
            let (start, end) = match range_from(name, 1) {
                Some(range) => range,
                None => {
                    proof {
                        lemma_expand_tensors_error(tensors@, (index + 1) as nat);
                    }
                    return Err(PackError::about(PackFault::InvalidRange, name));
                },
            };
            let group = match value {
                ConfigValue::Table(group) => group,
                _ => {
                    proof {
                        lemma_expand_tensors_error(tensors@, (index + 1) as nat);
                    }
                    return Err(PackError::about(PackFault::InvalidGroup, name));
                },
            };
            match expand_group(&mut values, group, start, end) {
                Ok(()) => {},
                Err(error) => {
                    proof {
                        lemma_expand_tensors_error(tensors@, (index + 1) as nat);
                    }
                    return Err(error);
                },
            }
        } else {
            let manifest = match read_tensor_manifest(value) {
                Ok(manifest) => manifest,
                Err(fault) => {
                    proof {
                        lemma_expand_tensors_error(tensors@, (index + 1) as nat);
                    }
                    return Err(PackError::about(fault, name));
                },
            };
            let tensor = ExpandedTensor {
                name: copy_text(name),
                source: manifest.source.clone(),
                manifest,
            };
            values.push(tensor);
            proof {
                assert(expanded_views(values@) =~= front + seq![tensor@]);
            }
        }
        index = index + 1;
    }
    proof {
        assert(tensors@.take(index as int) =~= tensors@);
    }
    Ok(values)
}

/// The descriptor of a tensor that was asked for and placed at `offset`.
pub open spec fn descriptor_of(tensor: ExpandedTensorView, offset: u64) -> TensorInfoView {
    TensorInfoView {
        name: tensor.name,
        tensor_type: spec_request(tensor.manifest)->Ok_0.0,
        dimensions: spec_request(tensor.manifest)->Ok_0.1,
        offset,
    }
}

/// The conversion of a tensor that was asked for and placed at `offset`.
pub open spec fn conversion_of(tensor: ExpandedTensorView, offset: u64) -> ConvertTensorInfoView {
    ConvertTensorInfoView {
        name: tensor.name,
        source: tensor.source,
        dimensions: spec_request(tensor.manifest)->Ok_0.1,
        offset,
        ty: spec_request(tensor.manifest)->Ok_0.0,
    }
}

/// Whether the payload of a tensor was put behind `before`, which gave
/// `after`: the file has the scalars of the tensor, `before` padded to a
/// multiple of 32 bytes ends where the offset of the tensor points, and
/// `after` is `before`, the padding, and a payload of the scalars.
pub open spec fn tensor_written<F: Fn(u32) -> u16>(
    narrow: &F,
    before: Seq<u8>,
    after: Seq<u8>,
    data_start: u64,
    file: Seq<u8>,
    header: StHeaderView,
    tensor: ConvertTensorInfoView,
) -> bool {
    &&& spec_read_source_scalars(file, header, tensor) is Ok
    &&& spec_align(before.len()) == data_start + tensor.offset
    &&& exists|data: Seq<u8>|
        {
            &&& is_payload(
                narrow,
                tensor.ty,
                spec_read_source_scalars(file, header, tensor)->Ok_0,
                data,
            )
            &&& #[trigger] (before + zeros((data_start + tensor.offset - before.len()) as nat)
                + data) == after
        }
}

/// Whether `marks` are the stages of an output that took the payloads of the
/// given tensors one after the other: one stage before each tensor and one
/// after the last.
pub open spec fn stages<F: Fn(u32) -> u16>(
    narrow: &F,
    marks: Seq<Seq<u8>>,
    data_start: u64,
    file: Seq<u8>,
    header: StHeaderView,
    tensors: Seq<ConvertTensorInfoView>,
) -> bool {
    &&& marks.len() == tensors.len() + 1
    &&& forall|index: int|
        0 <= index < tensors.len() ==> tensor_written(
            narrow,
            #[trigger] marks[index],
            marks[index + 1],
            data_start,
            file,
            header,
            tensors[index],
        )
}

/// Whether the payloads of the given tensors were put behind `before` one
/// after the other, which gave `after`.
pub open spec fn tensors_written<F: Fn(u32) -> u16>(
    narrow: &F,
    before: Seq<u8>,
    after: Seq<u8>,
    data_start: u64,
    file: Seq<u8>,
    header: StHeaderView,
    tensors: Seq<ConvertTensorInfoView>,
) -> bool {
    exists|marks: Seq<Seq<u8>>|
        {
            &&& #[trigger] stages(narrow, marks, data_start, file, header, tensors)
            &&& marks.first() == before
            &&& marks.last() == after
        }
}

/// A fault and the tensor that has it.
pub type TensorFault = (PackFault, Seq<char>);

/// How long the output is after the payload of a tensor was put behind
/// `before` bytes, or why it cannot be put there: the scalars cannot be
/// read, the element type is not one that is produced, or the output padded
/// to a multiple of 32 bytes does not end where the offset points. These are
/// looked at in that order.
pub open spec fn spec_convert_end(
    before: nat,
    data_start: u64,
    file: Seq<u8>,
    header: StHeaderView,
    tensor: ConvertTensorInfoView,
) -> Result<nat, PackFault> {
    match spec_read_source_scalars(file, header, tensor) {
        Err(fault) => Err(fault),
        Ok(scalars) => if tensor.ty != TensorType::F16 && tensor.ty != TensorType::F32 {
            Err(PackFault::UnsupportedTensorType)
        } else if spec_align(before) != data_start + tensor.offset {
            Err(PackFault::LayoutInvariantViolation)
        } else {
            Ok((data_start + tensor.offset + scalars.len() * scalar_width(tensor.ty)) as nat)
        },
    }
}

/// How long the output is after the payloads of the given tensors were put
/// behind `before` bytes one after the other, or the first tensor that
/// cannot be put there and why.
pub open spec fn spec_convert_all(
    before: nat,
    data_start: u64,
    file: Seq<u8>,
    header: StHeaderView,
    tensors: Seq<ConvertTensorInfoView>,
) -> Result<nat, TensorFault>
    decreases tensors.len(),
{
    if tensors.len() == 0 {
        Ok(before)
    } else {
        match spec_convert_all(before, data_start, file, header, tensors.drop_last()) {
            Err(fault) => Err(fault),
            Ok(middle) => match spec_convert_end(
                middle,
                data_start,
                file,
                header,
                tensors.last(),
            ) {
                Ok(end) => Ok(end),
                Err(fault) => Err((fault, tensors.last().name)),
            },
        }
    }
}

/// Tensors of which a front part cannot be converted cannot be converted,
/// for the reason of that part.
pub proof fn lemma_convert_all_error(
    before: nat,
    data_start: u64,
    file: Seq<u8>,
    header: StHeaderView,
    tensors: Seq<ConvertTensorInfoView>,
    front: nat,
)
    requires
        front <= tensors.len(),
        spec_convert_all(before, data_start, file, header, tensors.take(front as int)) is Err,
    ensures
        spec_convert_all(before, data_start, file, header, tensors) == spec_convert_all(
            before,
            data_start,
            file,
            header,
            tensors.take(front as int),
        ),
    decreases tensors.len(),
{
    if front < tensors.len() {
        assert(tensors.drop_last().take(front as int) =~= tensors.take(front as int));
        lemma_convert_all_error(before, data_start, file, header, tensors.drop_last(), front);
    } else {
        assert(tensors.take(front as int) =~= tensors);
    }
}

/// Reads the scalars of a tensor from its source, converts them, and puts
/// the payload in the output at the offset of the tensor.
pub fn convert_tensor<F: Fn(u32) -> u16>(
    target: &mut Vec<u8>,
    data_start: u64,
    source_file: &[u8],
    source_header: &StHeader,
    tensor: &ConvertTensorInfo,
    narrow: &F,
) -> (result: Result<(), PackError>)
    requires
        forall|bits: u32| call_requires(narrow, (bits,)),
    ensures
        old(target)@.is_prefix_of(final(target)@),
        match spec_convert_end(
            old(target)@.len(),
            data_start,
            source_file@,
            source_header@,
            tensor@,
        ) {
            Err(fault) => result matches Err(error) && error.reports(
                fault,
                Seq::empty(),
                tensor.name@,
            ),
            Ok(end) => {
                &&& result is Ok
                &&& final(target)@.len() == end
                &&& tensor_written(
                    narrow,
                    old(target)@,
                    final(target)@,
                    data_start,
                    source_file@,
                    source_header@,
                    tensor@,
                )
            },
        },
{
    let scalars = read_source_scalars(source_file, source_header, tensor)?;
    let data = match convert_values(tensor.ty, &scalars, narrow) {
        Some(data) => data,
        None => {
            return Err(
                PackError::about(PackFault::UnsupportedTensorType, tensor.name.as_str()),
            );
        },
    };
    let written = write_scalars(target, data_start, tensor, &data);
    proof {
        lemma_payload_len(narrow, tensor.ty, scalars@, data@);
        if written is Ok {
            assert(old(target)@ + zeros((data_start + tensor.offset - old(target)@.len()) as nat)
                + data@ == target@);
        }
    }
    written
}

impl ConvertSafetensorsTask {
    /// Reads the task from its table and lists the tensors that it asks
    /// for. Nothing is planned yet.
    pub fn new(manifest: &Vec<(String, ConfigValue)>) -> (result: Result<Self, PackError>)
        ensures
            match spec_conversion(manifest@) {
                Ok((source, tensors)) => {
                    &&& result matches Ok(task)
                    &&& task.manifest.source@ == source
                    &&& expanded_views(task.manifest.tensors@) == tensors
                    &&& task.tensors@.len() == 0
                },
                Err((fault, name)) => result matches Err(error) && error.reports(
                    fault,
                    Seq::empty(),
                    name,
                ),
            },
    {
        let source = get_text(manifest, "source")?;
        let table = get_table(manifest, "tensors")?;
        let tensors = expand_tensors(table)?;
        Ok(
            ConvertSafetensorsTask {
                manifest: ConvertSafetensorsManifest { source, tensors },
                tensors: Vec::new(),
            },
        )
    }

    /// The element type that a name stands for.
    fn tensor_type(name: &String) -> (ty: Option<TensorType>)
        ensures
            ty == spec_tensor_type(name@),
    {
        if *name == copy_text("F16") {
            Some(TensorType::F16)
        } else if *name == copy_text("F32") {
            Some(TensorType::F32)
        } else {
            None
        }
    }

    /// Works out what a tensor asks of the container.
    pub fn request(manifest: &TensorManifest) -> (result: Result<
        (TensorType, TensorDimensions, u64),
        PackFault,
    >)
        ensures
            result == spec_request(manifest@),
            result matches Ok(request) ==> request.1.well_formed() && request.2
                == request.1.spec_total() * scalar_width(request.0),
    {
        let (tensor_type, scalar_size) = match Self::tensor_type(&manifest.ty) {
            Some(TensorType::F16) => (TensorType::F16, 2u64),
            Some(TensorType::F32) => (TensorType::F32, 4u64),
            _ => {
                return Err(PackFault::UnsupportedTensorType);
            },
        };
        let extents = &manifest.dimensions;
        let count = extents.len();
        if count > 4 {
            return Err(PackFault::TooManyDimensions);
        }
        let mut index: usize = 0;
        while index < count
            invariant
                index <= count == extents@.len(),
                count <= 4,
                extents@ == manifest@.dimensions,
                spec_tensor_type(manifest@.ty) == Some(tensor_type),
                forall|at: int| 0 <= at < index ==> extents@[at] != 0,
            decreases count - index,
        {
            if extents[index] == 0 {
                assert(has_zero(extents@));
                return Err(PackFault::ZeroDimension);
            }
            index = index + 1;
        }
        let first = if count > 0 {
            extents[0]
        } else {
            0
        };
        let second = if count > 1 {
            extents[1]
        } else {
            0
        };
        let third = if count > 2 {
            extents[2]
        } else {
            0
        };
        let fourth = if count > 3 {
            extents[3]
        } else {
            0
        };
        let dimensions = TensorDimensions([first, second, third, fourth]);
        proof {
            assert(dimensions.slots() =~= padded(extents@).slots());
            lemma_dimensions_equal(dimensions, padded(extents@));
        }
        let scalars = match dimensions.checked_total() {
            Some(scalars) => scalars,
            None => {
                proof {
                    let total = dimensions.spec_total();
                    let width = scalar_width(tensor_type);
                    assert(total * width >= total) by (nonlinear_arith)
                        requires
                            width >= 1,
                    ;
                }
                return Err(PackFault::TensorTooLarge);
            },
        };
        match scalars.checked_mul(scalar_size) {
            Some(size) => Ok((tensor_type, dimensions, size)),
            None => Err(PackFault::TensorTooLarge),
        }
    }

    /// Plans one tensor: adds its descriptor to the context at the cursor,
    /// moves the cursor past its payload, and notes the conversion.
    pub fn prepare_tensor(
        &mut self,
        ctx: &mut ProcessContext,
        manifest: &TensorManifest,
        target_name: String,
        source_name: String,
    ) -> (result: Result<(), PackError>)
        requires
            old(ctx).laid_out(),
        ensures
            final(ctx).laid_out(),
            final(ctx).metadata == old(ctx).metadata,
            final(self).manifest == old(self).manifest,
            match spec_request(manifest@) {
                Err(fault) => {
                    &&& result matches Err(error) && error.reports(
                        fault,
                        Seq::empty(),
                        target_name@,
                    )
                    &&& *final(ctx) == *old(ctx)
                    &&& final(self).tensors == old(self).tensors
                },
                Ok((tensor_type, dimensions, size)) => if crate::layout::spec_advance(
                    old(ctx).next_offset as nat,
                    size as nat,
                ) > u64::MAX {
                    &&& result matches Err(error) && error.reports(
                        PackFault::TensorTooLarge,
                        Seq::empty(),
                        target_name@,
                    )
                    &&& *final(ctx) == *old(ctx)
                    &&& final(self).tensors == old(self).tensors
                } else {
                    &&& result is Ok
                    &&& final(ctx).descriptors() == old(ctx).descriptors().push(
                        TensorInfoView {
                            name: target_name@,
                            tensor_type,
                            dimensions,
                            offset: old(ctx).next_offset,
                        },
                    )
                    &&& final(ctx).next_offset == crate::layout::spec_advance(
                        old(ctx).next_offset as nat,
                        size as nat,
                    )
                    &&& conversion_views(final(self).tensors@) == conversion_views(
                        old(self).tensors@,
                    ).push(
                        ConvertTensorInfoView {
                            name: target_name@,
                            source: source_name@,
                            dimensions,
                            offset: old(ctx).next_offset,
                            ty: tensor_type,
                        },
                    )
                },
            },
    {
        let (tensor_type, dimensions, size) = match Self::request(manifest) {
            Ok(request) => request,
            Err(fault) => {
                return Err(PackError::about(fault, target_name.as_str()));
            },
        };
        let offset = match ctx.push_tensor(target_name.as_str(), tensor_type, dimensions) {
            Some(offset) => offset,
            None => {
                return Err(PackError::about(PackFault::TensorTooLarge, target_name.as_str()));
            },
        };
        let ghost before = self.tensors@;
        let tensor_info = ConvertTensorInfo {
            name: target_name,
            source: source_name,
            dimensions,
            offset,
            ty: tensor_type,
        };
        self.tensors.push(tensor_info);
        proof {
            assert(conversion_views(self.tensors@) =~= conversion_views(before).push(
                tensor_info@,
            ));
        }
        Ok(())
    }
}

/// A plan: the descriptors and the conversions of the tensors that were
/// planned, and where the cursor stands behind them.
pub struct Plan {
    pub descriptors: Seq<TensorInfoView>,
    pub conversions: Seq<ConvertTensorInfoView>,
    pub cursor: u64,
}

/// A fault and the tensor that has it.
pub type PlanFault = (PackFault, Seq<char>);

/// The plan for the tensors that were asked for, one after the other from
/// the cursor on: each is placed at the cursor, and the cursor moves past its
/// payload and up to the next multiple of 32. The first tensor of which the
/// request is faulty, or behind which the cursor would leave the range of
/// 64 bits, is reported.
pub open spec fn spec_plan(wanted: Seq<ExpandedTensorView>, cursor: u64) -> Result<Plan, PlanFault>
    decreases wanted.len(),
{
    if wanted.len() == 0 {
        Ok(Plan { descriptors: Seq::empty(), conversions: Seq::empty(), cursor })
    } else {
        match spec_plan(wanted.drop_last(), cursor) {
            Err(fault) => Err(fault),
            Ok(front) => match spec_request(wanted.last().manifest) {
                Err(fault) => Err((fault, wanted.last().name)),
                Ok((_, _, size)) => if crate::layout::spec_advance(
                    front.cursor as nat,
                    size as nat,
                ) > u64::MAX {
                    Err((PackFault::TensorTooLarge, wanted.last().name))
                } else {
                    Ok(
                        Plan {
                            descriptors: front.descriptors.push(
                                descriptor_of(wanted.last(), front.cursor),
                            ),
                            conversions: front.conversions.push(
                                conversion_of(wanted.last(), front.cursor),
                            ),
                            cursor: crate::layout::spec_advance(
                                front.cursor as nat,
                                size as nat,
                            ) as u64,
                        },
                    )
                },
            },
        }
    }
}

/// Tensors whose front part cannot be planned cannot be planned, for the
/// reason of that part.
pub proof fn lemma_plan_error(wanted: Seq<ExpandedTensorView>, cursor: u64, front: nat)
    requires
        front <= wanted.len(),
        spec_plan(wanted.take(front as int), cursor) is Err,
    ensures
        spec_plan(wanted, cursor) == spec_plan(wanted.take(front as int), cursor),
    decreases wanted.len(),
{
    if front < wanted.len() {
        assert(wanted.drop_last().take(front as int) =~= wanted.take(front as int));
        lemma_plan_error(wanted.drop_last(), cursor, front);
    } else {
        assert(wanted.take(front as int) =~= wanted);
    }
}

impl ConvertSafetensorsTask {
    /// Plans every tensor that the task asks for, in their order: the
    /// descriptors go to the context, the conversions are kept in the task.
    /// After a failure both hold the tensors before the faulty one.
    pub fn process(&mut self, ctx: &mut ProcessContext) -> (result: Result<(), PackError>)
        requires
            old(ctx).laid_out(),
        ensures
            final(ctx).laid_out(),
            final(ctx).metadata == old(ctx).metadata,
            final(self).manifest == old(self).manifest,
            match spec_plan(expanded_views(old(self).manifest.tensors@), old(ctx).next_offset) {
                Ok(plan) => {
                    &&& result is Ok
                    &&& final(ctx).descriptors() == old(ctx).descriptors() + plan.descriptors
                    &&& conversion_views(final(self).tensors@) == conversion_views(
                        old(self).tensors@,
                    ) + plan.conversions
                    &&& final(ctx).next_offset == plan.cursor
                },
                Err((fault, name)) => result matches Err(error) && error.reports(
                    fault,
                    Seq::empty(),
                    name,
                ),
            },
    {
        let ghost wanted = expanded_views(self.manifest.tensors@);
        let ghost descriptors_before = ctx.descriptors();
        let ghost conversions_before = conversion_views(self.tensors@);
        let ghost start = ctx.next_offset;
        let count = self.manifest.tensors.len();
        let mut index: usize = 0;
        proof {
            assert(wanted.take(0) =~= Seq::<ExpandedTensorView>::empty());
            assert(descriptors_before + Seq::<TensorInfoView>::empty() =~= descriptors_before);
            assert(conversions_before + Seq::<ConvertTensorInfoView>::empty()
                =~= conversions_before);
        }
        while index < count
            invariant
                index <= count == wanted.len(),
                ctx.laid_out(),
                ctx.metadata == old(ctx).metadata,
                self.manifest == old(self).manifest,
                wanted == expanded_views(self.manifest.tensors@),
                start == old(ctx).next_offset,
                spec_plan(wanted.take(index as int), start) is Ok,
                ctx.descriptors() == descriptors_before + spec_plan(
                    wanted.take(index as int),
                    start,
                )->Ok_0.descriptors,
                conversion_views(self.tensors@) == conversions_before + spec_plan(
                    wanted.take(index as int),
                    start,
                )->Ok_0.conversions,
                ctx.next_offset == spec_plan(wanted.take(index as int), start)->Ok_0.cursor,
            decreases count - index,
        {
            let manifest = copy_manifest(&self.manifest.tensors[index].manifest);
            let target_name = self.manifest.tensors[index].name.clone();
            let source_name = self.manifest.tensors[index].source.clone();
            proof {
                assert(wanted.take(index + 1).drop_last() =~= wanted.take(index as int));
                assert(wanted.take(index + 1).last() == wanted[index as int]);
            }
            match self.prepare_tensor(ctx, &manifest, target_name, source_name) {
                Ok(()) => {},
                Err(error) => {
                    proof {
                        lemma_plan_error(wanted, start, (index + 1) as nat);
                    }
                    return Err(error);
                },
            }
            proof {
                let next = spec_plan(wanted.take(index + 1), start)->Ok_0;
                assert(ctx.descriptors() =~= descriptors_before + next.descriptors);
                assert(conversion_views(self.tensors@) =~= conversions_before
                    + next.conversions);
            }
            index = index + 1;
        }
        proof {
            assert(wanted.take(index as int) =~= wanted);
        }
        Ok(())
    }

    /// Converts every tensor that was planned and puts the payloads in the
    /// output, each at its offset from `data_start`. After a failure the
    /// output holds what was written before it.
    pub fn write_tensors<F: Fn(u32) -> u16>(
        &self,
        source_file: &[u8],
        output: &mut Vec<u8>,
        data_start: u64,
        narrow: &F,
    ) -> (result: Result<(), PackError>)
        requires
            forall|bits: u32| call_requires(narrow, (bits,)),
        ensures
            old(output)@.is_prefix_of(final(output)@),
            match spec_read_header(source_file@) {
                Err((fault, name)) => {
                    &&& result matches Err(error) && error.reports(fault, Seq::empty(), name)
                    &&& final(output)@ == old(output)@
                },
                Ok(header) => match spec_convert_all(
                    old(output)@.len(),
                    data_start,
                    source_file@,
                    header,
                    conversion_views(self.tensors@),
                ) {
                    Ok(end) => {
                        &&& result is Ok
                        &&& final(output)@.len() == end
                        &&& tensors_written(
                            narrow,
                            old(output)@,
                            final(output)@,
                            data_start,
                            source_file@,
                            header,
                            conversion_views(self.tensors@),
                        )
                    },
                    Err((fault, name)) => result matches Err(error) && error.reports(
                        fault,
                        Seq::empty(),
                        name,
                    ),
                },
            },
    {
        let source_header = read_header(source_file)?;
        let ghost tensors = conversion_views(self.tensors@);
        let ghost marks = seq![output@];
        let mut index: usize = 0;
        while index < self.tensors.len()
            invariant
                forall|bits: u32| call_requires(narrow, (bits,)),
                index <= self.tensors@.len(),
                tensors == conversion_views(self.tensors@),
                spec_read_header(source_file@) == Ok::<
                    StHeaderView,
                    crate::safetensors::SourceFault,
                >(source_header@),
                old(output)@.is_prefix_of(output@),
                spec_convert_all(
                    old(output)@.len(),
                    data_start,
                    source_file@,
                    source_header@,
                    tensors.take(index as int),
                ) == Ok::<nat, TensorFault>(output@.len()),
                stages(
                    narrow,
                    marks,
                    data_start,
                    source_file@,
                    source_header@,
                    tensors.take(index as int),
                ),
                marks.first() == old(output)@,
                marks.last() == output@,
            decreases self.tensors@.len() - index,
        {
            proof {
                assert(tensors.take(index + 1).drop_last() =~= tensors.take(index as int));
                assert(tensors.take(index + 1).last() == tensors[index as int]);
            }
            match convert_tensor(
                output,
                data_start,
                source_file,
                &source_header,
                &self.tensors[index],
                narrow,
            ) {
                Ok(()) => {
                    proof {
                        let longer = marks.push(output@);
                        assert forall|at: int| 0 <= at < index + 1 implies tensor_written(
                            narrow,
                            #[trigger] longer[at],
                            longer[at + 1],
                            data_start,
                            source_file@,
                            source_header@,
                            tensors.take(index + 1)[at],
                        ) by {
                            if at < index {
                                assert(longer[at] == marks[at]);
                                assert(longer[at + 1] == marks[at + 1]);
                                assert(tensors.take(index as int)[at] == tensors.take(
                                    index + 1,
                                )[at]);
                            }
                        }
                        marks = longer;
                    }
                },
                Err(error) => {
                    proof {
                        lemma_convert_all_error(
                            old(output)@.len(),
                            data_start,
                            source_file@,
                            source_header@,
                            tensors,
                            (index + 1) as nat,
                        );
                    }
                    return Err(error);
                },
            }
            index = index + 1;
        }
        proof {
            assert(tensors.take(index as int) =~= tensors);
        }
        Ok(())
    }
}

} // verus!
