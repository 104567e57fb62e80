//! A packaging run from start to end: the tasks are loaded, each does its
//! part of the header, the header is encoded, and each task writes its
//! payloads behind it.
use vstd::prelude::*;
use crate::config::ConfigValue;
use crate::error::{PackError, PackFault};
use crate::header::{Header, HeaderView, TensorInfo, TensorInfoView};
use crate::layout::spec_align;
use crate::metadata::MetadataValue;
use crate::numeric::{write_padding, zeros, ConvertTensorInfo, ConvertTensorInfoView};
use crate::safetensors::spec_read_header;
use crate::tasks::convert_safetensors::{
    conversion_views, spec_convert_all, tensors_written, ConvertSafetensorsManifest,
    ConvertSafetensorsTask,
};
use crate::tasks::context::{descriptors_laid_out, metadata_views, tensor_views};
use crate::tasks::{
    load, process, run_written, spec_load, spec_run, spec_write_run, write_tensors, SourceFile,
    TaskEntryView, TaskFault,
};
use crate::write::encode_header;

verus! {

/// The header that holds the given entries and descriptors.
pub open spec fn header_of(metadata: Seq<(String, MetadataValue)>, tensors: Seq<TensorInfo>)
    -> HeaderView {
    HeaderView { metadata: metadata_views(metadata), tensors: tensor_views(tensors) }
}

/// What a run makes, apart from the payloads themselves.
pub struct Packing {
    /// The header of the container.
    pub header: HeaderView,
    /// The layout of the header, with which the container starts.
    pub layout: Seq<u8>,
    /// The tasks after they planned their tensors.
    pub tasks: Seq<TaskEntryView>,
    /// Where the cursor stands behind the last tensor.
    pub cursor: u64,
    /// Where the tensor data starts in the container.
    pub data_start: u64,
    /// How long the container is.
    pub len: nat,
}

/// What a run over the given manifest and source files makes, or why it
/// makes nothing. The tasks are loaded in the order of the manifest; they do
/// their parts of the header one after the other; the header is laid out;
/// the tensor data starts at the next multiple of 32 bytes; and the tasks
/// write their payloads one after the other. The first fault ends the run.
pub open spec fn spec_pack(
    manifest: Seq<(String, Vec<(String, ConfigValue)>)>,
    sources: Seq<SourceFile>,
) -> Result<Packing, TaskFault> {
    match spec_load(manifest) {
        Err(fault) => Err(fault),
        Ok(loaded) => match spec_run(loaded, sources) {
            Err(fault) => Err(fault),
            Ok((state, tasks)) => {
                let header = HeaderView { metadata: state.entries, tensors: state.descriptors };
                match encode_header(header) {
                    Err(fault) => Err((PackFault::Encoding(fault), Seq::empty(), Seq::empty())),
                    Ok(layout) => if spec_align(layout.len()) > u64::MAX {
                        Err((PackFault::TensorTooLarge, Seq::empty(), Seq::empty()))
                    } else {
                        let data_start = spec_align(layout.len()) as u64;
                        match spec_write_run(tasks, layout.len(), data_start, sources) {
                            Err(fault) => Err(fault),
                            Ok(len) => Ok(
                                Packing {
                                    header,
                                    layout,
                                    tasks,
                                    cursor: state.cursor,
                                    data_start,
                                    len,
                                },
                            ),
                        }
                    },
                }
            },
        },
    }
}

/// Appends the header that holds the given entries and descriptors. After a
/// failure the output holds what was written before it.
pub fn write_header(
    target: &mut Vec<u8>,
    metadata: Vec<(String, MetadataValue)>,
    tensors: Vec<TensorInfo>,
) -> (result: Result<(), PackError>)
    ensures
        old(target)@.is_prefix_of(final(target)@),
        match encode_header(header_of(metadata@, tensors@)) {
            Ok(bytes) => result is Ok && final(target)@ == old(target)@ + bytes,
            Err(fault) => result matches Err(error) && error.reports(
                PackFault::Encoding(fault),
                Seq::empty(),
                Seq::empty(),
            ),
        },
{
    let header = Header { metadata, tensors };
    proof {
        assert(header@.metadata =~= metadata_views(metadata@));
        assert(header@.tensors =~= tensor_views(tensors@));
    }
    match crate::write::write_header(target, &header) {
        Ok(()) => Ok(()),
        Err(fault) => Err(PackError::of(PackFault::Encoding(fault))),
    }
}

/// Makes a container from a manifest and the source files that its tasks
/// name. The manifest gives the tasks by key, each with its table, in the
/// order in which they run. The container starts with the layout of the
/// header; its tensors are laid out from offset 0 on; and behind the header
/// the tasks put their payloads one after the other, each at its offset from
/// the start of the tensor data.
pub fn convert_from_manifest<F: Fn(u32) -> u16>(
    manifest: &Vec<(String, Vec<(String, ConfigValue)>)>,
    sources: &Vec<SourceFile>,
    narrow: &F,
) -> (result: Result<Vec<u8>, PackError>)
    requires
        forall|bits: u32| call_requires(narrow, (bits,)),
    ensures
        match spec_pack(manifest@, sources@) {
            Err((fault, key, item)) => result matches Err(error) && error.reports(
                fault,
                key,
                item,
            ),
            Ok(packing) => {
                &&& result matches Ok(output)
                &&& output@.len() == packing.len
                &&& packing.layout.is_prefix_of(output@)
                &&& descriptors_laid_out(packing.header.tensors, packing.cursor)
                &&& exists|marks: Seq<Seq<u8>>|
                    {
                        &&& #[trigger] run_written(
                            narrow,
                            marks,
                            packing.data_start,
                            packing.tasks,
                            sources@,
                        )
                        &&& marks.first() == packing.layout
                        &&& marks.last() == output@
                    }
            },
        },
{
    let mut tasks = load(manifest)?;
    let ghost loaded = crate::tasks::task_views(tasks@);
    let (metadata, tensors) = process(&mut tasks, sources)?;
    let ghost header = header_of(metadata@, tensors@);
    proof {
        let (state, _) = spec_run(loaded, sources@)->Ok_0;
        assert(header == HeaderView { metadata: state.entries, tensors: state.descriptors });
    }
    let mut output: Vec<u8> = Vec::new();
    write_header(&mut output, metadata, tensors)?;
    let ghost layout = output@;
    proof {
        assert(Seq::<u8>::empty() + layout =~= layout);
        assert(encode_header(header) == Ok::<Seq<u8>, crate::error::WriteError>(layout));
    }
    write_tensors(&tasks, sources, &mut output, narrow)?;
    proof {
        let packing = spec_pack(manifest@, sources@);
        assert(spec_run(loaded, sources@)->Ok_0.1 == crate::tasks::task_views(tasks@));
        assert(packing is Ok);
        assert(packing->Ok_0.tasks == crate::tasks::task_views(tasks@));
        assert(packing->Ok_0.data_start == spec_align(layout.len()));
    }
    Ok(output)
}

/// What a conversion of one tensor source into a container needs: the
/// metadata entries of the header, and the tensors with their places.
#[derive(Debug, PartialEq, Eq)]
pub struct ConvertInfo {
    pub metadata: Vec<(String, MetadataValue)>,
    pub tensors: Vec<ConvertTensorInfo>,
}

/// The descriptor of a tensor that is converted.
pub open spec fn descriptor_for(tensor: ConvertTensorInfoView) -> TensorInfoView {
    TensorInfoView {
        name: tensor.name,
        tensor_type: tensor.ty,
        dimensions: tensor.dimensions,
        offset: tensor.offset,
    }
}

/// The descriptors of the tensors that are converted, in their order.
pub open spec fn descriptors_for(tensors: Seq<ConvertTensorInfoView>) -> Seq<TensorInfoView> {
    Seq::new(tensors.len(), |index: int| descriptor_for(tensors[index]))
}

/// Adds a descriptor to the header for every tensor that is converted.
pub fn apply_header_tensors(header: &mut Header, info: &ConvertInfo)
    ensures
        final(header).metadata == old(header).metadata,
        tensor_views(final(header).tensors@) == tensor_views(old(header).tensors@)
            + descriptors_for(conversion_views(info.tensors@)),
{
    let ghost before = tensor_views(header.tensors@);
    let ghost wanted = descriptors_for(conversion_views(info.tensors@));
    let mut index: usize = 0;
    assert(tensor_views(header.tensors@) =~= before + wanted.take(0));
    while index < info.tensors.len()
        invariant
            index <= info.tensors@.len(),
            header.metadata == old(header).metadata,
            wanted == descriptors_for(conversion_views(info.tensors@)),
            tensor_views(header.tensors@) == before + wanted.take(index as int),
        decreases info.tensors@.len() - index,
    {
        let ghost earlier = header.tensors@;
        let tensor = &info.tensors[index];
        let descriptor = TensorInfo {
            name: tensor.name.clone(),
            tensor_type: tensor.ty,
            dimensions: tensor.dimensions,
            offset: tensor.offset,
        };
        header.tensors.push(descriptor);
        proof {
            assert(tensor_views(header.tensors@) =~= tensor_views(earlier).push(descriptor@));
            assert(before + wanted.take(index + 1) =~= (before + wanted.take(index as int)).push(
                wanted[index as int],
            ));
        }
        index = index + 1;
    }
    assert(wanted.take(index as int) =~= wanted);
}

/// Converts one tensor source into a container: appends the header with
/// the given entries and a descriptor for every tensor, pads the output to a
/// multiple of 32 bytes, where the tensor data starts, and puts the payload
/// of every tensor at its offset from there. After a failure the output
/// holds what was written before it.
pub fn convert<F: Fn(u32) -> u16>(
    output: &mut Vec<u8>,
    tensors_source_file: &[u8],
    info: ConvertInfo,
    narrow: &F,
) -> (result: Result<(), PackError>)
    requires
        forall|bits: u32| call_requires(narrow, (bits,)),
    ensures
        old(output)@.is_prefix_of(final(output)@),
        match encode_header(
            HeaderView {
                metadata: metadata_views(info.metadata@),
                tensors: descriptors_for(conversion_views(info.tensors@)),
            },
        ) {
            Err(fault) => result matches Err(error) && error.reports(
                PackFault::Encoding(fault),
                Seq::empty(),
                Seq::empty(),
            ),
            Ok(layout) => {
                let data_start = spec_align(old(output)@.len() + layout.len());
                let padded = old(output)@ + layout + zeros(
                    (data_start - old(output)@.len() - layout.len()) as nat,
                );
                match spec_read_header(tensors_source_file@) {
                    Err((fault, name)) => result matches Err(error) && error.reports(
                        fault,
                        Seq::empty(),
                        name,
                    ),
                    Ok(header) => match spec_convert_all(
                        data_start,
                        data_start as u64,
                        tensors_source_file@,
                        header,
                        conversion_views(info.tensors@),
                    ) {
                        Err((fault, name)) => result matches Err(error) && error.reports(
                            fault,
                            Seq::empty(),
                            name,
                        ),
                        Ok(end) => {
                            &&& result is Ok
                            &&& final(output)@.len() == end
                            &&& tensors_written(
                                narrow,
                                padded,
                                final(output)@,
                                data_start as u64,
                                tensors_source_file@,
                                header,
                                conversion_views(info.tensors@),
                            )
                        },
                    },
                }
            },
        },
{
    let mut header = Header { metadata: info.metadata, tensors: Vec::new() };
    let tensors = ConvertInfo { metadata: Vec::new(), tensors: info.tensors };
    apply_header_tensors(&mut header, &tensors);
    proof {
        assert(header@.metadata =~= metadata_views(info.metadata@));
        assert(header@.tensors =~= descriptors_for(conversion_views(info.tensors@)));
    }
    match crate::write::write_header(output, &header) {
        Ok(()) => {},
        Err(fault) => {
            return Err(PackError::of(PackFault::Encoding(fault)));
        },
    }
    let data_start = write_padding(output);
    let task = ConvertSafetensorsTask {
        manifest: ConvertSafetensorsManifest { source: String::new(), tensors: Vec::new() },
        tensors: tensors.tensors,
    };
    task.write_tensors(tensors_source_file, output, data_start, narrow)
}

} // verus!
