//! The tasks of a packaging run: loading them from their tables, letting
//! each contribute to the header, and letting each write its payloads.
pub mod add_model_card;
pub mod add_model_config;
pub mod context;
pub mod convert_rwkv_tokenizer;
pub mod convert_safetensors;

use vstd::prelude::*;
use crate::config::{get, spec_get, ConfigValue};
use crate::error::{PackError, PackFault};
use crate::header::{TensorInfo, TensorInfoView};
use crate::layout::{checked_align_offset, spec_align};
use crate::metadata::{MetadataValue, MetadataValueView};
use crate::safetensors::spec_read_header;
use crate::tasks::add_model_card::{
    card_entries, spec_model_card, AddModelCardManifestView, AddModelCardTask,
};
use crate::tasks::add_model_config::{
    config_entries, spec_model_config, AddModelConfigManifestView, AddModelConfigTask,
};
use crate::tasks::context::{descriptors_laid_out, metadata_views, tensor_views, ProcessContext};
use crate::tasks::convert_rwkv_tokenizer::{
    spec_tokenizer, spec_tokenizer_entries, ConvertRwkvTokenizerManifestView,
    ConvertRwkvTokenizerTask,
};
use crate::tasks::convert_safetensors::{
    spec_conversion, spec_convert_all, spec_plan, tensors_written, ConvertSafetensorsTask,
    ConvertSafetensorsTaskView,
};
use crate::text::copy_text;

verus! {

/// A task of one of the four kinds.
#[derive(Debug, PartialEq, Eq)]
pub enum PackTask {
    AddModelCard(AddModelCardTask),
    AddModelConfig(AddModelConfigTask),
    ConvertRwkvTokenizer(ConvertRwkvTokenizerTask),
    ConvertSafetensors(ConvertSafetensorsTask),
}

/// What a `PackTask` stands for.
pub enum PackTaskView {
    AddModelCard(AddModelCardManifestView),
    AddModelConfig(AddModelConfigManifestView),
    ConvertRwkvTokenizer(ConvertRwkvTokenizerManifestView),
    ConvertSafetensors(ConvertSafetensorsTaskView),
}

impl View for PackTask {
    type V = PackTaskView;

    open spec fn view(&self) -> PackTaskView {
        match self {
            PackTask::AddModelCard(task) => PackTaskView::AddModelCard(task@),
            PackTask::AddModelConfig(task) => PackTaskView::AddModelConfig(task@),
            PackTask::ConvertRwkvTokenizer(task) => PackTaskView::ConvertRwkvTokenizer(task@),
            PackTask::ConvertSafetensors(task) => PackTaskView::ConvertSafetensors(task@),
        }
    }
}

/// A task as it was loaded.
#[derive(Debug, PartialEq, Eq)]
pub struct TaskEntry {
    /// The key under which the manifest holds the task.
    pub key: String,
    /// The name of the kind of the task.
    pub name: String,
    /// The task itself.
    pub task: PackTask,
}

/// What a `TaskEntry` stands for.
pub struct TaskEntryView {
    pub key: Seq<char>,
    pub name: Seq<char>,
    pub task: PackTaskView,
}

impl View for TaskEntry {
    type V = TaskEntryView;

    open spec fn view(&self) -> TaskEntryView {
        TaskEntryView { key: self.key@, name: self.name@, task: self.task@ }
    }
}

/// What each task stands for.
pub open spec fn task_views(tasks: Seq<TaskEntry>) -> Seq<TaskEntryView> {
    Seq::new(tasks.len(), |index: int| tasks[index]@)
}

/// A source file that was read for the run.
#[derive(Debug, PartialEq, Eq)]
pub struct SourceFile {
    /// The name by which tasks ask for the file.
    pub name: String,
    /// What the file holds.
    pub content: Vec<u8>,
}

/// A fault and the field, tensor or entry that has it.
pub type ItemFault = (PackFault, Seq<char>);

/// A fault, the key of the task in which it came up, and the item that has
/// it.
pub type TaskFault = (PackFault, Seq<char>, Seq<char>);

/// The content of the first source file with the given name.
pub open spec fn spec_find_source(sources: Seq<SourceFile>, name: Seq<char>) -> Option<Seq<u8>>
    decreases sources.len(),
{
    if sources.len() == 0 {
        None
    } else if sources[0].name@ == name {
        Some(sources[0].content@)
    } else {
        spec_find_source(sources.drop_first(), name)
    }
}

/// The name of the kind of a task, as its table gives it under `task`.
pub open spec fn spec_task_name(table: Seq<(String, ConfigValue)>) -> Option<Seq<char>> {
    match spec_get(table, "task"@) {
        Some(ConfigValue::String(name)) => Some(name@),
        _ => None,
    }
}

/// The task of one of the four kinds that a table holds, or why it holds
/// none: it names no kind under `task`, it names a kind that is not known, or
/// it lacks what its kind requires. A tensor conversion has nothing planned
/// when it is loaded.
pub open spec fn spec_load_kind(table: Seq<(String, ConfigValue)>) -> Result<
    PackTaskView,
    ItemFault,
> {
    match spec_task_name(table) {
        None => Err((PackFault::MissingTaskType, "task"@)),
        Some(name) => if name == "add-model-card"@ {
            match spec_model_card(table) {
                Ok(card) => Ok(PackTaskView::AddModelCard(card)),
                Err(fault) => Err(fault),
            }
        } else if name == "add-model-config"@ {
            match spec_model_config(table) {
                Ok(config) => Ok(PackTaskView::AddModelConfig(config)),
                Err(fault) => Err(fault),
            }
        } else if name == "convert-rwkv-tokenizer"@ {
            match spec_tokenizer(table) {
                Ok(tokenizer) => Ok(PackTaskView::ConvertRwkvTokenizer(tokenizer)),
                Err(fault) => Err(fault),
            }
        } else if name == "convert-safetensors"@ {
            match spec_conversion(table) {
                Ok((source, wanted)) => Ok(
                    PackTaskView::ConvertSafetensors(
                        ConvertSafetensorsTaskView { source, wanted, planned: Seq::empty() },
                    ),
                ),
                Err(fault) => Err(fault),
            }
        } else {
            Err((PackFault::UnknownTaskType, name))
        },
    }
}

/// The task that a manifest holds under `key` with the given table.
pub open spec fn spec_load_task(key: Seq<char>, table: Seq<(String, ConfigValue)>) -> Result<
    TaskEntryView,
    ItemFault,
> {
    match spec_load_kind(table) {
        Ok(task) => Ok(TaskEntryView { key, name: spec_task_name(table)->Some_0, task }),
        Err(fault) => Err(fault),
    }
}

/// The tasks of a manifest in its order, or the first entry that cannot be
/// loaded: its fault, its key, and the item that has the fault.
pub open spec fn spec_load(manifest: Seq<(String, Vec<(String, ConfigValue)>)>) -> Result<
    Seq<TaskEntryView>,
    TaskFault,
>
    decreases manifest.len(),
{
    if manifest.len() == 0 {
        Ok(Seq::empty())
    } else {
        match spec_load(manifest.drop_last()) {
            Err(fault) => Err(fault),
            Ok(tasks) => match spec_load_task(manifest.last().0@, manifest.last().1@) {
                Ok(task) => Ok(tasks.push(task)),
                Err((fault, item)) => Err((fault, manifest.last().0@, item)),
            },
        }
    }
}

/// A manifest of which a front part cannot be loaded cannot be loaded, for
/// the reason of that part.
pub proof fn lemma_load_error(manifest: Seq<(String, Vec<(String, ConfigValue)>)>, front: nat)
    requires
        front <= manifest.len(),
        spec_load(manifest.take(front as int)) is Err,
    ensures
        spec_load(manifest) == spec_load(manifest.take(front as int)),
    decreases manifest.len(),
{
    if front < manifest.len() {
        assert(manifest.drop_last().take(front as int) =~= manifest.take(front as int));
        lemma_load_error(manifest.drop_last(), front);
    } else {
        assert(manifest.take(front as int) =~= manifest);
    }
}

/// What a run has made so far: the metadata entries, the tensor
/// descriptors, and where the cursor stands.
pub struct RunState {
    pub entries: Seq<(Seq<char>, MetadataValueView)>,
    pub descriptors: Seq<TensorInfoView>,
    pub cursor: u64,
}

/// What a context holds.
pub open spec fn state_of(ctx: ProcessContext) -> RunState {
    RunState { entries: ctx.entries(), descriptors: ctx.descriptors(), cursor: ctx.next_offset }
}

/// What a run has made after a task did its part of the header, and the
/// task as it is then, or why the task cannot do its part. A model card and
/// a model configuration add their entries. A tokenizer conversion adds the
/// entries that its vocabulary file gives. A tensor conversion plans its
/// tensors from the cursor on and keeps the conversions.
pub open spec fn spec_step(task: TaskEntryView, state: RunState, sources: Seq<SourceFile>)
    -> Result<(RunState, TaskEntryView), ItemFault> {
    match task.task {
        PackTaskView::AddModelCard(card) => Ok(
            (RunState { entries: state.entries + card_entries(card), ..state }, task),
        ),
        PackTaskView::AddModelConfig(config) => Ok(
            (RunState { entries: state.entries + config_entries(config), ..state }, task),
        ),
        PackTaskView::ConvertRwkvTokenizer(tokenizer) => match spec_find_source(
            sources,
            tokenizer.source,
        ) {
            None => Err((PackFault::MissingSource, tokenizer.source)),
            Some(content) => match spec_tokenizer_entries(content, tokenizer.token_count) {
                Ok(entries) => Ok((RunState { entries: state.entries + entries, ..state }, task)),
                Err(fault) => Err(fault),
            },
        },
        PackTaskView::ConvertSafetensors(conversion) => match spec_plan(
            conversion.wanted,
            state.cursor,
        ) {
            Ok(plan) => Ok(
                (
                    RunState {
                        entries: state.entries,
                        descriptors: state.descriptors + plan.descriptors,
                        cursor: plan.cursor,
                    },
                    TaskEntryView {
                        task: PackTaskView::ConvertSafetensors(
                            ConvertSafetensorsTaskView {
                                planned: conversion.planned + plan.conversions,
                                ..conversion
                            },
                        ),
                        ..task
                    },
                ),
            ),
            Err(fault) => Err(fault),
        },
    }
}

/// What a run has made after the given tasks did their parts one after the
/// other, from nothing on, and the tasks as they are then, or the first task
/// that cannot do its part and why.
pub open spec fn spec_run(tasks: Seq<TaskEntryView>, sources: Seq<SourceFile>) -> Result<
    (RunState, Seq<TaskEntryView>),
    TaskFault,
>
    decreases tasks.len(),
{
    if tasks.len() == 0 {
        Ok(
            (
                RunState { entries: Seq::empty(), descriptors: Seq::empty(), cursor: 0 },
                Seq::empty(),
            ),
        )
    } else {
        match spec_run(tasks.drop_last(), sources) {
            Err(fault) => Err(fault),
            Ok((state, done)) => match spec_step(tasks.last(), state, sources) {
                Ok((next, after)) => Ok((next, done.push(after))),
                Err((fault, item)) => Err((fault, tasks.last().key, item)),
            },
        }
    }
}

/// Tasks of which a front part cannot run cannot run, for the reason of
/// that part.
pub proof fn lemma_run_error(tasks: Seq<TaskEntryView>, sources: Seq<SourceFile>, front: nat)
    requires
        front <= tasks.len(),
        spec_run(tasks.take(front as int), sources) is Err,
    ensures
        spec_run(tasks, sources) == spec_run(tasks.take(front as int), sources),
    decreases tasks.len(),
{
    if front < tasks.len() {
        assert(tasks.drop_last().take(front as int) =~= tasks.take(front as int));
        lemma_run_error(tasks.drop_last(), sources, front);
    } else {
        assert(tasks.take(front as int) =~= tasks);
    }
}

/// How long the output is after a task wrote its payloads behind `before`
/// bytes, or why it cannot write them: a tensor conversion needs its source
/// file, the header of that file, and every tensor to be convertible; every
/// other task writes nothing.
pub open spec fn spec_write_step(
    task: TaskEntryView,
    before: nat,
    data_start: u64,
    sources: Seq<SourceFile>,
) -> Result<nat, ItemFault> {
    match task.task {
        PackTaskView::ConvertSafetensors(conversion) => match spec_find_source(
            sources,
            conversion.source,
        ) {
            None => Err((PackFault::MissingSource, conversion.source)),
            Some(file) => match spec_read_header(file) {
                Err(fault) => Err(fault),
                Ok(header) => spec_convert_all(
                    before,
                    data_start,
                    file,
                    header,
                    conversion.planned,
                ),
            },
        },
        _ => Ok(before),
    }
}

/// How long the output is after the given tasks wrote their payloads behind
/// `before` bytes one after the other, or the first task that cannot write
/// its payloads and why.
pub open spec fn spec_write_run(
    tasks: Seq<TaskEntryView>,
    before: nat,
    data_start: u64,
    sources: Seq<SourceFile>,
) -> Result<nat, TaskFault>
    decreases tasks.len(),
{
    if tasks.len() == 0 {
        Ok(before)
    } else {
        match spec_write_run(tasks.drop_last(), before, data_start, sources) {
            Err(fault) => Err(fault),
            Ok(middle) => match spec_write_step(tasks.last(), middle, data_start, sources) {
                Ok(end) => Ok(end),
                Err((fault, item)) => Err((fault, tasks.last().key, item)),
            },
        }
    }
}

/// Tasks of which a front part cannot write cannot write, for the reason of
/// that part.
pub proof fn lemma_write_run_error(
    tasks: Seq<TaskEntryView>,
    before: nat,
    data_start: u64,
    sources: Seq<SourceFile>,
    front: nat,
)
    requires
        front <= tasks.len(),
        spec_write_run(tasks.take(front as int), before, data_start, sources) is Err,
    ensures
        spec_write_run(tasks, before, data_start, sources) == spec_write_run(
            tasks.take(front as int),
            before,
            data_start,
            sources,
        ),
    decreases tasks.len(),
{
    if front < tasks.len() {
        assert(tasks.drop_last().take(front as int) =~= tasks.take(front as int));
        lemma_write_run_error(tasks.drop_last(), before, data_start, sources, front);
    } else {
        assert(tasks.take(front as int) =~= tasks);
    }
}

/// Whether a task put its payloads behind `before`, which gave `after`: a
/// tensor conversion puts the payloads of its tensors, every other task
/// leaves the output as it is.
pub open spec fn task_written<F: Fn(u32) -> u16>(
    narrow: &F,
    before: Seq<u8>,
    after: Seq<u8>,
    data_start: u64,
    task: TaskEntryView,
    sources: Seq<SourceFile>,
) -> bool {
    match task.task {
        PackTaskView::ConvertSafetensors(conversion) => {
            &&& spec_find_source(sources, conversion.source) matches Some(file)
            &&& spec_read_header(file) matches Ok(header)
            &&& tensors_written(
                narrow,
                before,
                after,
                data_start,
                file,
                header,
                conversion.planned,
            )
        },
        _ => after == before,
    }
}

/// Whether `marks` are the stages of an output to which the given tasks
/// added their payloads one after the other.
pub open spec fn run_written<F: Fn(u32) -> u16>(
    narrow: &F,
    marks: Seq<Seq<u8>>,
    data_start: u64,
    tasks: Seq<TaskEntryView>,
    sources: Seq<SourceFile>,
) -> bool {
    &&& marks.len() == tasks.len() + 1
    &&& forall|index: int|
        0 <= index < tasks.len() ==> task_written(
            narrow,
            #[trigger] marks[index],
            marks[index + 1],
            data_start,
            tasks[index],
            sources,
        )
}

/// Finds the content of the first source file with the given name.
pub fn find_source<'a>(sources: &'a Vec<SourceFile>, name: &str) -> (content: Option<&'a Vec<u8>>)
    ensures
        match content {
            Some(content) => spec_find_source(sources@, name@) == Some(content@),
            None => spec_find_source(sources@, name@).is_none(),
        },
{
    let wanted = copy_text(name);
    let mut index: usize = 0;
    assert(sources@.skip(0) =~= sources@);
    while index < sources.len()
        invariant
            index <= sources@.len(),
            wanted@ == name@,
            spec_find_source(sources@, name@) == spec_find_source(
                sources@.skip(index as int),
                name@,
            ),
        decreases sources@.len() - index,
    {
        let ghost open = sources@.skip(index as int);
        if sources[index].name == wanted {
            assert(open[0].name@ == name@);
            return Some(&sources[index].content);
        }
        proof {
            assert(open.drop_first() =~= sources@.skip(index + 1));
        }
        index = index + 1;
    }
    None
}

/// Loads the task under `key` from its table. Every fault is reported with
/// the key.
pub fn load_task(key: &str, manifest: &Vec<(String, ConfigValue)>) -> (result: Result<
    TaskEntry,
    PackError,
>)
    ensures
        match spec_load_task(key@, manifest@) {
            Ok(task) => result matches Ok(entry) && entry@ == task,
            Err((fault, item)) => result matches Err(error) && error.reports(fault, key@, item),
        },
{
    let name = match get(manifest, "task") {
        Some(ConfigValue::String(name)) => name.clone(),
        _ => {
            return Err(PackError::about(PackFault::MissingTaskType, "task").in_task(key));
        },
    };
    let task = if name == copy_text("add-model-card") {
        match AddModelCardTask::new(manifest) {
            Ok(task) => PackTask::AddModelCard(task),
            Err(error) => {
                return Err(error.in_task(key));
            },
        }
    } else if name == copy_text("add-model-config") {
        match AddModelConfigTask::new(manifest) {
            Ok(task) => PackTask::AddModelConfig(task),
            Err(error) => {
                return Err(error.in_task(key));
            },
        }
    } else if name == copy_text("convert-rwkv-tokenizer") {
        match ConvertRwkvTokenizerTask::new(manifest) {
            Ok(task) => PackTask::ConvertRwkvTokenizer(task),
            Err(error) => {
                return Err(error.in_task(key));
            },
        }
    } else if name == copy_text("convert-safetensors") {
        match ConvertSafetensorsTask::new(manifest) {
            Ok(task) => {
                proof {
                    assert(task@.planned =~= Seq::empty());
                }
                PackTask::ConvertSafetensors(task)
            },
            Err(error) => {
                return Err(error.in_task(key));
            },
        }
    } else {
        return Err(PackError::about(PackFault::UnknownTaskType, name.as_str()).in_task(key));
    };
    Ok(TaskEntry { key: copy_text(key), name, task })
}

/// Loads every task of a manifest, in the order of the manifest. The first
/// task that cannot be loaded is reported with its key.
pub fn load(manifest: &Vec<(String, Vec<(String, ConfigValue)>)>) -> (result: Result<
    Vec<TaskEntry>,
    PackError,
>)
    ensures
        match spec_load(manifest@) {
            Ok(views) => result matches Ok(tasks) && task_views(tasks@) == views,
            Err((fault, key, item)) => result matches Err(error) && error.reports(
                fault,
                key,
                item,
            ),
        },
{
    let mut tasks: Vec<TaskEntry> = Vec::new();
    let mut index: usize = 0;
    proof {
        assert(manifest@.take(0) =~= Seq::<(String, Vec<(String, ConfigValue)>)>::empty());
        assert(task_views(tasks@) =~= Seq::<TaskEntryView>::empty());
    }
    while index < manifest.len()
        invariant
            index <= manifest@.len(),
            spec_load(manifest@.take(index as int)) == Ok::<Seq<TaskEntryView>, TaskFault>(
                task_views(tasks@),
            ),
        decreases manifest@.len() - index,
    {
        let ghost before = tasks@;
        proof {
            assert(manifest@.take(index + 1).drop_last() =~= manifest@.take(index as int));
            assert(manifest@.take(index + 1).last() == manifest@[index as int]);
        }
        let task = match load_task(manifest[index].0.as_str(), &manifest[index].1) {
            Ok(task) => task,
            Err(error) => {
                proof {
                    lemma_load_error(manifest@, (index + 1) as nat);
                }
                return Err(error);
            },
        };
        tasks.push(task);
        proof {
            assert(task_views(tasks@) =~= task_views(before).push(task@));
        }
        index = index + 1;
    }
    proof {
        assert(manifest@.take(index as int) =~= manifest@);
    }
    Ok(tasks)
}

impl TaskEntry {
    /// The name of the source file that the task reads, if it reads one.
    pub fn source(&self) -> (name: Option<&String>)
        ensures
            match self@.task {
                PackTaskView::ConvertRwkvTokenizer(task) => name matches Some(source)
                    && source@ == task.source,
                PackTaskView::ConvertSafetensors(task) => name matches Some(source) && source@
                    == task.source,
                _ => name.is_none(),
            },
    {
        match &self.task {
            PackTask::ConvertRwkvTokenizer(task) => Some(&task.manifest.source),
            PackTask::ConvertSafetensors(task) => Some(&task.manifest.source),
            _ => None,
        }
    }

    /// Lets the task do its part of the header. Every fault is reported with
    /// the key of the task.
    pub fn process(&mut self, ctx: &mut ProcessContext, sources: &Vec<SourceFile>) -> (result:
        Result<(), PackError>)
        requires
            old(ctx).laid_out(),
        ensures
            match spec_step(old(self)@, state_of(*old(ctx)), sources@) {
                Ok((state, after)) => {
                    &&& result is Ok
                    &&& state_of(*final(ctx)) == state
                    &&& final(self)@ == after
                    &&& final(ctx).laid_out()
                },
                Err((fault, item)) => result matches Err(error) && error.reports(
                    fault,
                    old(self).key@,
                    item,
                ),
            },
    {
        let ghost before = *ctx;
        match &mut self.task {
            PackTask::AddModelCard(task) => {
                task.process(ctx);
                proof {
                    assert(ctx.descriptors() == before.descriptors());
                }
                Ok(())
            },
            PackTask::AddModelConfig(task) => {
                task.process(ctx);
                proof {
                    assert(ctx.descriptors() == before.descriptors());
                }
                Ok(())
            },
            PackTask::ConvertRwkvTokenizer(task) => {
                let content = match find_source(sources, task.manifest.source.as_str()) {
                    Some(content) => content,
                    None => {
                        return Err(
                            PackError::about(
                                PackFault::MissingSource,
                                task.manifest.source.as_str(),
                            ).in_task(self.key.as_str()),
                        );
                    },
                };
                match task.process(ctx, content.as_slice()) {
                    Ok(()) => {
                        proof {
                            assert(ctx.descriptors() == before.descriptors());
                        }
                        Ok(())
                    },
                    Err(error) => Err(error.in_task(self.key.as_str())),
                }
            },
            PackTask::ConvertSafetensors(task) => match task.process(ctx) {
                Ok(()) => Ok(()),
                Err(error) => Err(error.in_task(self.key.as_str())),
            },
        }
    }

    /// Lets the task write its payloads. Every fault is reported with the
    /// key of the task. After a failure the output holds what was written
    /// before it.
    pub fn write_tensors<F: Fn(u32) -> u16>(
        &self,
        sources: &Vec<SourceFile>,
        output: &mut Vec<u8>,
        data_start: u64,
        narrow: &F,
    ) -> (result: Result<(), PackError>)
        requires
            forall|bits: u32| call_requires(narrow, (bits,)),
        ensures
            old(output)@.is_prefix_of(final(output)@),
            match spec_write_step(self@, old(output)@.len(), data_start, sources@) {
                Ok(end) => {
                    &&& result is Ok
                    &&& final(output)@.len() == end
                    &&& task_written(
                        narrow,
                        old(output)@,
                        final(output)@,
                        data_start,
                        self@,
                        sources@,
                    )
                },
                Err((fault, item)) => result matches Err(error) && error.reports(
                    fault,
                    self.key@,
                    item,
                ),
            },
    {
        match &self.task {
            PackTask::ConvertSafetensors(task) => {
                let file = match find_source(sources, task.manifest.source.as_str()) {
                    Some(file) => file,
                    None => {
                        return Err(
                            PackError::about(
                                PackFault::MissingSource,
                                task.manifest.source.as_str(),
                            ).in_task(self.key.as_str()),
                        );
                    },
                };
                match task.write_tensors(file.as_slice(), output, data_start, narrow) {
                    Ok(()) => Ok(()),
                    Err(error) => Err(error.in_task(self.key.as_str())),
                }
            },
            _ => Ok(()),
        }
    }
}

/// Lets every task do its part of the header, in the order of the tasks,
/// and hands out the metadata entries and the tensor descriptors that they
/// made. The descriptors are laid out from offset 0 on. The first task that
/// fails is reported with its key.
pub fn process(tasks: &mut Vec<TaskEntry>, sources: &Vec<SourceFile>) -> (result: Result<
    (Vec<(String, MetadataValue)>, Vec<TensorInfo>),
    PackError,
>)
    ensures
        final(tasks)@.len() == old(tasks)@.len(),
        match spec_run(task_views(old(tasks)@), sources@) {
            Ok((state, done)) => {
                &&& result matches Ok(made)
                &&& metadata_views(made.0@) == state.entries
                &&& tensor_views(made.1@) == state.descriptors
                &&& descriptors_laid_out(state.descriptors, state.cursor)
                &&& task_views(final(tasks)@) == done
            },
            Err((fault, key, item)) => result matches Err(error) && error.reports(
                fault,
                key,
                item,
            ),
        },
{
    let mut ctx = ProcessContext::new();
    let ghost views = task_views(tasks@);
    let count = tasks.len();
    let mut index: usize = 0;
    proof {
        assert(views.take(0) =~= Seq::<TaskEntryView>::empty());
        assert(task_views(tasks@).take(0) =~= Seq::<TaskEntryView>::empty());
        assert(ctx.entries() =~= Seq::empty());
        assert(ctx.descriptors() =~= Seq::empty());
    }
    while index < count
        invariant
            index <= count == tasks@.len() == old(tasks)@.len(),
            views == task_views(old(tasks)@),
            ctx.laid_out(),
            spec_run(views.take(index as int), sources@) == Ok::<
                (RunState, Seq<TaskEntryView>),
                TaskFault,
            >((state_of(ctx), task_views(tasks@).take(index as int))),
            forall|at: int| index <= at < count ==> tasks@[at] == old(tasks)@[at],
        decreases count - index,
    {
        let ghost before = tasks@;
        proof {
            assert(views.take(index + 1).drop_last() =~= views.take(index as int));
            assert(views.take(index + 1).last() == tasks@[index as int]@);
        }
        let entry = &mut tasks[index];
        let outcome = entry.process(&mut ctx, sources);
        proof {
            assert(tasks@ == before.update(index as int, tasks@[index as int]));
        }
        match outcome {
            Ok(()) => {
                proof {
                    assert(task_views(tasks@).take(index + 1) =~= task_views(before).take(
                        index as int,
                    ).push(tasks@[index as int]@));
                }
            },
            Err(error) => {
                proof {
                    lemma_run_error(views, sources@, (index + 1) as nat);
                }
                return Err(error);
            },
        }
        index = index + 1;
    }
    proof {
        assert(views.take(index as int) =~= views);
        assert(task_views(tasks@).take(index as int) =~= task_views(tasks@));
    }
    Ok((ctx.metadata, ctx.tensors))
}

/// Lets every task write its payloads behind the header, in the order of
/// the tasks. The tensor data starts at the first multiple of 32 bytes that
/// the output has room for; every payload is put at its offset from there.
/// The first task that fails is reported with its key, and the output then
/// holds what was written before the failure.
pub fn write_tensors<F: Fn(u32) -> u16>(
    tasks: &Vec<TaskEntry>,
    sources: &Vec<SourceFile>,
    output: &mut Vec<u8>,
    narrow: &F,
) -> (result: Result<(), PackError>)
    requires
        forall|bits: u32| call_requires(narrow, (bits,)),
    ensures
        old(output)@.is_prefix_of(final(output)@),
        if spec_align(old(output)@.len()) > u64::MAX {
            result matches Err(error) && error.reports(
                PackFault::TensorTooLarge,
                Seq::empty(),
                Seq::empty(),
            )
        } else {
            match spec_write_run(
                task_views(tasks@),
                old(output)@.len(),
                spec_align(old(output)@.len()) as u64,
                sources@,
            ) {
                Ok(end) => {
                    &&& result is Ok
                    &&& final(output)@.len() == end
                    &&& exists|marks: Seq<Seq<u8>>|
                        {
                            &&& #[trigger] run_written(
                                narrow,
                                marks,
                                spec_align(old(output)@.len()) as u64,
                                task_views(tasks@),
                                sources@,
                            )
                            &&& marks.first() == old(output)@
                            &&& marks.last() == final(output)@
                        }
                },
                Err((fault, key, item)) => result matches Err(error) && error.reports(
                    fault,
                    key,
                    item,
                ),
            }
        },
{
    let data_start = match checked_align_offset(output.len() as u64) {
        Some(start) => start,
        None => {
            return Err(PackError::of(PackFault::TensorTooLarge));
        },
    };
    let ghost views = task_views(tasks@);
    let ghost marks = seq![output@];
    let mut index: usize = 0;
    proof {
        assert(views.take(0) =~= Seq::<TaskEntryView>::empty());
    }
    while index < tasks.len()
        invariant
            forall|bits: u32| call_requires(narrow, (bits,)),
            index <= tasks@.len(),
            views == task_views(tasks@),
            old(output)@.is_prefix_of(output@),
            data_start == spec_align(old(output)@.len()),
            spec_write_run(views.take(index as int), old(output)@.len(), data_start, sources@)
                == Ok::<nat, TaskFault>(output@.len()),
            marks.len() == index + 1,
            marks.first() == old(output)@,
            marks.last() == output@,
            forall|at: int|
                0 <= at < index ==> task_written(
                    narrow,
                    #[trigger] marks[at],
                    marks[at + 1],
                    data_start,
                    views[at],
                    sources@,
                ),
        decreases tasks@.len() - index,
    {
        proof {
            assert(views.take(index + 1).drop_last() =~= views.take(index as int));
            assert(views.take(index + 1).last() == tasks@[index as int]@);
        }
        match tasks[index].write_tensors(sources, output, data_start, narrow) {
            Ok(()) => {
                proof {
                    let longer = marks.push(output@);
                    assert forall|at: int| 0 <= at < index + 1 implies task_written(
                        narrow,
                        #[trigger] longer[at],
                        longer[at + 1],
                        data_start,
                        views[at],
                        sources@,
                    ) by {
                        if at < index {
                            assert(longer[at] == marks[at]);
                            assert(longer[at + 1] == marks[at + 1]);
                        }
                    }
                    marks = longer;
                }
            },
            Err(error) => {
                proof {
                    lemma_write_run_error(
                        views,
                        old(output)@.len(),
                        data_start,
                        sources@,
                        (index + 1) as nat,
                    );
                }
                return Err(error);
            },
        }
        index = index + 1;
    }
    proof {
        assert(views.take(index as int) =~= views);
        assert(run_written(narrow, marks, data_start, views, sources@));
    }
    Ok(())
}

} // verus!
