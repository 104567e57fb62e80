//! The header of a tensor source: eight bytes of length, then a JSON object
//! that maps the name of each tensor to its element type, its shape and the
//! place of its bytes.
use vstd::prelude::*;
use vstd::slice::slice_to_vec;
use vstd::string::StrSliceExecFns;
use vstd::utf8::{decode_utf8, valid_utf8};
use crate::endian::le_value;
use crate::error::{PackError, PackFault};
use crate::json::{
    find_member, json_array_items, json_items, json_members, json_object_members, json_string,
    json_string_value, json_u64, json_u64_items, json_u64_list, json_u64_value, member,
    pair_views,
};
use crate::read::primitives::{read_u64, ByteReader};
use crate::text::{copy_text, text_from_utf8};

verus! {

/// What the header of a tensor source says of one tensor.
#[derive(Debug, Clone, PartialEq, Eq)]
pub struct StTensorInfo {
    /// The name of the element type, such as `BF16`.
    pub data_type: String,
    /// Where the bytes of the tensor start and end, counted from the start
    /// of the payload.
    pub data_offsets: [u64; 2],
    /// The extents, slowest-varying first.
    pub data_shape: Vec<u64>,
}

/// What a `StTensorInfo` stands for.
pub struct StTensorInfoView {
    pub data_type: Seq<char>,
    pub start: u64,
    pub end: u64,
    pub data_shape: Seq<u64>,
}

impl View for StTensorInfo {
    type V = StTensorInfoView;

    open spec fn view(&self) -> StTensorInfoView {
        StTensorInfoView {
            data_type: self.data_type@,
            start: self.data_offsets[0],
            end: self.data_offsets[1],
            data_shape: self.data_shape@,
        }
    }
}

/// The header of a tensor source.
#[derive(Debug, PartialEq, Eq)]
pub struct StHeader {
    /// The tensors by name, in the order of the header's members.
    pub entries: Vec<(String, StTensorInfo)>,
    /// Where the payload starts in the file.
    pub data_start: u64,
}

/// What a `StHeader` stands for.
pub struct StHeaderView {
    pub entries: Seq<(Seq<char>, StTensorInfoView)>,
    pub data_start: u64,
}

impl View for StHeader {
    type V = StHeaderView;

    open spec fn view(&self) -> StHeaderView {
        StHeaderView { entries: entry_views(self.entries@), data_start: self.data_start }
    }
}

/// What each entry stands for.
pub open spec fn entry_views(entries: Seq<(String, StTensorInfo)>) -> Seq<
    (Seq<char>, StTensorInfoView),
> {
    Seq::new(entries.len(), |index: int| (entries[index].0@, entries[index].1@))
}

/// A fault and the name of the entry that has it.
pub type SourceFault = (PackFault, Seq<char>);

/// Whether a name is kept for the bookkeeping of the format: it starts with
/// two underscores.
pub open spec fn reserved(name: Seq<char>) -> bool {
    name.len() >= 2 && name[0] == '_' && name[1] == '_'
}

/// What was found under a key of an entry.
#[derive(Debug, Clone, PartialEq, Eq)]
pub enum Lookup<T> {
    /// The entry has no such key, or is no object at all.
    Missing,
    /// The key holds a value of the wrong kind.
    Mistyped,
    /// The key holds this.
    Found(T),
}

/// An entry of the header as it was found, before it is judged.
#[derive(Debug, Clone, PartialEq, Eq)]
pub struct RawEntry {
    /// The string under `dtype`.
    pub dtype: Lookup<String>,
    /// The first two items of the array under `data_offsets`, or the one
    /// item if there is no second, each as a number if it is one.
    pub data_offsets: Lookup<Vec<Option<u64>>>,
    /// The numbers of the array under `shape`.
    pub shape: Lookup<Vec<u64>>,
}

/// What a `RawEntry` stands for.
pub struct RawEntryView {
    pub dtype: Lookup<Seq<char>>,
    pub data_offsets: Lookup<Seq<Option<u64>>>,
    pub shape: Lookup<Seq<u64>>,
}

impl View for RawEntry {
    type V = RawEntryView;

    open spec fn view(&self) -> RawEntryView {
        RawEntryView {
            dtype: match self.dtype {
                Lookup::Missing => Lookup::Missing,
                Lookup::Mistyped => Lookup::Mistyped,
                Lookup::Found(text) => Lookup::Found(text@),
            },
            data_offsets: match self.data_offsets {
                Lookup::Missing => Lookup::Missing,
                Lookup::Mistyped => Lookup::Mistyped,
                Lookup::Found(items) => Lookup::Found(items@),
            },
            shape: match self.shape {
                Lookup::Missing => Lookup::Missing,
                Lookup::Mistyped => Lookup::Mistyped,
                Lookup::Found(extents) => Lookup::Found(extents@),
            },
        }
    }
}

/// The string under `dtype` among the members of an entry.
pub open spec fn spec_raw_dtype(members: Seq<(Seq<char>, Seq<char>)>) -> Lookup<Seq<char>> {
    match member(members, "dtype"@) {
        None => Lookup::Missing,
        Some(value) => match json_string_value(value) {
            None => Lookup::Mistyped,
            Some(text) => Lookup::Found(text),
        },
    }
}

/// The first two items, or the one item, of the array under `data_offsets`
/// among the members of an entry.
pub open spec fn spec_raw_offsets(members: Seq<(Seq<char>, Seq<char>)>) -> Lookup<
    Seq<Option<u64>>,
> {
    match member(members, "data_offsets"@) {
        None => Lookup::Missing,
        Some(value) => match json_array_items(value) {
            None => Lookup::Mistyped,
            Some(items) => Lookup::Found(
                Seq::new(
                    if items.len() < 2 {
                        items.len()
                    } else {
                        2
                    },
                    |index: int| json_u64_value(items[index]),
                ),
            ),
        },
    }
}

/// The numbers of the array under `shape` among the members of an entry.
pub open spec fn spec_raw_shape(members: Seq<(Seq<char>, Seq<char>)>) -> Lookup<Seq<u64>> {
    match member(members, "shape"@) {
        None => Lookup::Missing,
        Some(value) => match json_u64_items(value) {
            None => Lookup::Mistyped,
            Some(extents) => Lookup::Found(extents),
        },
    }
}

/// An entry as it is found in its JSON text. An entry that is no object has
/// no members.
pub open spec fn spec_raw_entry(entry: Seq<char>) -> RawEntryView {
    let members = match json_object_members(entry) {
        Some(members) => members,
        None => Seq::empty(),
    };
    RawEntryView {
        dtype: spec_raw_dtype(members),
        data_offsets: spec_raw_offsets(members),
        shape: spec_raw_shape(members),
    }
}

/// What an entry says of its tensor, judged from what was found. The entry
/// needs a string under `dtype`, an array under `data_offsets` of which the
/// first two items are numbers, and an array of numbers under `shape`. The
/// three are looked at in that order, and the first that is missing or of the
/// wrong kind is the fault.
pub open spec fn spec_judge_entry(raw: RawEntryView) -> Result<StTensorInfoView, PackFault> {
    match raw.dtype {
        Lookup::Missing => Err(PackFault::SourceMissingKey),
        Lookup::Mistyped => Err(PackFault::SourceMistyped),
        Lookup::Found(data_type) => match raw.data_offsets {
            Lookup::Missing => Err(PackFault::SourceMissingKey),
            Lookup::Mistyped => Err(PackFault::SourceMistyped),
            Lookup::Found(items) => if items.len() < 2 {
                Err(PackFault::SourceMistyped)
            } else {
                match (items[0], items[1]) {
                    (Some(start), Some(end)) => match raw.shape {
                        Lookup::Missing => Err(PackFault::SourceMissingKey),
                        Lookup::Mistyped => Err(PackFault::SourceMistyped),
                        Lookup::Found(data_shape) => Ok(
                            StTensorInfoView { data_type, start, end, data_shape },
                        ),
                    },
                    _ => Err(PackFault::SourceMistyped),
                }
            },
        },
    }
}

/// What the JSON text of an entry says of its tensor.
pub open spec fn spec_parse_entry(entry: Seq<char>) -> Result<StTensorInfoView, PackFault> {
    spec_judge_entry(spec_raw_entry(entry))
}

/// What each entry that was found stands for.
pub open spec fn found_views(found: Seq<(String, RawEntry)>) -> Seq<(Seq<char>, RawEntryView)> {
    Seq::new(found.len(), |index: int| (found[index].0@, found[index].1@))
}

/// The entries of a header as they are found in the JSON texts of its
/// members.
pub open spec fn spec_found(members: Seq<(Seq<char>, Seq<char>)>) -> Seq<
    (Seq<char>, RawEntryView),
> {
    Seq::new(members.len(), |index: int| (members[index].0, spec_raw_entry(members[index].1)))
}

/// The entries of a header in the order in which they were found, without
/// those whose names are reserved, or the first faulty entry and its fault.
pub open spec fn spec_collect(found: Seq<(Seq<char>, RawEntryView)>) -> Result<
    Seq<(Seq<char>, StTensorInfoView)>,
    SourceFault,
>
    decreases found.len(),
{
    if found.len() == 0 {
        Ok(Seq::empty())
    } else {
        match spec_collect(found.drop_last()) {
            Err(fault) => Err(fault),
            Ok(entries) => if reserved(found.last().0) {
                Ok(entries)
            } else {
                match spec_judge_entry(found.last().1) {
                    Ok(info) => Ok(entries.push((found.last().0, info))),
                    Err(fault) => Err((fault, found.last().0)),
                }
            },
        }
    }
}

/// The entries of the given members of a header.
pub open spec fn spec_entries(members: Seq<(Seq<char>, Seq<char>)>) -> Result<
    Seq<(Seq<char>, StTensorInfoView)>,
    SourceFault,
> {
    spec_collect(spec_found(members))
}

/// The header that a tensor source starts with. The first eight bytes hold
/// the length of the header text, least significant byte first; the payload
/// starts right after the text.
pub open spec fn spec_read_header(file: Seq<u8>) -> Result<StHeaderView, SourceFault> {
    if file.len() < 8 {
        Err((PackFault::TruncatedSource, Seq::empty()))
    } else {
        let size = le_value(file.take(8));
        if file.len() - 8 < size {
            Err((PackFault::TruncatedSource, Seq::empty()))
        } else {
            let text = file.subrange(8, 8 + size as int);
            if !valid_utf8(text) {
                Err((PackFault::SourceNotText, Seq::empty()))
            } else {
                match json_object_members(decode_utf8(text)) {
                    None => Err((PackFault::SourceNotJson, Seq::empty())),
                    Some(members) => match spec_entries(members) {
                        Err(fault) => Err(fault),
                        Ok(entries) => Ok(
                            StHeaderView { entries, data_start: (8 + size) as u64 },
                        ),
                    },
                }
            }
        }
    }
}

/// The entry of the first tensor with the given name.
pub open spec fn spec_find_entry(entries: Seq<(Seq<char>, StTensorInfoView)>, name: Seq<char>)
    -> Option<StTensorInfoView>
    decreases entries.len(),
{
    if entries.len() == 0 {
        None
    } else if entries[0].0 == name {
        Some(entries[0].1)
    } else {
        spec_find_entry(entries.drop_first(), name)
    }
}

/// Entries of which a front part has a faulty one cannot be collected, for
/// the reason of that part.
pub proof fn lemma_collect_error(found: Seq<(Seq<char>, RawEntryView)>, front: nat)
    requires
        front <= found.len(),
        spec_collect(found.take(front as int)) is Err,
    ensures
        spec_collect(found) == spec_collect(found.take(front as int)),
    decreases found.len(),
{
    if front < found.len() {
        assert(found.drop_last().take(front as int) =~= found.take(front as int));
        lemma_collect_error(found.drop_last(), front);
    } else {
        assert(found.take(front as int) =~= found);
    }
}

/// Looks up in the JSON text of an entry what the header reader needs.
pub fn find_raw_entry(entry: &str) -> (raw: RawEntry)
    ensures
        raw@ == spec_raw_entry(entry@),
{
    let members = match json_members(entry) {
        Some(members) => members,
        None => Vec::new(),
    };
    proof {
        assert(pair_views(Seq::<(String, String)>::empty()) =~= Seq::<
            (Seq<char>, Seq<char>),
        >::empty());
    }
    let dtype = match find_member(&members, "dtype") {
        None => Lookup::Missing,
        Some(value) => match json_string(value.as_str()) {
            None => Lookup::Mistyped,
            Some(text) => Lookup::Found(text),
        },
    };
    let data_offsets = match find_member(&members, "data_offsets") {
        None => Lookup::Missing,
        Some(value) => match json_items(value.as_str()) {
            None => Lookup::Mistyped,
            Some(items) => {
                let mut leading: Vec<Option<u64>> = Vec::new();
                if items.len() > 0 {
                    leading.push(json_u64(items[0].as_str()));
                }
                if items.len() > 1 {
                    leading.push(json_u64(items[1].as_str()));
                }
                proof {
                    assert(leading@ =~= spec_raw_offsets(pair_views(members@))->Found_0);
                }
                Lookup::Found(leading)
            },
        },
    };
    let shape = match find_member(&members, "shape") {
        None => Lookup::Missing,
        Some(value) => match json_u64_list(value.as_str()) {
            None => Lookup::Mistyped,
            Some(extents) => Lookup::Found(extents),
        },
    };
    RawEntry { dtype, data_offsets, shape }
}

/// Judges what was found in an entry and gives what the entry says of its
/// tensor: the element type, the two offsets, and the shape.
pub fn judge_entry(name: String, raw: RawEntry) -> (result: Result<
    (String, StTensorInfo),
    PackError,
>)
    ensures
        match spec_judge_entry(raw@) {
            Ok(info) => result matches Ok(parsed) && parsed.0@ == name@ && parsed.1@ == info,
            Err(fault) => result matches Err(error) && error.reports(
                fault,
                Seq::empty(),
                name@,
            ),
        },
{
    let data_type = match raw.dtype {
        Lookup::Missing => {
            return Err(PackError::about(PackFault::SourceMissingKey, name.as_str()));
        },
        Lookup::Mistyped => {
            return Err(PackError::about(PackFault::SourceMistyped, name.as_str()));
        },
        Lookup::Found(data_type) => data_type,
    };
    let items = match raw.data_offsets {
        Lookup::Missing => {
            return Err(PackError::about(PackFault::SourceMissingKey, name.as_str()));
        },
        Lookup::Mistyped => {
            return Err(PackError::about(PackFault::SourceMistyped, name.as_str()));
        },
        Lookup::Found(items) => items,
    };
    if items.len() < 2 {
        return Err(PackError::about(PackFault::SourceMistyped, name.as_str()));
    }
    let (start, end) = match (items[0], items[1]) {
        (Some(start), Some(end)) => (start, end),
        _ => {
            return Err(PackError::about(PackFault::SourceMistyped, name.as_str()));
        },
    };
    let data_shape = match raw.shape {
        Lookup::Missing => {
            return Err(PackError::about(PackFault::SourceMissingKey, name.as_str()));
        },
        Lookup::Mistyped => {
            return Err(PackError::about(PackFault::SourceMistyped, name.as_str()));
        },
        Lookup::Found(data_shape) => data_shape,
    };
    let info = StTensorInfo { data_type, data_offsets: [start, end], data_shape };
    Ok((name, info))
}

/// Reads what the JSON text of one entry of the header says of its tensor.
pub fn parse_entry(name: String, entry: &str) -> (result: Result<(String, StTensorInfo), PackError>)
    ensures
        match spec_parse_entry(entry@) {
            Ok(info) => result matches Ok(parsed) && parsed.0@ == name@ && parsed.1@ == info,
            Err(fault) => result matches Err(error) && error.reports(
                fault,
                Seq::empty(),
                name@,
            ),
        },
{
    judge_entry(name, find_raw_entry(entry))
}

/// Whether a name starts with two underscores.
pub fn is_reserved(name: &str) -> (reserved_name: bool)
    ensures
        reserved_name == reserved(name@),
{
    name.unicode_len() >= 2 && name.get_char(0) == '_' && name.get_char(1) == '_'
}

/// Judges the entries that were found in a header, in their order, and
/// leaves out those whose names are reserved.
pub fn collect_entries(found: Vec<(String, RawEntry)>) -> (result: Result<
    Vec<(String, StTensorInfo)>,
    PackError,
>)
    ensures
        match spec_collect(found_views(found@)) {
            Ok(entries) => result matches Ok(collected) && entry_views(collected@) == entries,
            Err((fault, name)) => result matches Err(error) && error.reports(
                fault,
                Seq::empty(),
                name,
            ),
        },
{
    let ghost views = found_views(found@);
    let mut entries: Vec<(String, StTensorInfo)> = Vec::new();
    let mut index: usize = 0;
    proof {
        assert(views.take(0) =~= Seq::<(Seq<char>, RawEntryView)>::empty());
        assert(entry_views(entries@) =~= Seq::<(Seq<char>, StTensorInfoView)>::empty());
    }
    while index < found.len()
        invariant
            index <= found@.len(),
            views == found_views(found@),
            spec_collect(views.take(index as int)) == Ok::<
                Seq<(Seq<char>, StTensorInfoView)>,
                SourceFault,
            >(entry_views(entries@)),
        decreases found@.len() - index,
    {
        let ghost before = entries@;
        proof {
            assert(views.take(index + 1).drop_last() =~= views.take(index as int));
            assert(views.take(index + 1).last() == views[index as int]);
        }
        if !is_reserved(found[index].0.as_str()) {
            let name = found[index].0.clone();
            let raw = copy_raw_entry(&found[index].1);
            match judge_entry(name, raw) {
                Ok(entry) => {
                    entries.push(entry);
                    proof {
                        assert(entry_views(entries@) =~= entry_views(before).push(
                            (entry.0@, entry.1@),
                        ));
                    }
                },
                Err(error) => {
                    proof {
                        lemma_collect_error(views, (index + 1) as nat);
                    }
                    return Err(error);
                },
            }
        }
        index = index + 1;
    }
    proof {
        assert(views.take(index as int) =~= views);
    }
    Ok(entries)
}

/// A copy of an entry as it was found.
fn copy_raw_entry(raw: &RawEntry) -> (copy: RawEntry)
    ensures
        copy@ == raw@,
{
    RawEntry {
        dtype: match &raw.dtype {
            Lookup::Missing => Lookup::Missing,
            Lookup::Mistyped => Lookup::Mistyped,
            Lookup::Found(text) => Lookup::Found(text.clone()),
        },
        data_offsets: match &raw.data_offsets {
            Lookup::Missing => Lookup::Missing,
            Lookup::Mistyped => Lookup::Mistyped,
            Lookup::Found(items) => Lookup::Found(slice_to_vec(items.as_slice())),
        },
        shape: match &raw.shape {
            Lookup::Missing => Lookup::Missing,
            Lookup::Mistyped => Lookup::Mistyped,
            Lookup::Found(extents) => Lookup::Found(slice_to_vec(extents.as_slice())),
        },
    }
}

/// Reads the header of a tensor source from the bytes of the file.
pub fn read_header(file: &[u8]) -> (result: Result<StHeader, PackError>)
    ensures
        match spec_read_header(file@) {
            Ok(header) => result matches Ok(read) && read@ == header,
            Err((fault, name)) => result matches Err(error) && error.reports(
                fault,
                Seq::empty(),
                name,
            ),
        },
{
    let mut reader = ByteReader::new(file);
    let size = match read_u64(&mut reader) {
        Ok(size) => size,
        Err(_) => {
            return Err(PackError::of(PackFault::TruncatedSource));
        },
    };
    proof {
        crate::endian::lemma_radix_values();
        crate::endian::lemma_le_value_bound(file@.take(8));
    }
    if size > reader.remaining_len() as u64 {
        return Err(PackError::of(PackFault::TruncatedSource));
    }
    proof {
        assert(file@.skip(8).take(size as int) =~= file@.subrange(8, 8 + size));
    }
    let bytes = match reader.read_exact(size as usize) {
        Some(bytes) => bytes,
        None => {
            return Err(PackError::of(PackFault::TruncatedSource));
        },
    };
    let text = match text_from_utf8(slice_to_vec(bytes)) {
        Some(text) => text,
        None => {
            return Err(PackError::of(PackFault::SourceNotText));
        },
    };
    let members = match json_members(text.as_str()) {
        Some(members) => members,
        None => {
            return Err(PackError::of(PackFault::SourceNotJson));
        },
    };
    let length = file.len();
    assert(8 + size <= length);
    let data_start = 8 + size;
    let ghost views = pair_views(members@);
    let mut found: Vec<(String, RawEntry)> = Vec::new();
    let mut index: usize = 0;
    while index < members.len()
        invariant
            index <= members@.len(),
            views == pair_views(members@),
            found@.len() == index,
            forall|at: int|
                0 <= at < index ==> (#[trigger] found@[at]).0@ == views[at].0 && found@[at].1@
                    == spec_raw_entry(views[at].1),
        decreases members@.len() - index,
    {
        let name = members[index].0.clone();
        let raw = find_raw_entry(members[index].1.as_str());
        found.push((name, raw));
        index = index + 1;
    }
    proof {
        assert(found_views(found@) =~= spec_found(views));
    }
    let entries = collect_entries(found)?;
    Ok(StHeader { entries, data_start })
}

/// Finds the entry of the first tensor with the given name.
pub fn find_entry<'a>(header: &'a StHeader, name: &str) -> (entry: Option<&'a StTensorInfo>)
    ensures
        match entry {
            Some(entry) => spec_find_entry(header@.entries, name@) == Some(entry@),
            None => spec_find_entry(header@.entries, name@).is_none(),
        },
{
    let wanted = copy_text(name);
    let ghost views = header@.entries;
    let mut index: usize = 0;
    assert(views.skip(0) =~= views);
    while index < header.entries.len()
        invariant
            index <= header.entries@.len(),
            views == header@.entries,
            wanted@ == name@,
            spec_find_entry(views, name@) == spec_find_entry(views.skip(index as int), name@),
        decreases header.entries@.len() - index,
    {
        let ghost open = views.skip(index as int);
        if header.entries[index].0 == wanted {
            assert(open[0].0 == name@);
            assert(open[0].1 == header.entries@[index as int].1@);
            return Some(&header.entries[index].1);
        }
        proof {
            assert(open.drop_first() =~= views.skip(index + 1));
        }
        index = index + 1;
    }
    None
}

} // verus!
