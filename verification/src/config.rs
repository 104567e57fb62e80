//! The configuration of tasks: tables of named values, as a manifest file
//! holds them once it has been parsed.
use vstd::prelude::*;
use crate::error::{PackError, PackFault};
use crate::text::copy_text;

verus! {

/// A value of a configuration table.
#[derive(Debug, PartialEq, Eq)]
pub enum ConfigValue {
    /// A text.
    String(String),
    /// A whole number.
    Integer(i64),
    /// A number with a fraction, as the bit pattern of the nearest 32-bit
    /// IEEE 754 number.
    Float(u32),
    /// A truth value.
    Boolean(bool),
    /// A date or time, as it was written.
    Datetime(String),
    /// A list of values.
    Array(Vec<ConfigValue>),
    /// A table of named values, in the order in which it is walked.
    Table(Vec<(String, ConfigValue)>),
}

/// A fault and the field that has it.
pub type FieldFault = (PackFault, Seq<char>);

/// The value under the first entry with the given key.
pub open spec fn spec_get(table: Seq<(String, ConfigValue)>, key: Seq<char>) -> Option<ConfigValue>
    decreases table.len(),
{
    if table.len() == 0 {
        None
    } else if table[0].0@ == key {
        Some(table[0].1)
    } else {
        spec_get(table.drop_first(), key)
    }
}

/// The text under a key, which has to be there and be a text.
pub open spec fn spec_text(table: Seq<(String, ConfigValue)>, key: Seq<char>) -> Result<
    Seq<char>,
    FieldFault,
> {
    match spec_get(table, key) {
        None => Err((PackFault::MissingField, key)),
        Some(ConfigValue::String(text)) => Ok(text@),
        Some(_) => Err((PackFault::MistypedField, key)),
    }
}

/// The number under a key, which has to be there and be a whole number from
/// 0 to `limit`.
pub open spec fn spec_number(table: Seq<(String, ConfigValue)>, key: Seq<char>, limit: u64)
    -> Result<u64, FieldFault> {
    match spec_get(table, key) {
        None => Err((PackFault::MissingField, key)),
        Some(ConfigValue::Integer(number)) => if 0 <= number <= limit {
            Ok(number as u64)
        } else {
            Err((PackFault::MistypedField, key))
        },
        Some(_) => Err((PackFault::MistypedField, key)),
    }
}

/// The bit pattern under a key, which has to be there and be a number with
/// a fraction.
pub open spec fn spec_float(table: Seq<(String, ConfigValue)>, key: Seq<char>) -> Result<
    u32,
    FieldFault,
> {
    match spec_get(table, key) {
        None => Err((PackFault::MissingField, key)),
        Some(ConfigValue::Float(bits)) => Ok(bits),
        Some(_) => Err((PackFault::MistypedField, key)),
    }
}

/// The table under a key, which has to be there and be a table.
pub open spec fn spec_table(table: Seq<(String, ConfigValue)>, key: Seq<char>) -> Result<
    Seq<(String, ConfigValue)>,
    FieldFault,
> {
    match spec_get(table, key) {
        None => Err((PackFault::MissingField, key)),
        Some(ConfigValue::Table(entries)) => Ok(entries@),
        Some(_) => Err((PackFault::MistypedField, key)),
    }
}

/// The whole numbers of a list, each of which has to be from 0 up.
pub open spec fn spec_extents(items: Seq<ConfigValue>) -> Option<Seq<u64>>
    decreases items.len(),
{
    if items.len() == 0 {
        Some(Seq::empty())
    } else {
        match (spec_extents(items.drop_last()), items.last()) {
            (Some(front), ConfigValue::Integer(number)) => if number >= 0 {
                Some(front.push(number as u64))
            } else {
                None
            },
            _ => None,
        }
    }
}

/// The list of whole numbers under a key, which has to be there and be a
/// list of whole numbers from 0 up.
pub open spec fn spec_extent_list(table: Seq<(String, ConfigValue)>, key: Seq<char>) -> Result<
    Seq<u64>,
    FieldFault,
> {
    match spec_get(table, key) {
        None => Err((PackFault::MissingField, key)),
        Some(ConfigValue::Array(items)) => match spec_extents(items@) {
            Some(extents) => Ok(extents),
            None => Err((PackFault::MistypedField, key)),
        },
        Some(_) => Err((PackFault::MistypedField, key)),
    }
}

/// Whether a lookup that ended in `result` did what `expected` says.
pub open spec fn field_matches<T>(result: Result<T, PackError>, expected: Result<T, FieldFault>)
    -> bool {
    match expected {
        Ok(value) => result matches Ok(found) && found == value,
        Err((fault, field)) => result matches Err(error) && error.reports(
            fault,
            Seq::empty(),
            field,
        ),
    }
}

/// A list whose front part holds something other than a whole number from
/// 0 up has no extents.
pub proof fn lemma_extents_none(items: Seq<ConfigValue>, front: nat)
    requires
        front <= items.len(),
        spec_extents(items.take(front as int)).is_none(),
    ensures
        spec_extents(items).is_none(),
    decreases items.len(),
{
    if front < items.len() {
        assert(items.drop_last().take(front as int) =~= items.take(front as int));
        lemma_extents_none(items.drop_last(), front);
    } else {
        assert(items.take(front as int) =~= items);
    }
}

/// Finds the value under the first entry with the given key.
pub fn get<'a>(table: &'a Vec<(String, ConfigValue)>, key: &str) -> (value: Option<
    &'a ConfigValue,
>)
    ensures
        match value {
            Some(value) => spec_get(table@, key@) == Some(*value),
            None => spec_get(table@, key@).is_none(),
        },
{
    let wanted = copy_text(key);
    let mut index: usize = 0;
    assert(table@.skip(0) =~= table@);
    while index < table.len()
        invariant
            index <= table@.len(),
            wanted@ == key@,
            spec_get(table@, key@) == spec_get(table@.skip(index as int), key@),
        decreases table@.len() - index,
    {
        let ghost open = table@.skip(index as int);
        if table[index].0 == wanted {
            assert(open[0].0@ == key@);
            return Some(&table[index].1);
        }
        proof {
            assert(open.drop_first() =~= table@.skip(index + 1));
        }
        index = index + 1;
    }
    None
}

/// Reads the text under a key.
pub fn get_text(table: &Vec<(String, ConfigValue)>, key: &str) -> (result: Result<
    String,
    PackError,
>)
    ensures
        match spec_text(table@, key@) {
            Ok(text) => result matches Ok(found) && found@ == text,
            Err((fault, field)) => result matches Err(error) && error.reports(
                fault,
                Seq::empty(),
                field,
            ),
        },
{
    match get(table, key) {
        None => Err(PackError::about(PackFault::MissingField, key)),
        Some(ConfigValue::String(text)) => Ok(copy_text(text.as_str())),
        Some(_) => Err(PackError::about(PackFault::MistypedField, key)),
    }
}

/// Reads the whole number under a key, which may be from 0 to `limit`.
pub fn get_number(table: &Vec<(String, ConfigValue)>, key: &str, limit: u64) -> (result: Result<
    u64,
    PackError,
>)
    ensures
        field_matches(result, spec_number(table@, key@, limit)),
{
    match get(table, key) {
        None => Err(PackError::about(PackFault::MissingField, key)),
        Some(ConfigValue::Integer(number)) => {
            if *number >= 0 && *number as u64 <= limit {
                Ok(*number as u64)
            } else {
                Err(PackError::about(PackFault::MistypedField, key))
            }
        },
        Some(_) => Err(PackError::about(PackFault::MistypedField, key)),
    }
}

/// Reads the bit pattern of the number with a fraction under a key.
pub fn get_float(table: &Vec<(String, ConfigValue)>, key: &str) -> (result: Result<
    u32,
    PackError,
>)
    ensures
        field_matches(result, spec_float(table@, key@)),
{
    match get(table, key) {
        None => Err(PackError::about(PackFault::MissingField, key)),
        Some(ConfigValue::Float(bits)) => Ok(*bits),
        Some(_) => Err(PackError::about(PackFault::MistypedField, key)),
    }
}

/// Finds the table under a key.
pub fn get_table<'a>(table: &'a Vec<(String, ConfigValue)>, key: &str) -> (result: Result<
    &'a Vec<(String, ConfigValue)>,
    PackError,
>)
    ensures
        match spec_table(table@, key@) {
            Ok(entries) => result matches Ok(found) && found@ == entries,
            Err((fault, field)) => result matches Err(error) && error.reports(
                fault,
                Seq::empty(),
                field,
            ),
        },
{
    match get(table, key) {
        None => Err(PackError::about(PackFault::MissingField, key)),
        Some(ConfigValue::Table(entries)) => Ok(entries),
        Some(_) => Err(PackError::about(PackFault::MistypedField, key)),
    }
}

/// Reads the list of whole numbers under a key.
pub fn get_extent_list(table: &Vec<(String, ConfigValue)>, key: &str) -> (result: Result<
    Vec<u64>,
    PackError,
>)
    ensures
        match spec_extent_list(table@, key@) {
            Ok(extents) => result matches Ok(found) && found@ == extents,
            Err((fault, field)) => result matches Err(error) && error.reports(
                fault,
                Seq::empty(),
                field,
            ),
        },
{
    let items = match get(table, key) {
        None => {
            return Err(PackError::about(PackFault::MissingField, key));
        },
        Some(ConfigValue::Array(items)) => items,
        Some(_) => {
            return Err(PackError::about(PackFault::MistypedField, key));
        },
    };
    let mut extents: Vec<u64> = Vec::new();
    let mut index: usize = 0;
    assert(items@.take(0) =~= Seq::<ConfigValue>::empty());
    while index < items.len()
        invariant
            index <= items@.len(),
            spec_get(table@, key@) == Some(ConfigValue::Array(*items)),
            spec_extents(items@.take(index as int)) == Some(extents@),
        decreases items@.len() - index,
    {
        proof {
            assert(items@.take(index + 1).drop_last() =~= items@.take(index as int));
        }
        match &items[index] {
            ConfigValue::Integer(number) => {
                if *number < 0 {
                    proof {
                        lemma_extents_none(items@, (index + 1) as nat);
                    }
                    return Err(PackError::about(PackFault::MistypedField, key));
                }
                extents.push(*number as u64);
            },
            _ => {
                proof {
                    lemma_extents_none(items@, (index + 1) as nat);
                }
                return Err(PackError::about(PackFault::MistypedField, key));
            },
        }
        index = index + 1;
    }
    assert(items@.take(index as int) =~= items@);
    Ok(extents)
}

} // verus!
