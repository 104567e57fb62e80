//! What a JSON text holds, as far as the packer looks into one.
//!
//! Parsing is left to `serde_json`. A text is taken apart one level at a
//! time: an object into its members and an array into its items, each value
//! handed on as JSON text of its own.
use vstd::prelude::*;

verus! {

/// The members of the JSON object that `text` is, in the order in which
/// `serde_json` keeps them, each value as compact JSON text. There are none
/// where `text` is not well-formed JSON or is no object.
pub uninterp spec fn json_object_members(text: Seq<char>) -> Option<Seq<(Seq<char>, Seq<char>)>>;

/// The items of the JSON array that `text` is, each as compact JSON text,
/// where `text` is well-formed JSON and an array.
pub uninterp spec fn json_array_items(text: Seq<char>) -> Option<Seq<Seq<char>>>;

/// The string that `text` is, where `text` is a JSON string.
pub uninterp spec fn json_string_value(text: Seq<char>) -> Option<Seq<char>>;

/// The number that `text` is, where `text` is a JSON number without sign,
/// fraction or exponent that fits in 64 bits.
pub uninterp spec fn json_u64_value(text: Seq<char>) -> Option<u64>;

/// The numbers that `text` holds, where `text` is a JSON array of which
/// every item is such a number.
pub uninterp spec fn json_u64_items(text: Seq<char>) -> Option<Seq<u64>>;

/// What each pair of texts stands for.
pub open spec fn pair_views(pairs: Seq<(String, String)>) -> Seq<(Seq<char>, Seq<char>)> {
    Seq::new(pairs.len(), |index: int| (pairs[index].0@, pairs[index].1@))
}

/// What each text stands for.
pub open spec fn text_views(texts: Seq<String>) -> Seq<Seq<char>> {
    Seq::new(texts.len(), |index: int| texts[index]@)
}

/// `serde_json::from_str` into a `serde_json::Map`, which takes a text that
/// is well-formed JSON and an object. Each value is handed out as the text
/// that `serde_json` prints for it.
#[verifier::external_body]
pub(crate) fn json_members(text: &str) -> (members: Option<Vec<(String, String)>>)
    ensures
        match members {
            Some(members) => json_object_members(text@) == Some(pair_views(members@)),
            None => json_object_members(text@).is_none(),
        },
{
    let map = serde_json::from_str::<serde_json::Map<String, serde_json::Value>>(text).ok()?;
    Some(map.into_iter().map(|(key, value)| (key, value.to_string())).collect())
}

/// `serde_json::from_str` into a vector of values, which takes a text that
/// is well-formed JSON and an array. Each item is handed out as the text
/// that `serde_json` prints for it.
#[verifier::external_body]
pub(crate) fn json_items(text: &str) -> (items: Option<Vec<String>>)
    ensures
        match items {
            Some(items) => json_array_items(text@) == Some(text_views(items@)),
            None => json_array_items(text@).is_none(),
        },
{
    let items = serde_json::from_str::<Vec<serde_json::Value>>(text).ok()?;
    Some(items.into_iter().map(|value| value.to_string()).collect())
}

/// `serde_json::from_str` into a `String`, which takes a JSON string.
#[verifier::external_body]
pub(crate) fn json_string(text: &str) -> (value: Option<String>)
    ensures
        match value {
            Some(value) => json_string_value(text@) == Some(value@),
            None => json_string_value(text@).is_none(),
        },
{
    serde_json::from_str::<String>(text).ok()
}

/// `serde_json::from_str` into a `u64`, which takes a JSON number without
/// sign, fraction or exponent that fits in 64 bits.
#[verifier::external_body]
pub(crate) fn json_u64(text: &str) -> (value: Option<u64>)
    ensures
        value == json_u64_value(text@),
{
    serde_json::from_str::<u64>(text).ok()
}

/// `serde_json::from_str` into a vector of `u64`, which takes a JSON array of
/// such numbers.
#[verifier::external_body]
pub(crate) fn json_u64_list(text: &str) -> (values: Option<Vec<u64>>)
    ensures
        match values {
            Some(values) => json_u64_items(text@) == Some(values@),
            None => json_u64_items(text@).is_none(),
        },
{
    serde_json::from_str::<Vec<u64>>(text).ok()
}

/// The value of the first member with the given key.
pub open spec fn member(members: Seq<(Seq<char>, Seq<char>)>, key: Seq<char>) -> Option<Seq<char>>
    decreases members.len(),
{
    if members.len() == 0 {
        None
    } else if members[0].0 == key {
        Some(members[0].1)
    } else {
        member(members.drop_first(), key)
    }
}

/// Finds the value of the first member with the given key.
pub fn find_member<'a>(members: &'a Vec<(String, String)>, key: &str) -> (value: Option<&'a String>)
    ensures
        match value {
            Some(value) => member(pair_views(members@), key@) == Some(value@),
            None => member(pair_views(members@), key@).is_none(),
        },
{
    let wanted = crate::text::copy_text(key);
    let ghost views = pair_views(members@);
    let mut index: usize = 0;
    assert(views.skip(0) =~= views);
    while index < members.len()
        invariant
            index <= members@.len(),
            views == pair_views(members@),
            wanted@ == key@,
            member(views, key@) == member(views.skip(index as int), key@),
        decreases members@.len() - index,
    {
        let ghost open = views.skip(index as int);
        if members[index].0 == wanted {
            assert(open[0].0 == key@);
            return Some(&members[index].1);
        }
        proof {
            assert(open.drop_first() =~= views.skip(index + 1));
        }
        index = index + 1;
    }
    None
}

} // verus!
