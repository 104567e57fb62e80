//! Text as bytes, bytes as text, and the small pieces of text that the
//! packer builds: numbers in decimal and names made from templates.
use vstd::prelude::*;
use vstd::string::StrSliceExecFns;
use vstd::utf8::{decode_utf8, valid_utf8};

verus! {

/// The character that a template holds in place of a number.
pub const PLACEHOLDER: char = '$';

/// `String::from_utf8` of std: the text that `bytes` spell in UTF-8, and
/// nothing where they are not UTF-8. The claim is that std accepts exactly
/// the sequences that `valid_utf8` describes and decodes them as
/// `decode_utf8` does.
#[verifier::external_body]
pub(crate) fn text_from_utf8(bytes: Vec<u8>) -> (text: Option<String>)
    ensures
        match text {
            Some(text) => valid_utf8(bytes@) && text@ == decode_utf8(bytes@),
            None => !valid_utf8(bytes@),
        },
{
    String::from_utf8(bytes).ok()
}

/// `String::push_str` of std: appends the characters of `tail`.
#[verifier::external_body]
pub(crate) fn push_text(text: &mut String, tail: &str)
    ensures
        final(text)@ == old(text)@ + tail@,
{
    text.push_str(tail)
}

/// `String::push` of std: appends one character.
#[verifier::external_body]
pub(crate) fn push_char(text: &mut String, last: char)
    ensures
        final(text)@ == old(text)@.push(last),
{
    text.push(last)
}

/// The character of a decimal digit.
pub open spec fn digit_char(digit: nat) -> char {
    (0x30 + digit % 10) as char
}

/// A number in decimal, without leading zeros.
pub open spec fn decimal(number: nat) -> Seq<char>
    decreases number,
{
    if number < 10 {
        seq![digit_char(number)]
    } else {
        decimal(number / 10).push(digit_char(number % 10))
    }
}

/// A template with every placeholder replaced by `with`.
pub open spec fn substitute(template: Seq<char>, with: Seq<char>) -> Seq<char>
    decreases template.len(),
{
    if template.len() == 0 {
        Seq::empty()
    } else if template.last() == PLACEHOLDER {
        substitute(template.drop_last(), with) + with
    } else {
        substitute(template.drop_last(), with).push(template.last())
    }
}

/// `first` and `second` with a dot between them.
pub open spec fn dotted(first: Seq<char>, second: Seq<char>) -> Seq<char> {
    first + seq!['.'] + second
}

/// Appends a number in decimal.
pub fn push_decimal(text: &mut String, number: u64)
    ensures
        final(text)@ == old(text)@ + decimal(number as nat),
    decreases number,
{
    if number >= 10 {
        push_decimal(text, number / 10);
    }
    let digit = (0x30u8 + (number % 10) as u8) as char;
    push_char(text, digit);
    proof {
        if number >= 10 {
            assert(text@ =~= old(text)@ + decimal((number / 10) as nat).push(digit));
        } else {
            assert(text@ =~= old(text)@ + seq![digit]);
        }
    }
}

/// A number in decimal.
pub fn decimal_text(number: u64) -> (text: String)
    ensures
        text@ == decimal(number as nat),
{
    let mut text = String::new();
    push_decimal(&mut text, number);
    assert(Seq::<char>::empty() + decimal(number as nat) =~= decimal(number as nat));
    text
}

/// A copy of `template` in which every `$` is replaced by `with`.
pub fn replace_placeholder(template: &str, with: &str) -> (text: String)
    ensures
        text@ == substitute(template@, with@),
{
    let mut text = String::new();
    let count = template.unicode_len();
    let mut index: usize = 0;
    assert(template@.take(0) =~= Seq::<char>::empty());
    while index < count
        invariant
            index <= count == template@.len(),
            text@ == substitute(template@.take(index as int), with@),
        decreases count - index,
    {
        let letter = template.get_char(index);
        proof {
            assert(template@.take(index + 1).drop_last() =~= template@.take(index as int));
            assert(template@.take(index + 1).last() == letter);
        }
        if letter == PLACEHOLDER {
            push_text(&mut text, with);
        } else {
            push_char(&mut text, letter);
        }
        index = index + 1;
    }
    assert(template@.take(count as int) =~= template@);
    text
}

/// `first` and `second` with a dot between them.
pub fn join_dotted(first: &str, second: &str) -> (text: String)
    ensures
        text@ == dotted(first@, second@),
{
    let mut text = String::new();
    push_text(&mut text, first);
    push_char(&mut text, '.');
    push_text(&mut text, second);
    assert(text@ =~= dotted(first@, second@));
    text
}

/// A copy of a text.
pub fn copy_text(source: &str) -> (text: String)
    ensures
        text@ == source@,
{
    source.to_owned()
}

/// The value of a decimal digit, if the character is one.
pub open spec fn digit_value(digit: char) -> Option<nat> {
    if '0' <= digit <= '9' {
        Some((digit as nat - 0x30) as nat)
    } else {
        None
    }
}

/// The number that a run of decimal digits spells; the empty run spells 0.
pub open spec fn digits_value(digits: Seq<char>) -> Option<nat>
    decreases digits.len(),
{
    if digits.len() == 0 {
        Some(0)
    } else {
        match (digits_value(digits.drop_last()), digit_value(digits.last())) {
            (Some(front), Some(last)) => Some(front * 10 + last),
            _ => None,
        }
    }
}

/// The number that a text spells: decimal digits, at least one, after an
/// optional plus sign, and of a value that fits in 64 bits.
pub open spec fn spec_parse_number(text: Seq<char>) -> Option<u64> {
    let digits = if text.len() > 0 && text[0] == '+' {
        text.skip(1)
    } else {
        text
    };
    if digits.len() == 0 {
        None
    } else {
        match digits_value(digits) {
            Some(value) => if value <= u64::MAX {
                Some(value as u64)
            } else {
                None
            },
            None => None,
        }
    }
}

/// Where the first two dots in a row stand, if there are any.
pub open spec fn spec_find_dots(text: Seq<char>) -> Option<nat>
    decreases text.len(),
{
    if text.len() < 2 {
        None
    } else if text[0] == '.' && text[1] == '.' {
        Some(0)
    } else {
        match spec_find_dots(text.drop_first()) {
            Some(place) => Some(place + 1),
            None => None,
        }
    }
}

/// The bounds that a range spells: a number, two dots, a number. The range
/// is split at its first two dots.
pub open spec fn spec_parse_range(text: Seq<char>) -> Option<(u64, u64)> {
    match spec_find_dots(text) {
        None => None,
        Some(place) => match (
            spec_parse_number(text.take(place as int)),
            spec_parse_number(text.skip(place as int + 2)),
        ) {
            (Some(start), Some(end)) => Some((start, end)),
            _ => None,
        },
    }
}

/// A run of which a front part spells no number, or one that is too large
/// for a bound, spells none either, or one that is as large at least.
pub proof fn lemma_digits_grow(digits: Seq<char>, front: nat, bound: nat)
    requires
        front <= digits.len(),
        digits_value(digits.take(front as int)) matches Some(value) ==> value > bound,
    ensures
        digits_value(digits) matches Some(value) ==> value > bound,
    decreases digits.len(),
{
    if front < digits.len() {
        assert(digits.drop_last().take(front as int) =~= digits.take(front as int));
        lemma_digits_grow(digits.drop_last(), front, bound);
    } else {
        assert(digits.take(front as int) =~= digits);
    }
}

/// Reading a number in decimal gives the number back, so no two numbers are
/// written alike.
pub proof fn lemma_decimal_value(number: nat)
    ensures
        decimal(number).len() > 0,
        digits_value(decimal(number)) == Some(number),
    decreases number,
{
    let last = digit_char(number % 10);
    assert(last as nat == 0x30 + number % 10);
    assert('0' as nat == 0x30 && '9' as nat == 0x39);
    assert(digit_value(last) == Some(number % 10));
    assert(decimal(number).last() == last);
    if number >= 10 {
        lemma_decimal_value(number / 10);
        assert(decimal(number).drop_last() =~= decimal(number / 10));
    } else {
        assert(decimal(number).drop_last() =~= Seq::<char>::empty());
        assert(digits_value(Seq::<char>::empty()) == Some(0nat));
    }
}

/// Reads the number that a text spells: decimal digits, at least one, after
/// an optional plus sign. A number that does not fit in 64 bits is none.
pub fn parse_number(text: &str) -> (value: Option<u64>)
    ensures
        value == spec_parse_number(text@),
{
    let count = text.unicode_len();
    assert(text@.subrange(0, count as int) =~= text@);
    number_between(text, 0, count)
}

/// Reads the bounds of a range such as `0..12`: a number, two dots, a
/// number. The text is split at its first two dots.
pub fn parse_range(text: &str) -> (range: Option<(u64, u64)>)
    ensures
        range == spec_parse_range(text@),
{
    assert(text@.skip(0) =~= text@);
    range_from(text, 0)
}

/// Reads the number that the characters from `from` up to `to` spell.
fn number_between(text: &str, from: usize, to: usize) -> (value: Option<u64>)
    requires
        from <= to <= text@.len(),
    ensures
        value == spec_parse_number(text@.subrange(from as int, to as int)),
{
    let ghost whole = text@.subrange(from as int, to as int);
    let mut index = from;
    if index < to && text.get_char(index) == '+' {
        index = index + 1;
    }
    if index >= to {
        return None;
    }
    let first = index;
    let ghost digits = text@.subrange(first as int, to as int);
    proof {
        if first > from {
            assert(whole.skip(1) =~= digits);
        } else {
            assert(whole =~= digits);
        }
        assert(digits.take(0) =~= Seq::<char>::empty());
    }
    let mut value: u64 = 0;
    while index < to
        invariant
            from <= first <= index <= to <= text@.len(),
            first < to,
            whole == text@.subrange(from as int, to as int),
            digits == text@.subrange(first as int, to as int),
            first > from ==> whole[0] == '+' && whole.skip(1) == digits,
            first == from ==> whole[0] != '+' && whole == digits,
            digits_value(digits.take(index - first)) == Some(value as nat),
        decreases to - index,
    {
        let letter = text.get_char(index);
        proof {
            assert(digits.take(index - first + 1).drop_last() =~= digits.take(index - first));
            assert(digits.take(index - first + 1).last() == letter);
        }
        if letter < '0' || letter > '9' {
            proof {
                lemma_digits_grow(digits, (index - first + 1) as nat, u64::MAX as nat);
            }
            return None;
        }
        let digit = (letter as u32 - 0x30) as u64;
        proof {
            assert(digits_value(digits.take(index - first + 1)) == Some(
                (value * 10 + digit) as nat,
            ));
        }
        let next = match value.checked_mul(10) {
            Some(scaled) => scaled.checked_add(digit),
            None => None,
        };
        match next {
            Some(next) => {
                value = next;
            },
            None => {
                proof {
                    lemma_digits_grow(digits, (index - first + 1) as nat, u64::MAX as nat);
                }
                return None;
            },
        }
        index = index + 1;
    }
    proof {
        assert(digits.take(to - first) =~= digits);
    }
    Some(value)
}

/// Finds the first two dots in a row among the characters from `from` on.
fn dots_from(text: &str, from: usize) -> (place: Option<usize>)
    requires
        from <= text@.len(),
    ensures
        match place {
            Some(place) => from <= place && place + 2 <= text@.len() && spec_find_dots(
                text@.skip(from as int),
            ) == Some((place - from) as nat),
            None => spec_find_dots(text@.skip(from as int)).is_none(),
        },
{
    let count = text.unicode_len();
    let ghost open = text@.skip(from as int);
    let mut index = from;
    while count - index > 1
        invariant
            from <= index <= count == text@.len(),
            open == text@.skip(from as int),
            match spec_find_dots(text@.skip(index as int)) {
                Some(place) => spec_find_dots(open) == Some((place + index - from) as nat),
                None => spec_find_dots(open).is_none(),
            },
        decreases count - index,
    {
        let ghost rest = text@.skip(index as int);
        proof {
            assert(rest.drop_first() =~= text@.skip(index + 1));
        }
        if text.get_char(index) == '.' && text.get_char(index + 1) == '.' {
            return Some(index);
        }
        index = index + 1;
    }
    None
}

/// Reads the bounds of a range from the characters from `from` on.
pub(crate) fn range_from(text: &str, from: usize) -> (range: Option<(u64, u64)>)
    requires
        from <= text@.len(),
    ensures
        range == spec_parse_range(text@.skip(from as int)),
{
    let count = text.unicode_len();
    let place = match dots_from(text, from) {
        Some(place) => place,
        None => {
            return None;
        },
    };
    proof {
        let open = text@.skip(from as int);
        assert(open.take(place - from) =~= text@.subrange(from as int, place as int));
        assert(open.skip(place - from + 2) =~= text@.subrange(place + 2, count as int));
    }
    let start = number_between(text, from, place);
    let end = number_between(text, place + 2, count);
    match (start, end) {
        (Some(start), Some(end)) => Some((start, end)),
        _ => None,
    }
}

} // verus!
