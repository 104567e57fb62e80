//! The vocabulary text of a tokenizer: one token per line, each written as
//! a quoted byte literal such as `b'the'` or `b"\xe4\xb8"`.
use vstd::prelude::*;
use vstd::slice::{slice_subrange, slice_to_vec};
use vstd::utf8::encode_utf8;
use crate::read::metadata::element_views;

verus! {

/// What is wrong with a line of vocabulary text.
#[derive(Debug, Clone, Copy, PartialEq, Eq, Structural)]
pub enum VocabFault {
    /// The line does not start with `b'` or `b"`, does not end with a quote,
    /// or has no room for both.
    InvalidFormat,
    /// A backslash is followed by something other than `\`, `'`, `"`, `t`,
    /// `r`, `n`, or `x` and two hexadecimal digits.
    UnknownEscape,
    /// The line stands for a token without bytes.
    EmptyToken,
}

/// A fault in vocabulary text, and the line that has it.
#[derive(Debug, Clone, Copy, PartialEq, Eq, Structural)]
pub struct VocabError {
    /// The number of the line, counted from 0.
    pub line: usize,
    /// What is wrong with it.
    pub fault: VocabFault,
}

/// The line feed.
pub const LINE_FEED: u8 = 0x0a;

/// The carriage return.
pub const CARRIAGE_RETURN: u8 = 0x0d;

/// The backslash, which starts an escape.
pub const BACKSLASH: u8 = 0x5c;

/// The single quote.
pub const SINGLE_QUOTE: u8 = 0x27;

/// The double quote.
pub const DOUBLE_QUOTE: u8 = 0x22;

/// How many bytes stand before the first line feed of `text`: all of them
/// where it has none.
pub open spec fn first_line_feed(text: Seq<u8>) -> nat
    decreases text.len(),
{
    if text.len() == 0 || text[0] == LINE_FEED {
        0
    } else {
        1 + first_line_feed(text.drop_first())
    }
}

/// A line without the carriage return that ended it, if one did.
pub open spec fn without_carriage_return(line: Seq<u8>) -> Seq<u8> {
    if line.len() > 0 && line.last() == CARRIAGE_RETURN {
        line.drop_last()
    } else {
        line
    }
}

/// The lines of a text. A line ends at a line feed, or at a carriage return
/// and a line feed, neither of which belongs to it. What follows the last
/// line feed is a line if it is not empty, and keeps its carriage return.
pub open spec fn spec_split_lines(text: Seq<u8>) -> Seq<Seq<u8>>
    decreases text.len(),
{
    if text.len() == 0 {
        Seq::empty()
    } else {
        let end = first_line_feed(text);
        if end >= text.len() {
            seq![text]
        } else {
            seq![without_carriage_return(text.take(end as int))] + spec_split_lines(
                text.skip(end as int + 1),
            )
        }
    }
}

/// The value of a hexadecimal digit, in either case.
pub open spec fn hex_value(digit: u8) -> Option<u8> {
    if 0x30 <= digit <= 0x39 {
        Some((digit - 0x30) as u8)
    } else if 0x61 <= digit <= 0x66 {
        Some((digit - 0x61 + 10) as u8)
    } else if 0x41 <= digit <= 0x46 {
        Some((digit - 0x41 + 10) as u8)
    } else {
        None
    }
}

/// The byte that a one-letter escape stands for.
pub open spec fn simple_escape(letter: u8) -> Option<u8> {
    if letter == BACKSLASH {
        Some(BACKSLASH)
    } else if letter == SINGLE_QUOTE {
        Some(SINGLE_QUOTE)
    } else if letter == DOUBLE_QUOTE {
        Some(DOUBLE_QUOTE)
    } else if letter == 0x74 {
        Some(0x09u8)
    } else if letter == 0x72 {
        Some(0x0du8)
    } else if letter == 0x6e {
        Some(0x0au8)
    } else {
        None
    }
}

/// `bytes` followed by what `rest` decodes to, or the fault of `rest`.
pub open spec fn prepend(bytes: Seq<u8>, rest: Result<Seq<u8>, VocabFault>) -> Result<
    Seq<u8>,
    VocabFault,
> {
    match rest {
        Ok(rest) => Ok(bytes + rest),
        Err(fault) => Err(fault),
    }
}

/// The bytes that escaped text stands for. A byte other than a backslash
/// stands for itself. An escape that the end of the text cuts short stands
/// for nothing.
pub open spec fn spec_unescape(text: Seq<u8>) -> Result<Seq<u8>, VocabFault>
    decreases text.len(),
{
    if text.len() == 0 {
        Ok(Seq::empty())
    } else if text[0] != BACKSLASH {
        prepend(seq![text[0]], spec_unescape(text.skip(1)))
    } else if text.len() == 1 {
        Ok(Seq::empty())
    } else if text[1] == 0x78 {
        if text.len() < 4 {
            Ok(Seq::empty())
        } else {
            match (hex_value(text[2]), hex_value(text[3])) {
                (Some(high), Some(low)) => prepend(
                    seq![(high * 16 + low) as u8],
                    spec_unescape(text.skip(4)),
                ),
                _ => Err(VocabFault::UnknownEscape),
            }
        }
    } else {
        match simple_escape(text[1]) {
            Some(byte) => prepend(seq![byte], spec_unescape(text.skip(2))),
            None => Err(VocabFault::UnknownEscape),
        }
    }
}

/// Whether a line has the quotes of a byte literal around its content.
pub open spec fn well_quoted(line: Seq<u8>) -> bool {
    &&& line.len() >= 3
    &&& line[0] == 0x62
    &&& line[1] == SINGLE_QUOTE || line[1] == DOUBLE_QUOTE
    &&& line.last() == SINGLE_QUOTE || line.last() == DOUBLE_QUOTE
}

/// The bytes that a line stands for: what is between its quotes, with the
/// escapes resolved.
pub open spec fn spec_parse_vocab_line(line: Seq<u8>) -> Result<Seq<u8>, VocabFault> {
    if !well_quoted(line) {
        Err(VocabFault::InvalidFormat)
    } else {
        spec_unescape(line.subrange(2, line.len() - 1))
    }
}

/// The lower-case hexadecimal digit of a value below 16.
pub open spec fn hex_digit(value: u8) -> u8 {
    if value < 10 {
        (0x30 + value) as u8
    } else {
        (0x61 + value - 10) as u8
    }
}

/// Whether a token is a single byte that is no text on its own: zero, or a
/// byte from 0x80 up.
pub open spec fn needs_workaround(token: Seq<u8>) -> bool {
    token.len() == 1 && (token[0] == 0 || token[0] >= 0x80)
}

/// A token as it is stored: a single byte that is no text on its own is
/// spelled out as the four characters `\xNN`, every other token is kept.
pub open spec fn spec_workaround(token: Seq<u8>) -> Seq<u8> {
    if needs_workaround(token) {
        seq![BACKSLASH, 0x78u8, hex_digit(token[0] / 16), hex_digit(token[0] % 16)]
    } else {
        token
    }
}

/// The token of a line, or why the line has none: the bytes that the line
/// stands for, of which there has to be at least one.
pub open spec fn spec_token(line: Seq<u8>) -> Result<Seq<u8>, VocabFault> {
    match spec_parse_vocab_line(line) {
        Err(fault) => Err(fault),
        Ok(token) => if token.len() == 0 {
            Err(VocabFault::EmptyToken)
        } else {
            Ok(token)
        },
    }
}

/// The tokens of the given lines in their order, or the first line that has
/// none and why.
pub open spec fn spec_tokens(lines: Seq<Seq<u8>>) -> Result<Seq<Seq<u8>>, VocabError>
    decreases lines.len(),
{
    if lines.len() == 0 {
        Ok(Seq::empty())
    } else {
        match spec_tokens(lines.drop_last()) {
            Err(error) => Err(error),
            Ok(tokens) => match spec_token(lines.last()) {
                Ok(token) => Ok(tokens.push(token)),
                Err(fault) => Err(VocabError { line: (lines.len() - 1) as usize, fault }),
            },
        }
    }
}

/// The vocabulary that a text stands for.
pub open spec fn spec_parse_vocab(text: Seq<u8>) -> Result<Seq<Seq<u8>>, VocabError> {
    spec_tokens(spec_split_lines(text))
}

/// The first line feed is where no byte before is one and the byte there
/// is one, or the text ends.
pub proof fn lemma_first_line_feed(text: Seq<u8>, end: nat)
    requires
        end <= text.len(),
        forall|index: int| 0 <= index < end ==> text[index] != LINE_FEED,
        end == text.len() || text[end as int] == LINE_FEED,
    ensures
        first_line_feed(text) == end,
    decreases end,
{
    if end > 0 {
        lemma_first_line_feed(text.drop_first(), (end - 1) as nat);
    }
}

/// Lines whose front part has a faulty line have the tokens of no line, for
/// the reason of that part.
pub proof fn lemma_tokens_error(lines: Seq<Seq<u8>>, front: nat)
    requires
        front <= lines.len(),
        spec_tokens(lines.take(front as int)) is Err,
    ensures
        spec_tokens(lines) == spec_tokens(lines.take(front as int)),
    decreases lines.len(),
{
    if front < lines.len() {
        assert(lines.drop_last().take(front as int) =~= lines.take(front as int));
        lemma_tokens_error(lines.drop_last(), front);
    } else {
        assert(lines.take(front as int) =~= lines);
    }
}

/// Splits a text into its lines.
pub fn split_lines(text: &[u8]) -> (lines: Vec<Vec<u8>>)
    ensures
        element_views(lines@) == spec_split_lines(text@),
{
    let mut lines: Vec<Vec<u8>> = Vec::new();
    let mut start: usize = 0;
    let mut index: usize = 0;
    proof {
        assert(text@.skip(0) =~= text@);
        assert(element_views(lines@) + spec_split_lines(text@) =~= spec_split_lines(text@));
    }
    while index < text.len()
        invariant
            start <= index <= text@.len(),
            forall|at: int| start <= at < index ==> text@[at] != LINE_FEED,
            spec_split_lines(text@) == element_views(lines@) + spec_split_lines(
                text@.skip(start as int),
            ),
        decreases text@.len() - index,
    {
        if text[index] == LINE_FEED {
            let mut end = index;
            if end > start && text[end - 1] == CARRIAGE_RETURN {
                end = end - 1;
            }
            let line = slice_to_vec(slice_subrange(text, start, end));
            let ghost before = lines@;
            proof {
                let open = text@.skip(start as int);
                lemma_first_line_feed(open, (index - start) as nat);
                assert(open.take(index - start) =~= text@.subrange(start as int, index as int));
                assert(line@ =~= without_carriage_return(open.take(index - start)));
                assert(open.skip(index - start + 1) =~= text@.skip(index + 1));
            }
            lines.push(line);
            proof {
                assert(element_views(lines@) =~= element_views(before).push(line@));
                assert(element_views(before) + (seq![line@] + spec_split_lines(
                    text@.skip(index + 1),
                )) =~= element_views(lines@) + spec_split_lines(text@.skip(index + 1)));
            }
            start = index + 1;
        }
        index = index + 1;
    }
    if start < text.len() {
        let line = slice_to_vec(slice_subrange(text, start, text.len()));
        let ghost before = lines@;
        proof {
            let open = text@.skip(start as int);
            lemma_first_line_feed(open, (text@.len() - start) as nat);
            assert(line@ =~= open);
        }
        lines.push(line);
        proof {
            assert(element_views(lines@) =~= element_views(before).push(line@));
            assert(element_views(before) + seq![line@] =~= element_views(lines@));
        }
    } else {
        assert(element_views(lines@) + Seq::<Seq<u8>>::empty() =~= element_views(lines@));
    }
    lines
}

/// The value of a hexadecimal digit, in either case.
fn hex_digit_value(digit: u8) -> (value: Option<u8>)
    ensures
        value == hex_value(digit),
        value matches Some(v) ==> v < 16,
{
    if 0x30 <= digit && digit <= 0x39 {
        Some(digit - 0x30)
    } else if 0x61 <= digit && digit <= 0x66 {
        Some(digit - 0x61 + 10)
    } else if 0x41 <= digit && digit <= 0x46 {
        Some(digit - 0x41 + 10)
    } else {
        None
    }
}

/// The byte that a one-letter escape stands for.
fn escaped_byte(letter: u8) -> (byte: Option<u8>)
    ensures
        byte == simple_escape(letter),
{
    if letter == BACKSLASH {
        Some(BACKSLASH)
    } else if letter == SINGLE_QUOTE {
        Some(SINGLE_QUOTE)
    } else if letter == DOUBLE_QUOTE {
        Some(DOUBLE_QUOTE)
    } else if letter == 0x74 {
        Some(0x09)
    } else if letter == 0x72 {
        Some(0x0d)
    } else if letter == 0x6e {
        Some(0x0a)
    } else {
        None
    }
}

/// Resolves the escapes of a text. The escapes are `\\`, `\'`, `\"`, `\t`,
/// `\r`, `\n`, and `\x` with two hexadecimal digits; any other is refused.
/// Every other byte is kept, so that text in any encoding passes through.
pub fn unescape(value: &[u8]) -> (result: Result<Vec<u8>, VocabFault>)
    ensures
        match spec_unescape(value@) {
            Ok(bytes) => result matches Ok(decoded) && decoded@ == bytes,
            Err(fault) => result == Err::<Vec<u8>, VocabFault>(fault),
        },
{
    let mut output: Vec<u8> = Vec::new();
    let mut index: usize = 0;
    let count = value.len();
    proof {
        assert(value@.skip(0) =~= value@);
        assert(prepend(output@, spec_unescape(value@)) == spec_unescape(value@)) by {
            if spec_unescape(value@) is Ok {
                assert(output@ + spec_unescape(value@)->Ok_0 =~= spec_unescape(value@)->Ok_0);
            }
        }
    }
    while index < count
        invariant
            index <= count == value@.len(),
            spec_unescape(value@) == prepend(output@, spec_unescape(value@.skip(index as int))),
        decreases count - index,
    {
        let ghost open = value@.skip(index as int);
        let ghost before = output@;
        let byte = value[index];
        if byte != BACKSLASH {
            output.push(byte);
            proof {
                assert(open.skip(1) =~= value@.skip(index + 1));
                lemma_prepend_twice(before, seq![byte], spec_unescape(open.skip(1)));
                assert(before + seq![byte] =~= output@);
            }
            index = index + 1;
        } else if count - index == 1 {
            proof {
                assert(value@.skip(count as int).len() == 0);
                assert(before + Seq::<u8>::empty() =~= before);
            }
            index = count;
        } else if value[index + 1] == 0x78 {
            if count - index < 4 {
                proof {
                    assert(value@.skip(count as int).len() == 0);
                    assert(before + Seq::<u8>::empty() =~= before);
                }
                index = count;
            } else {
                let high = hex_digit_value(value[index + 2]);
                let low = hex_digit_value(value[index + 3]);
                match (high, low) {
                    (Some(high), Some(low)) => {
                        let decoded = high * 16 + low;
                        output.push(decoded);
                        proof {
                            assert(open.skip(4) =~= value@.skip(index + 4));
                            lemma_prepend_twice(
                                before,
                                seq![decoded],
                                spec_unescape(open.skip(4)),
                            );
                            assert(before + seq![decoded] =~= output@);
                        }
                        index = index + 4;
                    },
                    _ => {
                        return Err(VocabFault::UnknownEscape);
                    },
                }
            }
        } else {
            match escaped_byte(value[index + 1]) {
                Some(decoded) => {
                    output.push(decoded);
                    proof {
                        assert(open.skip(2) =~= value@.skip(index + 2));
                        lemma_prepend_twice(before, seq![decoded], spec_unescape(open.skip(2)));
                        assert(before + seq![decoded] =~= output@);
                    }
                    index = index + 2;
                },
                None => {
                    return Err(VocabFault::UnknownEscape);
                },
            }
        }
    }
    proof {
        assert(value@.skip(index as int).len() == 0);
        assert(output@ + Seq::<u8>::empty() =~= output@);
    }
    Ok(output)
}

/// Putting bytes in front twice is putting both in front at once.
pub proof fn lemma_prepend_twice(
    first: Seq<u8>,
    second: Seq<u8>,
    rest: Result<Seq<u8>, VocabFault>,
)
    ensures
        prepend(first, prepend(second, rest)) == prepend(first + second, rest),
{
    if rest is Ok {
        assert(first + (second + rest->Ok_0) =~= first + second + rest->Ok_0);
    }
}

/// Decodes one line of vocabulary text: takes off `b'` or `b"` and the
/// closing quote and resolves the escapes.
pub fn parse_vocab_line(line: &[u8]) -> (result: Result<Vec<u8>, VocabFault>)
    ensures
        match spec_parse_vocab_line(line@) {
            Ok(bytes) => result matches Ok(decoded) && decoded@ == bytes,
            Err(fault) => result == Err::<Vec<u8>, VocabFault>(fault),
        },
{
    let count = line.len();
    if count < 3 {
        return Err(VocabFault::InvalidFormat);
    }
    let opens = line[0] == 0x62 && (line[1] == SINGLE_QUOTE || line[1] == DOUBLE_QUOTE);
    let closes = line[count - 1] == SINGLE_QUOTE || line[count - 1] == DOUBLE_QUOTE;
    if !opens || !closes {
        return Err(VocabFault::InvalidFormat);
    }
    let trimmed = slice_subrange(line, 2, count - 1);
    unescape(trimmed)
}

/// The lower-case hexadecimal digit of a value below 16.
fn hex_digit_of(value: u8) -> (digit: u8)
    requires
        value < 16,
    ensures
        digit == hex_digit(value),
{
    if value < 10 {
        0x30 + value
    } else {
        0x61 + value - 10
    }
}

/// Spells a token that is a single byte and no text on its own, zero or 0x80
/// and up, as the four characters `\xNN`, for readers of the container that
/// take tokens as text and turn such spellings back into bytes. Every other
/// token is left as it is. `parse_vocab` keeps tokens as they are; this is
/// for callers that want the spelling.
pub fn llamacpp_byte_workaround(token: &mut Vec<u8>)
    ensures
        final(token)@ == spec_workaround(old(token)@),
{
    if token.len() != 1 {
        return ;
    }
    let value = token[0];
    if value == 0 || value >= 0x80 {
        let mut spelled: Vec<u8> = Vec::new();
        spelled.push(BACKSLASH);
        spelled.push(0x78);
        spelled.push(hex_digit_of(value / 16));
        spelled.push(hex_digit_of(value % 16));
        assert(spelled@ =~= spec_workaround(token@));
        *token = spelled;
    }
}

/// Decodes vocabulary text: one token per line, in the order of the lines,
/// each token the bytes that its line stands for. The first line that is no
/// byte literal, holds an unknown escape or stands for no bytes at all is
/// reported with its number.
pub fn parse_vocab(raw: &str) -> (result: Result<Vec<Vec<u8>>, VocabError>)
    ensures
        match spec_parse_vocab(encode_utf8(raw@)) {
            Ok(tokens) => result matches Ok(vocab) && element_views(vocab@) == tokens,
            Err(error) => result == Err::<Vec<Vec<u8>>, VocabError>(error),
        },
{
    let lines = split_lines(raw.as_bytes());
    let ghost texts = element_views(lines@);
    let mut vocab: Vec<Vec<u8>> = Vec::new();
    let mut index: usize = 0;
    proof {
        assert(texts.take(0) =~= Seq::<Seq<u8>>::empty());
        assert(element_views(vocab@) =~= Seq::<Seq<u8>>::empty());
    }
    while index < lines.len()
        invariant
            index <= lines@.len(),
            texts == element_views(lines@),
            texts == spec_split_lines(encode_utf8(raw@)),
            spec_tokens(texts.take(index as int)) == Ok::<Seq<Seq<u8>>, VocabError>(
                element_views(vocab@),
            ),
        decreases lines@.len() - index,
    {
        let ghost before = vocab@;
        proof {
            assert(texts.take(index + 1).drop_last() =~= texts.take(index as int));
            assert(texts.take(index + 1).last() == lines@[index as int]@);
        }
        let token = match parse_vocab_line(lines[index].as_slice()) {
            Ok(token) => token,
            Err(fault) => {
                proof {
                    lemma_tokens_error(texts, (index + 1) as nat);
                }
                return Err(VocabError { line: index, fault });
            },
        };
        if token.len() == 0 {
            proof {
                lemma_tokens_error(texts, (index + 1) as nat);
            }
            return Err(VocabError { line: index, fault: VocabFault::EmptyToken });
        }
        vocab.push(token);
        proof {
            assert(element_views(vocab@) =~= element_views(before).push(token@));
        }
        index = index + 1;
    }
    proof {
        assert(texts.take(index as int) =~= texts);
    }
    Ok(vocab)
}

} // verus!
