//! The Tickflow source language: what its statements are, and how its
//! literals are written.
use vstd::prelude::*;
use vstd::string::StringExecFns;

pub mod better_nom_regex;
pub mod classic;
pub mod error;
pub mod numbers;

pub use error::{Error, OldTfError};

verus! {

/// Why a number could not be read.
#[derive(Debug, Clone, Copy, PartialEq, Eq, Structural)]
pub enum IntErrorKind {
    /// There was nothing to read.
    Empty,
    /// A character was no digit of the radix.
    InvalidDigit,
    /// The number is too large.
    PosOverflow,
    /// The number is too small.
    NegOverflow,
    /// The number is zero where zero is not allowed.
    Zero,
    /// Any other reason.
    Other,
}

/// `text` with every occurrence of `from` replaced by `to`: the
/// occurrences are found from the left, and do not overlap.
pub open spec fn replaced(text: Seq<char>, from: Seq<char>, to: Seq<char>) -> Seq<char>
    decreases text.len(),
{
    if from.len() == 0 || text.len() < from.len() {
        text
    } else if text.subrange(0, from.len() as int) == from {
        to + replaced(text.skip(from.len() as int), from, to)
    } else {
        seq![text[0]] + replaced(text.skip(1), from, to)
    }
}

/// `text` with every occurrence of `from`, which is not empty, replaced by
/// `to`.
#[verifier::rlimit(50)]
pub fn replace(text: &str, from: &str, to: &str) -> (out: String)
    requires
        from@.len() > 0,
    ensures
        out@ == replaced(text@, from@, to@),
{
    let chars = to_chars(text);
    let pattern = to_chars(from);
    let len = chars.len();
    let width = pattern.len();
    let mut out = String::new();
    let mut i: usize = 0;
    assert(text@.skip(0) =~= text@);
    while i < len
        invariant
            i <= len,
            len == chars.len(),
            width == pattern.len(),
            width > 0,
            chars@ == text@,
            pattern@ == from@,
            replaced(text@, from@, to@) == out@ + replaced(text@.skip(i as int), from@, to@),
        decreases len - i,
    {
        let ghost rest = text@.skip(i as int);
        let ghost before = out@;
        let mut found = width <= len - i;
        let mut k: usize = 0;
        while found && k < width
            invariant
                k <= width,
                i < len,
                len == chars.len(),
                width == pattern.len(),
                found ==> width <= len - i,
                found ==> forall|j: int| 0 <= j < k ==> chars@[i + j] == pattern@[j],
                !found ==> width > len - i || exists|j: int|
                    0 <= j < width && i + j < len && chars@[i + j] != pattern@[j],
            decreases width - k, found as int,
        {
            if chars[i + k] != pattern[k] {
                found = false;
            } else {
                k += 1;
            }
        }
        if found {
            assert(rest.subrange(0, width as int) =~= from@);
            assert(rest.skip(width as int) =~= text@.skip(i + width));
            out.append(to);
            i += width;
            assert(before + (to@ + replaced(text@.skip(i as int), from@, to@)) =~= out@ + replaced(
                text@.skip(i as int),
                from@,
                to@,
            ));
        } else {
            assert(rest.len() < width || rest.subrange(0, width as int) != from@) by {
                if rest.len() >= width {
                    let j = choose|j: int|
                        0 <= j < width && i + j < len && chars@[i + j] != pattern@[j];
                    assert(rest.subrange(0, width as int)[j] == chars@[i + j]);
                }
            }
            assert(rest.skip(1) =~= text@.skip(i + 1));
            push_char(&mut out, chars[i]);
            i += 1;
            assert(before + (seq![rest[0]] + replaced(text@.skip(i as int), from@, to@)) =~= out@
                + replaced(text@.skip(i as int), from@, to@));
        }
    }
    assert(out@ + Seq::<char>::empty() =~= out@);
    out
}

/// The characters of a text.
pub fn to_chars(text: &str) -> (chars: Vec<char>)
    ensures
        chars@ == text@,
{
    let mut chars: Vec<char> = Vec::new();
    for c in it: text.chars()
        invariant
            chars@ == it.seq().take(it.index() as int),
            it.seq() == text@,
    {
        chars.push(c);
        assert(chars@ =~= it.seq().take(it.index() + 1));
    }
    assert(chars@ =~= text@);
    chars
}

/// The text of the characters from `from` up to `to`.
pub fn text_of(chars: &Vec<char>, from: usize, to: usize) -> (text: String)
    requires
        from <= to <= chars.len(),
    ensures
        text@ == chars@.subrange(from as int, to as int),
{
    let mut text = String::new();
    let mut i: usize = from;
    while i < to
        invariant
            from <= i <= to <= chars.len(),
            text@ == chars@.subrange(from as int, i as int),
        decreases to - i,
    {
        push_char(&mut text, chars[i]);
        i += 1;
        assert(text@ =~= chars@.subrange(from as int, i as int));
    }
    text
}

/// Appends a character to a text with `String::push`.
#[verifier::external_body]
pub(crate) fn push_char(text: &mut String, c: char)
    ensures
        final(text)@ == old(text)@.push(c),
{
    text.push(c);
}

/// What `i64::from_str_radix` makes of a text in a radix from 2 to 36.
pub uninterp spec fn parsed_i64(src: Seq<char>, radix: u32) -> Result<i64, IntErrorKind>;

/// Calls `i64::from_str_radix`, which reads an optional sign and then digits
/// of the given radix. The result depends on the text and the radix alone.
#[verifier::external_body]
fn parse_i64(src: &str, radix: u32) -> (number: Result<i64, IntErrorKind>)
    requires
        2 <= radix <= 36,
    ensures
        number == parsed_i64(src@, radix),
{
    match i64::from_str_radix(src, radix) {
        Ok(number) => Ok(number),
        Err(e) => Err(
            match e.kind() {
                std::num::IntErrorKind::Empty => IntErrorKind::Empty,
                std::num::IntErrorKind::InvalidDigit => IntErrorKind::InvalidDigit,
                std::num::IntErrorKind::PosOverflow => IntErrorKind::PosOverflow,
                std::num::IntErrorKind::NegOverflow => IntErrorKind::NegOverflow,
                std::num::IntErrorKind::Zero => IntErrorKind::Zero,
                _ => IntErrorKind::Other,
            },
        ),
    }
}

/// A backslash.
pub open spec fn backslash() -> Seq<char> {
    seq!['\\']
}

/// Two backslashes: how a backslash is written in a string literal.
pub open spec fn escaped_backslash() -> Seq<char> {
    seq!['\\', '\\']
}

/// A line feed.
pub open spec fn line_feed() -> Seq<char> {
    seq!['\n']
}

/// A backslash and the letter n: how a line feed is written in a string
/// literal.
pub open spec fn escaped_line_feed() -> Seq<char> {
    seq!['\\', 'n']
}

/// A double quote.
pub open spec fn quote() -> Seq<char> {
    seq!['"']
}

/// A backslash and a double quote: how a double quote is written in a
/// string literal.
pub open spec fn escaped_quote() -> Seq<char> {
    seq!['\\', '"']
}

/// The text that the inside of a string literal stands for: the escapes
/// are resolved one kind after the other, backslashes first, then line
/// feeds, then quotes.
pub open spec fn unescaped(text: Seq<char>) -> Seq<char> {
    replaced(
        replaced(replaced(text, escaped_backslash(), backslash()), escaped_line_feed(), line_feed()),
        escaped_quote(),
        quote(),
    )
}

/// The inside of the string literal that stands for a text: backslashes
/// are escaped first, then line feeds, then quotes.
pub open spec fn escaped(text: Seq<char>) -> Seq<char> {
    replaced(
        replaced(replaced(text, backslash(), escaped_backslash()), line_feed(), escaped_line_feed()),
        quote(),
        escaped_quote(),
    )
}

pub fn process_escapes(string: &str) -> (out: String)
    ensures
        out@ == unescaped(string@),
{
    proof {
        reveal_strlit("\\\\");
        reveal_strlit("\\");
        reveal_strlit("\\n");
        reveal_strlit("\n");
        reveal_strlit("\\\"");
        reveal_strlit("\"");
    }
    assert("\\\\"@ =~= escaped_backslash());
    assert("\\"@ =~= backslash());
    assert("\\n"@ =~= escaped_line_feed());
    assert("\n"@ =~= line_feed());
    assert("\\\""@ =~= escaped_quote());
    assert("\""@ =~= quote());
    let first = replace(string, "\\\\", "\\");
    let second = replace(first.as_str(), "\\n", "\n");
    replace(second.as_str(), "\\\"", "\"")
}

pub fn create_escapes(string: &str) -> (out: String)
    ensures
        out@ == escaped(string@),
{
    proof {
        reveal_strlit("\\\\");
        reveal_strlit("\\");
        reveal_strlit("\\n");
        reveal_strlit("\n");
        reveal_strlit("\\\"");
        reveal_strlit("\"");
    }
    assert("\\\\"@ =~= escaped_backslash());
    assert("\\"@ =~= backslash());
    assert("\\n"@ =~= escaped_line_feed());
    assert("\n"@ =~= line_feed());
    assert("\\\""@ =~= escaped_quote());
    assert("\""@ =~= quote());
    let first = replace(string, "\\", "\\\\");
    let second = replace(first.as_str(), "\n", "\\n");
    replace(second.as_str(), "\"", "\\\"")
}

/// The 32-bit number that a 64-bit number stands for, signed or not: a
/// number from zero up to the largest unsigned 32-bit number is taken by
/// its bits, so that the upper half comes out negative, and a negative
/// number must be one that 32 bits hold.
pub open spec fn anysign(number: i64) -> Result<i32, IntErrorKind> {
    if number >= 0 {
        if number > u32::MAX {
            Err(IntErrorKind::PosOverflow)
        } else if number > i32::MAX {
            Ok((number - 0x1_0000_0000) as i32)
        } else {
            Ok(number as i32)
        }
    } else if number < i32::MIN {
        Err(IntErrorKind::NegOverflow)
    } else {
        Ok(number as i32)
    }
}

/// Fits a number that was read into 32 bits, signed or not.
pub fn fit_anysign(number: i64) -> (fitted: Result<i32, IntErrorKind>)
    ensures
        fitted == anysign(number),
{
    if number >= 0 {
        if number > (u32::MAX as i64) {
            Err(IntErrorKind::PosOverflow)
        } else if number > (i32::MAX as i64) {
            Ok((number - 0x1_0000_0000) as i32)
        } else {
            Ok(number as i32)
        }
    } else if number < (i32::MIN as i64) {
        Err(IntErrorKind::NegOverflow)
    } else {
        Ok(number as i32)
    }
}

/// What a text reads as, as a 32-bit number, signed or not.
pub open spec fn read_anysign(parsed: Result<i64, IntErrorKind>) -> Result<i32, IntErrorKind> {
    match parsed {
        Ok(number) => anysign(number),
        Err(e) => Err(e),
    }
}

/// Reads a number in the given radix, which lies between 2 and 36, and
/// fits it into 32 bits, signed or not.
pub fn read_anysign_int(src: &str, radix: u32) -> (number: Result<i32, IntErrorKind>)
    requires
        2 <= radix <= 36,
    ensures
        number == read_anysign(parsed_i64(src@, radix)),
{
    match parse_i64(src, radix) {
        Ok(number) => fit_anysign(number),
        Err(e) => Err(e),
    }
}

} // verus!
