//! Numbers as text.
use crate::endian::i32_bits;
use crate::parse::push_char;
use vstd::prelude::*;
use vstd::string::{StrSliceExecFns, StringExecFns};

verus! {

/// The character that stands for a digit below sixteen.
pub open spec fn digit_char(digit: int) -> char {
    if digit == 0 {
        '0'
    } else if digit == 1 {
        '1'
    } else if digit == 2 {
        '2'
    } else if digit == 3 {
        '3'
    } else if digit == 4 {
        '4'
    } else if digit == 5 {
        '5'
    } else if digit == 6 {
        '6'
    } else if digit == 7 {
        '7'
    } else if digit == 8 {
        '8'
    } else if digit == 9 {
        '9'
    } else if digit == 10 {
        'a'
    } else if digit == 11 {
        'b'
    } else if digit == 12 {
        'c'
    } else if digit == 13 {
        'd'
    } else if digit == 14 {
        'e'
    } else {
        'f'
    }
}

/// The character that stands for a digit below sixteen.
pub fn digit(value: u64) -> (c: char)
    requires
        value < 16,
    ensures
        c == digit_char(value as int),
{
    if value == 0 {
        '0'
    } else if value == 1 {
        '1'
    } else if value == 2 {
        '2'
    } else if value == 3 {
        '3'
    } else if value == 4 {
        '4'
    } else if value == 5 {
        '5'
    } else if value == 6 {
        '6'
    } else if value == 7 {
        '7'
    } else if value == 8 {
        '8'
    } else if value == 9 {
        '9'
    } else if value == 10 {
        'a'
    } else if value == 11 {
        'b'
    } else if value == 12 {
        'c'
    } else if value == 13 {
        'd'
    } else if value == 14 {
        'e'
    } else {
        'f'
    }
}

/// The digits of a number in a radix from 2 to 16, the most significant
/// first, without leading zeros.
pub open spec fn digits_of(value: nat, radix: nat) -> Seq<char>
    decreases value,
{
    if radix < 2 || value < radix {
        seq![digit_char(value as int)]
    } else {
        proof {
            assert(value / radix < value) by (nonlinear_arith)
                requires
                    radix >= 2,
                    value >= radix,
            ;
        }
        digits_of(value / radix, radix).push(digit_char((value % radix) as int))
    }
}

/// `text` with zeros before it up to the given width.
pub open spec fn zero_padded(text: Seq<char>, width: nat) -> Seq<char> {
    if text.len() >= width {
        text
    } else {
        Seq::new((width - text.len()) as nat, |i: int| '0') + text
    }
}

/// A number in decimal, with a minus sign before it where it is negative.
pub open spec fn decimal_text(value: int) -> Seq<char> {
    if value < 0 {
        seq!['-'] + digits_of((-value) as nat, 10)
    } else {
        digits_of(value as nat, 10)
    }
}

/// A 32-bit number in hexadecimal, a negative number by its bits.
pub open spec fn hex_text(value: i32) -> Seq<char> {
    digits_of(i32_bits(value) as nat, 16)
}

/// Writes the digits of a number in a radix from 2 to 16 behind a text.
#[verifier::loop_isolation(false)]
#[verifier::rlimit(50)]
pub fn push_digits(text: &mut String, value: u64, radix: u64)
    requires
        2 <= radix <= 16,
    ensures
        final(text)@ == old(text)@ + digits_of(value as nat, radix as nat),
{
    // the digits come out least significant first
    let mut turned: Vec<char> = Vec::new();
    let mut rest = value;
    while rest >= radix
        invariant
            2 <= radix <= 16,
            digits_of(value as nat, radix as nat) == digits_of(rest as nat, radix as nat)
                + turned@.reverse(),
        decreases rest,
    {
        let ghost before = turned@;
        turned.push(digit(rest % radix));
        assert(turned@.reverse() =~= seq![digit_char((rest % radix) as int)] + before.reverse());
        assert(digits_of((rest / radix) as nat, radix as nat).push(
            digit_char((rest % radix) as int),
        ) + before.reverse() =~= digits_of((rest / radix) as nat, radix as nat) + turned@.reverse());
        rest = rest / radix;
    }
    push_char(text, digit(rest));
    let ghost head = text@;
    let mut i: usize = turned.len();
    assert(turned@.reverse().take(0) =~= Seq::<char>::empty());
    while i > 0
        invariant
            i <= turned.len(),
            text@ == head + turned@.reverse().take(turned.len() - i),
        decreases i,
    {
        i -= 1;
        push_char(text, turned[i]);
        assert(text@ =~= head + turned@.reverse().take(turned.len() - i));
    }
    assert(turned@.reverse().take(turned.len() as int) =~= turned@.reverse());
    assert(text@ =~= old(text)@ + digits_of(value as nat, radix as nat));
}

/// A number in decimal.
pub fn decimal(value: i64) -> (text: String)
    ensures
        text@ == decimal_text(value as int),
{
    let mut text = String::new();
    if value < 0 {
        push_char(&mut text, '-');
        let size: u64 = if value == i64::MIN {
            0x8000_0000_0000_0000
        } else {
            (-value) as u64
        };
        push_digits(&mut text, size, 10);
        assert(text@ =~= seq!['-'] + digits_of((-value) as nat, 10));
    } else {
        push_digits(&mut text, value as u64, 10);
        assert(text@ =~= digits_of(value as nat, 10));
    }
    text
}

/// A 32-bit number in hexadecimal, a negative number by its bits.
pub fn hex(value: i32) -> (text: String)
    ensures
        text@ == hex_text(value),
{
    let bits: u64 = if value < 0 {
        (value as i64 + 0x1_0000_0000) as u64
    } else {
        value as u64
    };
    let mut text = String::new();
    push_digits(&mut text, bits, 16);
    assert(text@ =~= hex_text(value));
    text
}

/// A text with zeros before it up to the given width.
#[verifier::rlimit(50)]
pub fn pad_zeros(text: &str, width: usize) -> (padded: String)
    ensures
        padded@ == zero_padded(text@, width as nat),
{
    let len = text.unicode_len();
    let mut padded = String::new();
    let mut have = len;
    assert(padded@ =~= Seq::new(0nat, |i: int| '0'));
    while have < width
        invariant
            len <= have,
            have <= width || have == len,
            len == text@.len(),
            padded@ == Seq::new((have - len) as nat, |i: int| '0'),
        decreases width - have,
    {
        push_char(&mut padded, '0');
        have += 1;
        assert(padded@ =~= Seq::new((have - len) as nat, |i: int| '0'));
    }
    padded.append(text);
    assert(padded@ =~= zero_padded(text@, width as nat));
    padded
}

} // verus!
