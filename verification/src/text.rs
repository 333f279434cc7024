//! Building the text of a report: decimal digits, digit grouping, fixed-point
//! numbers and column padding, all stated over sequences of characters.

use thousands::Separable;
use vstd::arithmetic::div_mod::lemma_div_denominator;
use vstd::prelude::*;
use vstd::string::*;

verus! {

/// `String::push` appends the given character to the end of the string.
pub assume_specification[ String::push ](s: &mut String, ch: char)
    ensures
        final(s)@ == old(s)@.push(ch),
;

/// The character that writes the digit `d`.
pub open spec fn digit(d: int) -> char {
    if d == 0 {
        '0'
    } else if d == 1 {
        '1'
    } else if d == 2 {
        '2'
    } else if d == 3 {
        '3'
    } else if d == 4 {
        '4'
    } else if d == 5 {
        '5'
    } else if d == 6 {
        '6'
    } else if d == 7 {
        '7'
    } else if d == 8 {
        '8'
    } else {
        '9'
    }
}

/// `n` in decimal, without leading zeros.
pub open spec fn decimal(n: nat) -> Seq<char>
    decreases n,
{
    if n < 10 {
        seq![digit(n as int)]
    } else {
        decimal(n / 10).push(digit((n % 10) as int))
    }
}

/// `n` in decimal with an underscore between every group of three digits,
/// counted from the right.
pub open spec fn grouped(n: nat) -> Seq<char>
    decreases n,
{
    if n < 1000 {
        decimal(n)
    } else {
        grouped(n / 1000) + seq![
            '_',
            digit((n / 100 % 10) as int),
            digit((n / 10 % 10) as int),
            digit((n % 10) as int),
        ]
    }
}

/// The last `count` decimal digits of `n`, with leading zeros where `n` has
/// fewer.
pub open spec fn low_digits(n: nat, count: nat) -> Seq<char>
    decreases count,
{
    if count == 0 {
        Seq::empty()
    } else {
        low_digits(n / 10, (count - 1) as nat).push(digit((n % 10) as int))
    }
}

/// Ten to the power `e`.
pub open spec fn pow10(e: nat) -> nat
    decreases e,
{
    if e == 0 {
        1
    } else {
        10 * pow10((e - 1) as nat)
    }
}

/// A number given in units of `10^-places`, written with a decimal point and
/// exactly `places` digits behind it; with no places it is written as a
/// whole number.
pub open spec fn fixed_point(value: nat, places: nat) -> Seq<char> {
    if places == 0 {
        decimal(value)
    } else {
        decimal(value / pow10(places)) + seq!['.'] + low_digits(value, places)
    }
}

/// `count` spaces.
pub open spec fn spaces(count: nat) -> Seq<char> {
    Seq::new(count, |i: int| ' ')
}

/// `text` moved to the right edge of a column `width` characters wide; text
/// that is wider than the column is kept whole.
pub open spec fn pad_left(text: Seq<char>, width: nat) -> Seq<char> {
    if text.len() >= width {
        text
    } else {
        spaces((width - text.len()) as nat) + text
    }
}

/// `text` at the left edge of a column `width` characters wide; text that is
/// wider than the column is kept whole.
pub open spec fn pad_right(text: Seq<char>, width: nat) -> Seq<char> {
    if text.len() >= width {
        text
    } else {
        text + spaces((width - text.len()) as nat)
    }
}

/// The thousands crate's `separate_with_underscores`, on a `u64`: the decimal
/// digits of the number with an underscore inserted every three digits from
/// the right.
#[verifier::external_body]
fn separate_with_underscores(n: u64) -> (text: String)
    ensures
        text@ == grouped(n as nat),
{
    n.separate_with_underscores()
}

/// `n` written with digit grouping.
pub fn grouped_text(n: u64) -> (text: String)
    ensures
        text@ == grouped(n as nat),
{
    separate_with_underscores(n)
}

fn digit_char(d: u8) -> (c: char)
    requires
        d < 10,
    ensures
        c == digit(d as int),
{
    match d {
        0 => '0',
        1 => '1',
        2 => '2',
        3 => '3',
        4 => '4',
        5 => '5',
        6 => '6',
        7 => '7',
        8 => '8',
        _ => '9',
    }
}

/// Appends `n` in decimal.
pub fn push_decimal(out: &mut String, n: u128)
    ensures
        final(out)@ == old(out)@ + decimal(n as nat),
    decreases n,
{
    if n >= 10 {
        push_decimal(out, n / 10);
    }
    out.push(digit_char((n % 10) as u8));
}

/// Appends the last `count` decimal digits of `n`.
pub fn push_low_digits(out: &mut String, n: u128, count: u32)
    ensures
        final(out)@ == old(out)@ + low_digits(n as nat, count as nat),
    decreases count,
{
    if count > 0 {
        push_low_digits(out, n / 10, count - 1);
        out.push(digit_char((n % 10) as u8));
    }
}

/// Appends `value`, given in units of `10^-places`, as a fixed-point number.
pub fn push_fixed_point(out: &mut String, value: u128, places: u32)
    ensures
        final(out)@ == old(out)@ + fixed_point(value as nat, places as nat),
{
    if places == 0 {
        push_decimal(out, value);
        return ;
    }
    let mut whole: u128 = value;
    let mut shifted: u32 = 0;
    while shifted < places
        invariant
            shifted <= places,
            pow10(shifted as nat) > 0,
            whole == (value as nat) / pow10(shifted as nat),
        decreases places - shifted,
    {
        proof {
            lemma_div_denominator(value as int, pow10(shifted as nat) as int, 10);
        }
        whole = whole / 10;
        shifted += 1;
    }
    push_decimal(out, whole);
    out.push('.');
    push_low_digits(out, value, places);
}

/// Appends `count` spaces.
pub fn push_spaces(out: &mut String, count: usize)
    ensures
        final(out)@ == old(out)@ + spaces(count as nat),
{
    let mut done: usize = 0;
    while done < count
        invariant
            done <= count,
            out@ == old(out)@ + spaces(done as nat),
        decreases count - done,
    {
        out.push(' ');
        done += 1;
    }
}

/// Appends `text` right-aligned in a column of `width` characters.
pub fn push_padded_left(out: &mut String, text: &str, width: usize)
    ensures
        final(out)@ == old(out)@ + pad_left(text@, width as nat),
{
    let len = text.unicode_len();
    if len < width {
        push_spaces(out, width - len);
    }
    out.append(text);
}

/// Appends `text` left-aligned in a column of `width` characters.
pub fn push_padded_right(out: &mut String, text: &str, width: usize)
    ensures
        final(out)@ == old(out)@ + pad_right(text@, width as nat),
{
    let len = text.unicode_len();
    out.append(text);
    if len < width {
        push_spaces(out, width - len);
    }
}

} // verus!
