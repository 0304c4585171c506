//! Decimal digits: the characters `'0'..='9'`, their numeric values, and the
//! decimal rendering of an integer as a sequence of characters.

use vstd::prelude::*;

verus! {

/// Is `c` one of the ten ASCII decimal digit characters?
pub open spec fn is_digit(c: char) -> bool {
    '0' <= c && c <= '9'
}

/// Numeric value of a digit character (meaningful only when `is_digit(c)`).
pub open spec fn digit_val(c: char) -> int {
    c as int - '0' as int
}

/// The digit character for a value in `0..=9`.
pub open spec fn digit_char(d: int) -> char {
    if d == 0 { '0' }
    else if d == 1 { '1' }
    else if d == 2 { '2' }
    else if d == 3 { '3' }
    else if d == 4 { '4' }
    else if d == 5 { '5' }
    else if d == 6 { '6' }
    else if d == 7 { '7' }
    else if d == 8 { '8' }
    else { '9' }
}

/// Decimal rendering of a non-negative integer, most significant digit first,
/// with no leading zeros (`0` renders as `"0"`).
pub open spec fn dec_digits(n: int) -> Seq<char>
    decreases n,
{
    if n < 10 {
        seq![digit_char(n)]
    } else {
        dec_digits(n / 10).push(digit_char(n % 10))
    }
}

/// Decimal rendering of a signed integer: a minus sign before the digits of
/// the absolute value when negative.
pub open spec fn dec_str(n: int) -> Seq<char> {
    if n < 0 {
        seq!['-'] + dec_digits(-n)
    } else {
        dec_digits(n)
    }
}

/// Executable test for a decimal digit character.
pub fn is_digit_char(c: char) -> (r: bool)
    ensures
        r == is_digit(c),
{
    '0' <= c && c <= '9'
}

/// Executable numeric value of a digit character.
pub fn digit_value(c: char) -> (d: u64)
    requires
        is_digit(c),
    ensures
        d as int == digit_val(c),
{
    (c as u32 - '0' as u32) as u64
}

/// Executable digit character for a value in `0..=9`.
pub fn digit_char_of(d: u64) -> (c: char)
    requires
        d <= 9,
    ensures
        c == digit_char(d as int),
{
    if d == 0 { '0' }
    else if d == 1 { '1' }
    else if d == 2 { '2' }
    else if d == 3 { '3' }
    else if d == 4 { '4' }
    else if d == 5 { '5' }
    else if d == 6 { '6' }
    else if d == 7 { '7' }
    else if d == 8 { '8' }
    else { '9' }
}

/// Reverse a sequence of characters.
fn reverse_chars(v: Vec<char>) -> (r: Vec<char>)
    ensures
        r@ == v@.reverse(),
{
    let mut r: Vec<char> = Vec::new();
    let mut i: usize = v.len();
    while i > 0
        invariant
            0 <= i <= v@.len(),
            r@ == v@.skip(i as int).reverse(),
        decreases i,
    {
        i = i - 1;
        let c = v[i];
        r.push(c);
        proof {
            assert(r@ =~= v@.skip(i as int).reverse());
        }
    }
    proof {
        assert(v@.skip(0) =~= v@);
    }
    r
}

/// Render a non-negative machine integer in decimal.
pub fn dec_chars_u64(n: u64) -> (r: Vec<char>)
    ensures
        r@ == dec_digits(n as int),
{
    let mut acc: Vec<char> = Vec::new();
    let mut x = n;
    while x >= 10
        invariant
            dec_digits(n as int) == dec_digits(x as int) + acc@.reverse(),
        decreases x,
    {
        let d = x % 10;
        let c = digit_char_of(d);
        acc.push(c);
        x = x / 10;
        proof {
            assert(dec_digits(x as int) + acc@.reverse() =~= dec_digits(n as int));
        }
    }
    let c = digit_char_of(x);
    acc.push(c);
    proof {
        assert(acc@.reverse() =~= dec_digits(n as int));
    }
    reverse_chars(acc)
}

/// Render a signed 32-bit integer in decimal, minus sign included.
pub fn dec_chars_i32(n: i32) -> (r: Vec<char>)
    ensures
        r@ == dec_str(n as int),
{
    if n < 0 {
        let mag = (-(n as i64)) as u64;
        let mut r: Vec<char> = Vec::new();
        r.push('-');
        let mut ds = dec_chars_u64(mag);
        r.append(&mut ds);
        proof {
            assert(r@ =~= dec_str(n as int));
        }
        r
    } else {
        dec_chars_u64(n as u64)
    }
}

} // verus!
