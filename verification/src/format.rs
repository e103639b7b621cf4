//! Number formatting: decimal integers, amounts kept in hundredths written
//! the way `f64` displays the value they stand for, and fixed-width
//! lower-case hexadecimal.
use vstd::prelude::*;
use crate::text::push_char;

verus! {

pub open spec fn digit_char(d: nat) -> char {
    ('0' as int + d) as char
}

/// The decimal digits of `n`, as `{}` writes an unsigned integer.
pub open spec fn decimal(n: nat) -> Seq<char>
    decreases n,
{
    if n < 10 {
        seq![digit_char(n)]
    } else {
        decimal(n / 10).push(digit_char(n % 10))
    }
}

/// How `{}` writes the `f64` that holds `c / 100`: the whole part, then a
/// point and the hundredths without trailing zeros, when there are any.
pub open spec fn centi_text(c: nat) -> Seq<char> {
    let whole = decimal(c / 100);
    let frac = c % 100;
    if frac == 0 {
        whole
    } else if frac % 10 == 0 {
        whole + seq!['.', digit_char(frac / 10)]
    } else {
        whole + seq!['.', digit_char(frac / 10), digit_char(frac % 10)]
    }
}

pub open spec fn hex_char(d: nat) -> char {
    if d < 10 {
        digit_char(d)
    } else {
        ('a' as int + d - 10) as char
    }
}

/// The last `k` lower-case hexadecimal digits of `n`, zeros in front.
pub open spec fn hex_digits(n: nat, k: nat) -> Seq<char>
    decreases k,
{
    if k == 0 {
        Seq::<char>::empty()
    } else {
        hex_digits(n / 16, (k - 1) as nat).push(hex_char(n % 16))
    }
}

fn digit_of(d: u64) -> (c: char)
    requires
        d < 10,
    ensures
        c == digit_char(d as nat),
{
    match d {
        0 => '0',
        1 => '1',
        2 => '2',
        3 => '3',
        4 => '4',
        5 => '5',
        6 => '6',
        7 => '7',
        8 => '8',
        _ => '9',
    }
}

fn hex_of(d: u128) -> (c: char)
    requires
        d < 16,
    ensures
        c == hex_char(d as nat),
{
    match d {
        0 => '0',
        1 => '1',
        2 => '2',
        3 => '3',
        4 => '4',
        5 => '5',
        6 => '6',
        7 => '7',
        8 => '8',
        9 => '9',
        10 => 'a',
        11 => 'b',
        12 => 'c',
        13 => 'd',
        14 => 'e',
        _ => 'f',
    }
}

/// Appends the decimal digits of `n`.
pub fn push_decimal(s: &mut String, n: u64)
    ensures
        final(s)@ == old(s)@ + decimal(n as nat),
    decreases n,
{
    if n >= 10 {
        push_decimal(s, n / 10);
    }
    push_char(s, digit_of(n % 10));
}

/// Appends `centi_text(c)`.
pub fn push_centi(s: &mut String, c: u64)
    ensures
        final(s)@ == old(s)@ + centi_text(c as nat),
{
    let ghost start = s@;
    push_decimal(s, c / 100);
    let frac = c % 100;
    if frac != 0 {
        push_char(s, '.');
        push_char(s, digit_of(frac / 10));
        if frac % 10 != 0 {
            push_char(s, digit_of(frac % 10));
        }
    }
    assert(s@ =~= start + centi_text(c as nat));
}

/// Appends the last `k` hexadecimal digits of `n`.
pub fn push_hex(s: &mut String, n: u128, k: u32)
    ensures
        final(s)@ == old(s)@ + hex_digits(n as nat, k as nat),
    decreases k,
{
    let ghost start = s@;
    if k > 0 {
        push_hex(s, n / 16, k - 1);
        push_char(s, hex_of(n % 16));
        assert(s@ =~= start + hex_digits(n as nat, k as nat));
    } else {
        assert(s@ =~= start + hex_digits(n as nat, k as nat));
    }
}

/// The decimal text of `n`.
pub fn decimal_string(n: u64) -> (s: String)
    ensures
        s@ == decimal(n as nat),
{
    let mut s = String::new();
    push_decimal(&mut s, n);
    assert(s@ =~= decimal(n as nat));
    s
}

} // verus!
